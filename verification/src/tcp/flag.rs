use vstd::prelude::*;

verus! {

/// TCP flags.
#[derive(Copy, Clone, Debug, PartialEq, Eq, Structural)]
pub struct Flags {
    bits: u16,
}

/// The bits of every flag there is.
pub const ALL: u16 = 0b1_1111_1111;

/// The bit of the flag: no more data from the sender.
pub const FIN: u16 = 0b0_0000_0001;

/// The bit of the flag: synchronize sequence numbers.
pub const SYN: u16 = 0b0_0000_0010;

/// The bit of the flag: reset the connection.
pub const RST: u16 = 0b0_0000_0100;

/// The bit of the flag: push the buffered data to the receiver.
pub const PSH: u16 = 0b0_0000_1000;

/// The bit of the flag: the acknowledgment field is significant.
pub const ACK: u16 = 0b0_0001_0000;

/// The bit of the flag: the urgent pointer field is significant.
pub const URG: u16 = 0b0_0010_0000;

/// The bit of the flag: eCN echo.
pub const ECE: u16 = 0b0_0100_0000;

/// The bit of the flag: congestion window reduced.
pub const CWR: u16 = 0b0_1000_0000;

/// The bit of the flag: eCN nonce.
pub const NS: u16 = 0b1_0000_0000;

impl Flags {
    /// No more data from the sender.
    pub fn fin() -> (r: Flags)
        ensures
            r.bits_of() == FIN,
    {
        Flags { bits: FIN }
    }

    /// Synchronize sequence numbers.
    pub fn syn() -> (r: Flags)
        ensures
            r.bits_of() == SYN,
    {
        Flags { bits: SYN }
    }

    /// Reset the connection.
    pub fn rst() -> (r: Flags)
        ensures
            r.bits_of() == RST,
    {
        Flags { bits: RST }
    }

    /// Push the buffered data to the receiver.
    pub fn psh() -> (r: Flags)
        ensures
            r.bits_of() == PSH,
    {
        Flags { bits: PSH }
    }

    /// The acknowledgment field is significant.
    pub fn ack() -> (r: Flags)
        ensures
            r.bits_of() == ACK,
    {
        Flags { bits: ACK }
    }

    /// The urgent pointer field is significant.
    pub fn urg() -> (r: Flags)
        ensures
            r.bits_of() == URG,
    {
        Flags { bits: URG }
    }

    /// ECN echo.
    pub fn ece() -> (r: Flags)
        ensures
            r.bits_of() == ECE,
    {
        Flags { bits: ECE }
    }

    /// Congestion window reduced.
    pub fn cwr() -> (r: Flags)
        ensures
            r.bits_of() == CWR,
    {
        Flags { bits: CWR }
    }

    /// ECN nonce.
    pub fn ns() -> (r: Flags)
        ensures
            r.bits_of() == NS,
    {
        Flags { bits: NS }
    }

    /// The bits that are set.
    pub closed spec fn bits_of(self) -> u16 {
        self.bits
    }

    /// Flags are the same where their bits are.
    pub proof fn lemma_same_bits(self, other: Flags)
        requires
            self.bits_of() == other.bits_of(),
        ensures
            self == other,
    {
    }

    /// No flag at all.
    pub fn empty() -> (r: Flags)
        ensures
            r.bits_of() == 0,
    {
        Flags { bits: 0 }
    }

    /// Every flag.
    pub fn all() -> (r: Flags)
        ensures
            r.bits_of() == ALL,
    {
        Flags { bits: ALL }
    }

    /// The bits that are set.
    pub fn bits(&self) -> (r: u16)
        ensures
            r == self.bits_of(),
    {
        self.bits
    }

    /// The flags whose bits are `bits`, unless a bit is among them that is
    /// no flag.
    pub fn from_bits(bits: u16) -> (r: Option<Flags>)
        ensures
            r is Some <==> bits & !ALL == 0,
            r is Some ==> r->Some_0.bits_of() == bits,
    {
        if bits & !ALL == 0 {
            Some(Flags { bits })
        } else {
            None
        }
    }

    /// The flags whose bits are `bits`, the bits that are no flag dropped.
    pub fn from_bits_truncate(bits: u16) -> (r: Flags)
        ensures
            r.bits_of() == bits & ALL,
    {
        Flags { bits: bits & ALL }
    }

    /// Whether no flag is set.
    pub fn is_empty(&self) -> (r: bool)
        ensures
            r <==> self.bits_of() == 0,
    {
        self.bits == 0
    }

    /// Whether every flag of `other` is set.
    pub fn contains(&self, other: Flags) -> (r: bool)
        ensures
            r <==> self.bits_of() & other.bits_of() == other.bits_of(),
    {
        self.bits & other.bits == other.bits
    }

    /// The flags of both.
    pub fn union(self, other: Flags) -> (r: Flags)
        ensures
            r.bits_of() == self.bits_of() | other.bits_of(),
    {
        Flags { bits: self.bits | other.bits }
    }
}

} // verus!
