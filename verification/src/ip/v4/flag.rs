use vstd::prelude::*;

verus! {

/// IPv4 packet flags.
#[derive(Copy, Clone, Debug, PartialEq, Eq, Structural)]
pub struct Flags {
    bits: u16,
}

/// The bits of every flag there is.
pub const ALL: u16 = 0b110;

/// The bit of the flag: do not fragment packets.
pub const DONT_FRAGMENT: u16 = 0b010;

/// The bit of the flag: more fragments are waiting.
pub const MORE_FRAGMENTS: u16 = 0b100;

impl Flags {
    /// Do not fragment packets.
    pub fn dont_fragment() -> (r: Flags)
        ensures
            r.bits_of() == DONT_FRAGMENT,
    {
        Flags { bits: DONT_FRAGMENT }
    }

    /// More fragments are waiting.
    pub fn more_fragments() -> (r: Flags)
        ensures
            r.bits_of() == MORE_FRAGMENTS,
    {
        Flags { bits: MORE_FRAGMENTS }
    }

    /// The bits that are set.
    pub closed spec fn bits_of(self) -> u16 {
        self.bits
    }

    /// Flags are the same where their bits are.
    pub proof fn lemma_same_bits(self, other: Flags)
        requires
            self.bits_of() == other.bits_of(),
        ensures
            self == other,
    {
    }

    /// No flag at all.
    pub fn empty() -> (r: Flags)
        ensures
            r.bits_of() == 0,
    {
        Flags { bits: 0 }
    }

    /// Every flag.
    pub fn all() -> (r: Flags)
        ensures
            r.bits_of() == ALL,
    {
        Flags { bits: ALL }
    }

    /// The bits that are set.
    pub fn bits(&self) -> (r: u16)
        ensures
            r == self.bits_of(),
    {
        self.bits
    }

    /// The flags whose bits are `bits`, unless a bit is among them that is
    /// no flag.
    pub fn from_bits(bits: u16) -> (r: Option<Flags>)
        ensures
            r is Some <==> bits & !ALL == 0,
            r is Some ==> r->Some_0.bits_of() == bits,
    {
        if bits & !ALL == 0 {
            Some(Flags { bits })
        } else {
            None
        }
    }

    /// The flags whose bits are `bits`, the bits that are no flag dropped.
    pub fn from_bits_truncate(bits: u16) -> (r: Flags)
        ensures
            r.bits_of() == bits & ALL,
    {
        Flags { bits: bits & ALL }
    }

    /// Whether no flag is set.
    pub fn is_empty(&self) -> (r: bool)
        ensures
            r <==> self.bits_of() == 0,
    {
        self.bits == 0
    }

    /// Whether every flag of `other` is set.
    pub fn contains(&self, other: Flags) -> (r: bool)
        ensures
            r <==> self.bits_of() & other.bits_of() == other.bits_of(),
    {
        self.bits & other.bits == other.bits
    }

    /// The flags of both.
    pub fn union(self, other: Flags) -> (r: Flags)
        ensures
            r.bits_of() == self.bits_of() | other.bits_of(),
    {
        Flags { bits: self.bits | other.bits }
    }
}

} // verus!
