use vstd::prelude::*;
use vstd::std_specs::convert::FromSpecImpl;
use crate::bytes::{AsBytes, AsBytesMut};
use crate::error::Error;
use crate::packet::{AsPacket, AsPacketMut, Packet as P, PacketMut as PM};
use crate::size;

verus! {

/// IPv4 option parser.
pub struct Option<B> {
    buffer: B,
}

/// Class of an IPv4 option.
#[derive(Eq, PartialEq, Copy, Clone, Debug, Structural)]
pub enum Class {
    /// Control.
    Control,
    /// Debugging and measurement.
    Debugging,
    /// Reserved for future use.
    Reserved(u8),
}

impl Class {
    /// The class that the number `value` stands for.
    pub open spec fn of(value: u8) -> Class {
        if value == 0 {
            Class::Control
        } else if value == 2 {
            Class::Debugging
        } else {
            Class::Reserved(value)
        }
    }

    /// The number that stands for the class.
    pub open spec fn number(self) -> u8 {
        match self {
            Class::Control => 0,
            Class::Debugging => 2,
            Class::Reserved(n) => n,
        }
    }

    /// The class that a number of two bits stands for.
    pub fn from(value: u8) -> (r: Class)
        requires
            value <= 3,
        ensures
            r == Class::of(value),
    {
        match value {
            0 => Class::Control,
            2 => Class::Debugging,
            n => Class::Reserved(n),
        }
    }

    /// The number that stands for the class.
    pub fn into_number(self) -> (r: u8)
        ensures
            r == self.number(),
    {
        match self {
            Class::Control => 0,
            Class::Debugging => 2,
            Class::Reserved(n) => n,
        }
    }
}

impl From<Class> for u8 {
    fn from(value: Class) -> (r: u8) {
        value.into_number()
    }
}

impl FromSpecImpl<Class> for u8 {
    open spec fn obeys_from_spec() -> bool {
        true
    }

    open spec fn from_spec(value: Class) -> u8 {
        value.number()
    }
}


/// Kinds of IPv4 option, by number.
#[derive(Eq, PartialEq, Copy, Clone, Debug, Structural)]
pub enum Number {
    /// End of the option list.
    End,
    /// No operation.
    NoOperation,
    /// Security.
    Security,
    /// Loose source route.
    LooseSourceRoute,
    /// Time stamp.
    TimeStamp,
    /// Extended security.
    ExtendedSecurity,
    /// Commercial security.
    CommercialSecurity,
    /// Record route.
    RecordRoute,
    /// Stream identifier.
    StreamId,
    /// Strict source route.
    StrictSourceRoute,
    /// Experimental measurement.
    ExperimentalMeasurement,
    /// MTU probe.
    MtuProbe,
    /// MTU reply.
    MtuReply,
    /// Experimental flow control.
    ExperimentalFlowControl,
    /// Experimental access control.
    ExperimentalAccessControl,
    /// IMI traffic descriptor.
    ImiTrafficDescriptor,
    /// Extended Internet Protocol.
    ExtendedInternetProtocol,
    /// Trace route.
    TraceRoute,
    /// Address extension.
    AddressExtension,
    /// Router alert.
    RouterAlert,
    /// Selective directed broadcast.
    SelectiveDirectedBroadcast,
    /// Dynamic packet state.
    DynamicPacketState,
    /// Upstream multicast packet.
    UpstreamMulticastPacket,
    /// Quick-start.
    QuickStart,
    /// Any other number.
    Unknown(u8),
}

impl Number {
    /// The value that the number `value` stands for.
    pub open spec fn of(value: u8) -> Number {
        if value == 0 {
            Number::End
        } else if value == 1 {
            Number::NoOperation
        } else if value == 2 {
            Number::Security
        } else if value == 3 {
            Number::LooseSourceRoute
        } else if value == 4 {
            Number::TimeStamp
        } else if value == 5 {
            Number::ExtendedSecurity
        } else if value == 6 {
            Number::CommercialSecurity
        } else if value == 7 {
            Number::RecordRoute
        } else if value == 8 {
            Number::StreamId
        } else if value == 9 {
            Number::StrictSourceRoute
        } else if value == 10 {
            Number::ExperimentalMeasurement
        } else if value == 11 {
            Number::MtuProbe
        } else if value == 12 {
            Number::MtuReply
        } else if value == 13 {
            Number::ExperimentalFlowControl
        } else if value == 14 {
            Number::ExperimentalAccessControl
        } else if value == 16 {
            Number::ImiTrafficDescriptor
        } else if value == 17 {
            Number::ExtendedInternetProtocol
        } else if value == 18 {
            Number::TraceRoute
        } else if value == 19 {
            Number::AddressExtension
        } else if value == 20 {
            Number::RouterAlert
        } else if value == 21 {
            Number::SelectiveDirectedBroadcast
        } else if value == 23 {
            Number::DynamicPacketState
        } else if value == 24 {
            Number::UpstreamMulticastPacket
        } else if value == 25 {
            Number::QuickStart
        } else {
            Number::Unknown(value)
        }
    }

    /// The number that stands for the value.
    pub open spec fn number(self) -> u8 {
        match self {
            Number::End => 0,
            Number::NoOperation => 1,
            Number::Security => 2,
            Number::LooseSourceRoute => 3,
            Number::TimeStamp => 4,
            Number::ExtendedSecurity => 5,
            Number::CommercialSecurity => 6,
            Number::RecordRoute => 7,
            Number::StreamId => 8,
            Number::StrictSourceRoute => 9,
            Number::ExperimentalMeasurement => 10,
            Number::MtuProbe => 11,
            Number::MtuReply => 12,
            Number::ExperimentalFlowControl => 13,
            Number::ExperimentalAccessControl => 14,
            Number::ImiTrafficDescriptor => 16,
            Number::ExtendedInternetProtocol => 17,
            Number::TraceRoute => 18,
            Number::AddressExtension => 19,
            Number::RouterAlert => 20,
            Number::SelectiveDirectedBroadcast => 21,
            Number::DynamicPacketState => 23,
            Number::UpstreamMulticastPacket => 24,
            Number::QuickStart => 25,
            Number::Unknown(n) => n,
        }
    }

    /// The value that the number `value` stands for.
    pub fn from_number(value: u8) -> (r: Number)
        ensures
            r == Number::of(value),
    {
        match value {
            0 => Number::End,
            1 => Number::NoOperation,
            2 => Number::Security,
            3 => Number::LooseSourceRoute,
            4 => Number::TimeStamp,
            5 => Number::ExtendedSecurity,
            6 => Number::CommercialSecurity,
            7 => Number::RecordRoute,
            8 => Number::StreamId,
            9 => Number::StrictSourceRoute,
            10 => Number::ExperimentalMeasurement,
            11 => Number::MtuProbe,
            12 => Number::MtuReply,
            13 => Number::ExperimentalFlowControl,
            14 => Number::ExperimentalAccessControl,
            16 => Number::ImiTrafficDescriptor,
            17 => Number::ExtendedInternetProtocol,
            18 => Number::TraceRoute,
            19 => Number::AddressExtension,
            20 => Number::RouterAlert,
            21 => Number::SelectiveDirectedBroadcast,
            23 => Number::DynamicPacketState,
            24 => Number::UpstreamMulticastPacket,
            25 => Number::QuickStart,
            n => Number::Unknown(n),
        }
    }

    /// The number that stands for the value.
    pub fn into_number(self) -> (r: u8)
        ensures
            r == self.number(),
    {
        match self {
            Number::End => 0,
            Number::NoOperation => 1,
            Number::Security => 2,
            Number::LooseSourceRoute => 3,
            Number::TimeStamp => 4,
            Number::ExtendedSecurity => 5,
            Number::CommercialSecurity => 6,
            Number::RecordRoute => 7,
            Number::StreamId => 8,
            Number::StrictSourceRoute => 9,
            Number::ExperimentalMeasurement => 10,
            Number::MtuProbe => 11,
            Number::MtuReply => 12,
            Number::ExperimentalFlowControl => 13,
            Number::ExperimentalAccessControl => 14,
            Number::ImiTrafficDescriptor => 16,
            Number::ExtendedInternetProtocol => 17,
            Number::TraceRoute => 18,
            Number::AddressExtension => 19,
            Number::RouterAlert => 20,
            Number::SelectiveDirectedBroadcast => 21,
            Number::DynamicPacketState => 23,
            Number::UpstreamMulticastPacket => 24,
            Number::QuickStart => 25,
            Number::Unknown(n) => n,
        }
    }
}

impl From<u8> for Number {
    fn from(value: u8) -> (r: Number) {
        Number::from_number(value)
    }
}

impl FromSpecImpl<u8> for Number {
    open spec fn obeys_from_spec() -> bool {
        true
    }

    open spec fn from_spec(value: u8) -> Number {
        Number::of(value)
    }
}

impl From<Number> for u8 {
    fn from(value: Number) -> (r: u8) {
        value.into_number()
    }
}

impl FromSpecImpl<Number> for u8 {
    open spec fn obeys_from_spec() -> bool {
        true
    }

    open spec fn from_spec(value: Number) -> u8 {
        value.number()
    }
}

impl Number {
    /// Every number is the number of the value that it stands for.
    pub proof fn lemma_number_round_trip(value: u8)
        ensures
            Number::of(value).number() == value,
    {
    }
}


/// The number of the option that the bytes start with.
pub open spec fn number_of(bytes: Seq<u8>) -> Number {
    Number::of(bytes[0] & 0b11111)
}

/// Whether the option that the bytes start with is a single byte, with no
/// length behind it.
pub open spec fn is_single(bytes: Seq<u8>) -> bool {
    number_of(bytes) == Number::End || number_of(bytes) == Number::NoOperation
}

/// The length of the option that the bytes start with.
pub open spec fn length_of(bytes: Seq<u8>) -> u8 {
    if is_single(bytes) {
        1
    } else {
        bytes[1]
    }
}

/// What parsing makes of the bytes: too few where none is there, where the
/// length is missing, or where the length is more than there are.
pub open spec fn check(bytes: Seq<u8>) -> Result<(), Error> {
    if bytes.len() < 1 {
        Err(Error::SmallBuffer)
    } else if !is_single(bytes) && bytes.len() < 2 {
        Err(Error::SmallBuffer)
    } else if bytes.len() < length_of(bytes) {
        Err(Error::SmallBuffer)
    } else {
        Ok(())
    }
}

/// How many bytes the option takes up.
pub open spec fn extent(bytes: Seq<u8>) -> int {
    if length_of(bytes) < 2 {
        1
    } else {
        length_of(bytes) as int
    }
}

impl<B: AsBytes> View for Option<B> {
    type V = Seq<u8>;

    closed spec fn view(&self) -> Seq<u8> {
        self.buffer.bytes()
    }
}

impl<B: AsBytes> AsBytes for Option<B> {
    open spec fn bytes(&self) -> Seq<u8> {
        self@
    }

    proof fn lemma_bytes_len(&self) {
        self.buffer.lemma_bytes_len();
    }

    fn as_bytes(&self) -> (r: &[u8]) {
        self.buffer.as_bytes()
    }
}

impl<B: AsBytesMut> AsBytesMut for Option<B> {
    fn as_bytes_mut(&mut self) -> (r: &mut [u8]) {
        self.buffer.as_bytes_mut()
    }
}

impl<B> size::header::Min for Option<B> {
    open spec fn header_min() -> nat {
        1
    }

    fn min() -> (r: usize) {
        1
    }
}

impl<B> size::header::Max for Option<B> {
    open spec fn header_max() -> nat {
        2
    }

    fn max() -> (r: usize) {
        2
    }
}

impl<B: AsBytes> size::header::Size for Option<B> {
    open spec fn header_sized(&self) -> bool {
        self@.len() >= 1 && (is_single(self@) || self@.len() >= 2)
    }

    open spec fn header_size(&self) -> nat {
        if length_of(self@) == 1 {
            1
        } else {
            2
        }
    }

    fn size(&self) -> (r: usize) {
        assert(self.header_sized());
        match self.length() {
            1 => 1,
            _ => 2,
        }
    }
}

impl<B> size::payload::Min for Option<B> {
    open spec fn payload_min() -> nat {
        0
    }

    fn min() -> (r: usize) {
        0
    }
}

impl<B> size::payload::Max for Option<B> {
    open spec fn payload_max() -> nat {
        32
    }

    fn max() -> (r: usize) {
        32
    }
}

impl<B: AsBytes> size::payload::Size for Option<B> {
    open spec fn payload_sized(&self) -> bool {
        &&& self@.len() >= 1
        &&& is_single(self@) || self@.len() >= 2
        &&& length_of(self@) != 0
    }

    open spec fn payload_size(&self) -> nat {
        if length_of(self@) == 1 {
            0
        } else {
            (length_of(self@) - 2) as nat
        }
    }

    fn size(&self) -> (r: usize) {
        assert(self.payload_sized());
        let length: u8 = self.length();
        if length == 1 {
            0
        } else {
            length as usize - 2
        }
    }
}

impl<B: AsBytes> Option<B> {
    /// Parse an option, checking the buffer contents are correct.
    pub fn new(buffer: B) -> (r: Result<Option<B>, Error>)
        ensures
            match r {
                Ok(option) => check(buffer.bytes()) is Ok && option@ == buffer.bytes(),
                Err(e) => check(buffer.bytes()) == Err::<(), Error>(e),
            },
    {
        let option = Option { buffer };
        if option.buffer.as_bytes().len() < 1 {
            return Err(Error::SmallBuffer);
        }
        if !option.is_single() && option.buffer.as_bytes().len() < 2 {
            return Err(Error::SmallBuffer);
        }
        if option.buffer.as_bytes().len() < option.length() as usize {
            return Err(Error::SmallBuffer);
        }
        Ok(option)
    }

    /// Whether the option is a single byte, with no length behind it.
    pub fn is_single(&self) -> (r: bool)
        requires
            self@.len() >= 1,
        ensures
            r == is_single(self@),
    {
        match self.number() {
            Number::End | Number::NoOperation => true,
            _ => false,
        }
    }

    /// Whether the option has to be copied in fragments.
    pub fn is_copied(&self) -> (r: bool)
        requires
            self@.len() >= 1,
        ensures
            r == (self@[0] >> 7 == 1),
    {
        self.buffer.as_bytes()[0] >> 7 == 1
    }

    /// Option class.
    pub fn class(&self) -> (r: Class)
        requires
            self@.len() >= 1,
        ensures
            r == Class::of((self@[0] >> 5) & 0b011),
    {
        match (self.buffer.as_bytes()[0] >> 5) & 0b011 {
            0 => Class::Control,
            2 => Class::Debugging,
            v => Class::Reserved(v),
        }
    }

    /// Option number.
    pub fn number(&self) -> (r: Number)
        requires
            self@.len() >= 1,
        ensures
            r == number_of(self@),
    {
        Number::from_number(self.buffer.as_bytes()[0] & 0b11111)
    }

    /// Option length.
    pub fn length(&self) -> (r: u8)
        requires
            self@.len() >= 1,
            is_single(self@) || self@.len() >= 2,
        ensures
            r == length_of(self@),
    {
        match self.number() {
            Number::End | Number::NoOperation => 1,
            _ => self.buffer.as_bytes()[1],
        }
    }

    /// The bytes of the option: header and payload, without what lies behind.
    pub fn as_ref(&self) -> (r: &[u8])
        requires
            check(self@) is Ok,
            length_of(self@) != 0,
        ensures
            r@ == self@.take(extent(self@)),
    {
        let size: usize = size::Size::size(self);
        vstd::slice::slice_subrange(self.buffer.as_bytes(), 0, size)
    }
}

impl<B: AsBytesMut> Option<B> {
    /// The bytes of the option, to be written: header and payload, without
    /// what lies behind, which stays.
    pub fn as_mut(&mut self) -> (r: &mut [u8])
        requires
            check(old(self)@) is Ok,
            length_of(old(self)@) != 0,
        ensures
            r@ == old(self)@.take(extent(old(self)@)),
            (*final(self))@ == final(r)@ + old(self)@.skip(extent(old(self)@)),
    {
        let size: usize = size::Size::size(self);
        let (front, _) = self.buffer.as_bytes_mut().split_at_mut(size);
        front
    }
}

impl<'a, B: AsBytes + ?Sized> AsPacket<'a, Option<&'a [u8]>> for B {
    open spec fn readable(&self) -> bool {
        true
    }

    open spec fn packet_bytes(&self) -> Seq<u8> {
        self.bytes()
    }

    open spec fn parsed(bytes: Seq<u8>) -> Result<(), Error> {
        check(bytes)
    }

    fn as_packet(&'a self) -> (r: Result<Option<&'a [u8]>, Error>) {
        Option::new(self.as_bytes())
    }
}

impl<'a, B: AsBytesMut + ?Sized> AsPacketMut<'a, Option<&'a mut [u8]>> for B {
    open spec fn writable(&self) -> bool {
        true
    }

    open spec fn packet_bytes_mut(&self) -> Seq<u8> {
        self.bytes()
    }

    open spec fn parsed_mut(bytes: Seq<u8>) -> Result<(), Error> {
        check(bytes)
    }

    fn as_packet_mut(&'a mut self) -> (r: Result<Option<&'a mut [u8]>, Error>) {
        Option::new(self.as_bytes_mut())
    }
}

impl<B: AsBytes> P for Option<B> {
    open spec fn raw(&self) -> Seq<u8> {
        self@
    }

    open spec fn header_end(&self) -> int {
        if length_of(self@) == 1 {
            1
        } else {
            2
        }
    }

    open spec fn payload_end(&self) -> int {
        if length_of(self@) == 1 {
            self@.len() as int
        } else {
            length_of(self@) as int
        }
    }

    open spec fn splittable(&self) -> bool {
        &&& check(self@) is Ok
        &&& length_of(self@) == 1 || length_of(self@) >= 2
    }

    proof fn lemma_split_bounds(&self) {
    }

    fn split(&self) -> (r: (&[u8], &[u8])) {
        assert(self.splittable());
        let buffer = self.buffer.as_bytes();
        match self.length() {
            1 => {
                let r = buffer.split_at(1);
                assert(self.payload_end() == self@.len());
                r
            },
            length => {
                let r = vstd::slice::slice_subrange(buffer, 0, length as usize).split_at(2);
                assert(r.0@ =~= self@.subrange(0, 2));
                assert(r.1@ =~= self@.subrange(2, length as int));
                assert(self.payload_end() == length);
                r
            },
        }
    }
}

impl<B: AsBytesMut> PM for Option<B> {
    fn split_mut(&mut self) -> (r: (&mut [u8], &mut [u8])) {
        assert(self.splittable());
        let length: u8 = self.length();
        let buffer = self.buffer.as_bytes_mut();
        if length == 1 {
            let r = buffer.split_at_mut(1);
            proof {
                assert(old(self).payload_end() == old(self)@.len());
                assert(old(self)@.skip(old(self)@.len() as int) =~= Seq::<u8>::empty());
            }
            r
        } else {
            let (front, back) = buffer.split_at_mut(length as usize);
            let r = front.split_at_mut(2);
            proof {
                assert(r.0@ =~= old(self)@.subrange(0, 2));
                assert(r.1@ =~= old(self)@.subrange(2, length as int));
                assert(back@ =~= old(self)@.skip(length as int));
                assert(old(self).payload_end() == length);
            }
            r
        }
    }
}

/// The options that a run of bytes holds, one behind the other.
pub struct OptionIter<'a> {
    buffer: &'a [u8],
}

/// What the next step over the options in `bytes` gives: nothing at the end
/// of the bytes or at an end-of-list option; an error where the option does
/// not parse or announces no length at all; else the option, and the bytes
/// behind it to go on with.
pub open spec fn step(bytes: Seq<u8>) -> core::option::Option<Result<Seq<u8>, Error>> {
    if bytes.len() == 0 {
        None
    } else if check(bytes) is Err {
        Some(Err(check(bytes)->Err_0))
    } else if number_of(bytes) == Number::End {
        None
    } else if length_of(bytes) == 0 {
        Some(Err(Error::InvalidPacket))
    } else {
        Some(Ok(bytes.skip(extent(bytes))))
    }
}

impl<'a> OptionIter<'a> {
    /// Walk the options in the given bytes.
    pub fn new(buffer: &'a [u8]) -> (r: OptionIter<'a>)
        ensures
            r.remaining() == buffer@,
    {
        OptionIter { buffer }
    }

    /// The bytes that are still to be walked.
    pub closed spec fn remaining(&self) -> Seq<u8> {
        self.buffer@
    }

    /// The next option, if there is one.
    pub fn next(&mut self) -> (r: core::option::Option<Result<Option<&'a [u8]>, Error>>)
        ensures
            match r {
                None => step(old(self).remaining()) is None
                    && final(self).remaining() == old(self).remaining(),
                Some(Err(e)) => step(old(self).remaining()) == Some(Err::<Seq<u8>, Error>(e))
                    && final(self).remaining() == old(self).remaining(),
                Some(Ok(option)) => step(old(self).remaining()) == Some(
                    Ok::<Seq<u8>, Error>(final(self).remaining()),
                ) && option@ == old(self).remaining(),
            },
    {
        if self.buffer.len() == 0 {
            return None;
        }
        match Option::new(self.buffer) {
            Ok(option) => {
                if option.number() == Number::End {
                    return None;
                }
                if option.length() == 0 {
                    return Some(Err(Error::InvalidPacket));
                }
                let size: usize = size::Size::size(&option);
                self.buffer = vstd::slice::slice_subrange(self.buffer, size, self.buffer.len());
                Some(Ok(option))
            },
            Err(error) => Some(Err(error)),
        }
    }
}

} // verus!
