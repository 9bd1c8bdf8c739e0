use vstd::prelude::*;
use vstd::std_specs::convert::FromSpecImpl;

verus! {

/// Kinds of control message, by the number in the header.
#[derive(Eq, PartialEq, Copy, Clone, Debug, Structural)]
pub enum Kind {
    /// Echo reply.
    EchoReply,
    /// Destination unreachable.
    DestinationUnreachable,
    /// Source quench.
    SourceQuench,
    /// Redirect message.
    RedirectMessage,
    /// Echo request.
    EchoRequest,
    /// Router advertisement.
    RouterAdvertisement,
    /// Router solicitation.
    RouterSolicitation,
    /// Time exceeded.
    TimeExceeded,
    /// Parameter problem.
    ParameterProblem,
    /// Timestamp request.
    TimestampRequest,
    /// Timestamp reply.
    TimestampReply,
    /// Information request.
    InformationRequest,
    /// Information reply.
    InformationReply,
    /// Address mask request.
    AddressMaskRequest,
    /// Address mask reply.
    AddressMaskReply,
    /// Trace route.
    TraceRoute,
    /// Any other number.
    Unknown(u8),
}

impl Kind {
    /// The value that the number `value` stands for.
    pub open spec fn of(value: u8) -> Kind {
        if value == 0 {
            Kind::EchoReply
        } else if value == 3 {
            Kind::DestinationUnreachable
        } else if value == 4 {
            Kind::SourceQuench
        } else if value == 5 {
            Kind::RedirectMessage
        } else if value == 8 {
            Kind::EchoRequest
        } else if value == 9 {
            Kind::RouterAdvertisement
        } else if value == 10 {
            Kind::RouterSolicitation
        } else if value == 11 {
            Kind::TimeExceeded
        } else if value == 12 {
            Kind::ParameterProblem
        } else if value == 13 {
            Kind::TimestampRequest
        } else if value == 14 {
            Kind::TimestampReply
        } else if value == 15 {
            Kind::InformationRequest
        } else if value == 16 {
            Kind::InformationReply
        } else if value == 17 {
            Kind::AddressMaskRequest
        } else if value == 18 {
            Kind::AddressMaskReply
        } else if value == 30 {
            Kind::TraceRoute
        } else {
            Kind::Unknown(value)
        }
    }

    /// The number that stands for the value.
    pub open spec fn number(self) -> u8 {
        match self {
            Kind::EchoReply => 0,
            Kind::DestinationUnreachable => 3,
            Kind::SourceQuench => 4,
            Kind::RedirectMessage => 5,
            Kind::EchoRequest => 8,
            Kind::RouterAdvertisement => 9,
            Kind::RouterSolicitation => 10,
            Kind::TimeExceeded => 11,
            Kind::ParameterProblem => 12,
            Kind::TimestampRequest => 13,
            Kind::TimestampReply => 14,
            Kind::InformationRequest => 15,
            Kind::InformationReply => 16,
            Kind::AddressMaskRequest => 17,
            Kind::AddressMaskReply => 18,
            Kind::TraceRoute => 30,
            Kind::Unknown(n) => n,
        }
    }

    /// The value that the number `value` stands for.
    pub fn from_number(value: u8) -> (r: Kind)
        ensures
            r == Kind::of(value),
    {
        match value {
            0 => Kind::EchoReply,
            3 => Kind::DestinationUnreachable,
            4 => Kind::SourceQuench,
            5 => Kind::RedirectMessage,
            8 => Kind::EchoRequest,
            9 => Kind::RouterAdvertisement,
            10 => Kind::RouterSolicitation,
            11 => Kind::TimeExceeded,
            12 => Kind::ParameterProblem,
            13 => Kind::TimestampRequest,
            14 => Kind::TimestampReply,
            15 => Kind::InformationRequest,
            16 => Kind::InformationReply,
            17 => Kind::AddressMaskRequest,
            18 => Kind::AddressMaskReply,
            30 => Kind::TraceRoute,
            n => Kind::Unknown(n),
        }
    }

    /// The number that stands for the value.
    pub fn into_number(self) -> (r: u8)
        ensures
            r == self.number(),
    {
        match self {
            Kind::EchoReply => 0,
            Kind::DestinationUnreachable => 3,
            Kind::SourceQuench => 4,
            Kind::RedirectMessage => 5,
            Kind::EchoRequest => 8,
            Kind::RouterAdvertisement => 9,
            Kind::RouterSolicitation => 10,
            Kind::TimeExceeded => 11,
            Kind::ParameterProblem => 12,
            Kind::TimestampRequest => 13,
            Kind::TimestampReply => 14,
            Kind::InformationRequest => 15,
            Kind::InformationReply => 16,
            Kind::AddressMaskRequest => 17,
            Kind::AddressMaskReply => 18,
            Kind::TraceRoute => 30,
            Kind::Unknown(n) => n,
        }
    }
}

impl From<u8> for Kind {
    fn from(value: u8) -> (r: Kind) {
        Kind::from_number(value)
    }
}

impl FromSpecImpl<u8> for Kind {
    open spec fn obeys_from_spec() -> bool {
        true
    }

    open spec fn from_spec(value: u8) -> Kind {
        Kind::of(value)
    }
}

impl From<Kind> for u8 {
    fn from(value: Kind) -> (r: u8) {
        value.into_number()
    }
}

impl FromSpecImpl<Kind> for u8 {
    open spec fn obeys_from_spec() -> bool {
        true
    }

    open spec fn from_spec(value: Kind) -> u8 {
        value.number()
    }
}

impl Kind {
    /// Every number is the number of the value that it stands for.
    pub proof fn lemma_number_round_trip(value: u8)
        ensures
            Kind::of(value).number() == value,
    {
    }
}

} // verus!
