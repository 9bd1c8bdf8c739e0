use vstd::prelude::*;
use vstd::std_specs::convert::FromSpecImpl;

verus! {

/// Codes for Destination Unreachable packets.
#[derive(Eq, PartialEq, Copy, Clone, Debug, Structural)]
pub enum DestinationUnreachable {
    /// Destination network unreachable.
    DestinationNetworkUnreachable,
    /// Destination host unreachable.
    DestinationHostUnreachable,
    /// Destination protocol unreachable.
    DestinationProtocolUnreachable,
    /// Destination port unreachable.
    DestinationPortUnreachable,
    /// Fragmentation required.
    FragmentationRequired,
    /// Source route failed.
    SourceRouteFailed,
    /// Destination network unknown.
    DestinationNetworkUnknown,
    /// Destination host unknown.
    DestinationHostUnknown,
    /// Source host isolated.
    SourceHostIsolated,
    /// Network administratively prohibited.
    NetworkAdministrativelyProhibited,
    /// Host administratively prohibited.
    HostAdministrativelyProhibited,
    /// Network unreachable for type of service.
    NetworkUnreachableForTos,
    /// Host unreachable for type of service.
    HostUnreachableForTos,
    /// Communication administratively prohibited.
    CommunicationAdministrativelyProhibited,
    /// Host precedence violation.
    HostPrecedenceViolation,
    /// Precedent cutoff in effect.
    PrecedentCutoffInEffect,
    /// Any other number.
    Unknown(u8),
}

impl DestinationUnreachable {
    /// The value that the number `value` stands for.
    pub open spec fn of(value: u8) -> DestinationUnreachable {
        if value == 0 {
            DestinationUnreachable::DestinationNetworkUnreachable
        } else if value == 1 {
            DestinationUnreachable::DestinationHostUnreachable
        } else if value == 2 {
            DestinationUnreachable::DestinationProtocolUnreachable
        } else if value == 3 {
            DestinationUnreachable::DestinationPortUnreachable
        } else if value == 4 {
            DestinationUnreachable::FragmentationRequired
        } else if value == 5 {
            DestinationUnreachable::SourceRouteFailed
        } else if value == 6 {
            DestinationUnreachable::DestinationNetworkUnknown
        } else if value == 7 {
            DestinationUnreachable::DestinationHostUnknown
        } else if value == 8 {
            DestinationUnreachable::SourceHostIsolated
        } else if value == 9 {
            DestinationUnreachable::NetworkAdministrativelyProhibited
        } else if value == 10 {
            DestinationUnreachable::HostAdministrativelyProhibited
        } else if value == 11 {
            DestinationUnreachable::NetworkUnreachableForTos
        } else if value == 12 {
            DestinationUnreachable::HostUnreachableForTos
        } else if value == 13 {
            DestinationUnreachable::CommunicationAdministrativelyProhibited
        } else if value == 14 {
            DestinationUnreachable::HostPrecedenceViolation
        } else if value == 15 {
            DestinationUnreachable::PrecedentCutoffInEffect
        } else {
            DestinationUnreachable::Unknown(value)
        }
    }

    /// The number that stands for the value.
    pub open spec fn number(self) -> u8 {
        match self {
            DestinationUnreachable::DestinationNetworkUnreachable => 0,
            DestinationUnreachable::DestinationHostUnreachable => 1,
            DestinationUnreachable::DestinationProtocolUnreachable => 2,
            DestinationUnreachable::DestinationPortUnreachable => 3,
            DestinationUnreachable::FragmentationRequired => 4,
            DestinationUnreachable::SourceRouteFailed => 5,
            DestinationUnreachable::DestinationNetworkUnknown => 6,
            DestinationUnreachable::DestinationHostUnknown => 7,
            DestinationUnreachable::SourceHostIsolated => 8,
            DestinationUnreachable::NetworkAdministrativelyProhibited => 9,
            DestinationUnreachable::HostAdministrativelyProhibited => 10,
            DestinationUnreachable::NetworkUnreachableForTos => 11,
            DestinationUnreachable::HostUnreachableForTos => 12,
            DestinationUnreachable::CommunicationAdministrativelyProhibited => 13,
            DestinationUnreachable::HostPrecedenceViolation => 14,
            DestinationUnreachable::PrecedentCutoffInEffect => 15,
            DestinationUnreachable::Unknown(n) => n,
        }
    }

    /// The value that the number `value` stands for.
    pub fn from_number(value: u8) -> (r: DestinationUnreachable)
        ensures
            r == DestinationUnreachable::of(value),
    {
        match value {
            0 => DestinationUnreachable::DestinationNetworkUnreachable,
            1 => DestinationUnreachable::DestinationHostUnreachable,
            2 => DestinationUnreachable::DestinationProtocolUnreachable,
            3 => DestinationUnreachable::DestinationPortUnreachable,
            4 => DestinationUnreachable::FragmentationRequired,
            5 => DestinationUnreachable::SourceRouteFailed,
            6 => DestinationUnreachable::DestinationNetworkUnknown,
            7 => DestinationUnreachable::DestinationHostUnknown,
            8 => DestinationUnreachable::SourceHostIsolated,
            9 => DestinationUnreachable::NetworkAdministrativelyProhibited,
            10 => DestinationUnreachable::HostAdministrativelyProhibited,
            11 => DestinationUnreachable::NetworkUnreachableForTos,
            12 => DestinationUnreachable::HostUnreachableForTos,
            13 => DestinationUnreachable::CommunicationAdministrativelyProhibited,
            14 => DestinationUnreachable::HostPrecedenceViolation,
            15 => DestinationUnreachable::PrecedentCutoffInEffect,
            n => DestinationUnreachable::Unknown(n),
        }
    }

    /// The number that stands for the value.
    pub fn into_number(self) -> (r: u8)
        ensures
            r == self.number(),
    {
        match self {
            DestinationUnreachable::DestinationNetworkUnreachable => 0,
            DestinationUnreachable::DestinationHostUnreachable => 1,
            DestinationUnreachable::DestinationProtocolUnreachable => 2,
            DestinationUnreachable::DestinationPortUnreachable => 3,
            DestinationUnreachable::FragmentationRequired => 4,
            DestinationUnreachable::SourceRouteFailed => 5,
            DestinationUnreachable::DestinationNetworkUnknown => 6,
            DestinationUnreachable::DestinationHostUnknown => 7,
            DestinationUnreachable::SourceHostIsolated => 8,
            DestinationUnreachable::NetworkAdministrativelyProhibited => 9,
            DestinationUnreachable::HostAdministrativelyProhibited => 10,
            DestinationUnreachable::NetworkUnreachableForTos => 11,
            DestinationUnreachable::HostUnreachableForTos => 12,
            DestinationUnreachable::CommunicationAdministrativelyProhibited => 13,
            DestinationUnreachable::HostPrecedenceViolation => 14,
            DestinationUnreachable::PrecedentCutoffInEffect => 15,
            DestinationUnreachable::Unknown(n) => n,
        }
    }
}

impl From<u8> for DestinationUnreachable {
    fn from(value: u8) -> (r: DestinationUnreachable) {
        DestinationUnreachable::from_number(value)
    }
}

impl FromSpecImpl<u8> for DestinationUnreachable {
    open spec fn obeys_from_spec() -> bool {
        true
    }

    open spec fn from_spec(value: u8) -> DestinationUnreachable {
        DestinationUnreachable::of(value)
    }
}

impl From<DestinationUnreachable> for u8 {
    fn from(value: DestinationUnreachable) -> (r: u8) {
        value.into_number()
    }
}

impl FromSpecImpl<DestinationUnreachable> for u8 {
    open spec fn obeys_from_spec() -> bool {
        true
    }

    open spec fn from_spec(value: DestinationUnreachable) -> u8 {
        value.number()
    }
}

impl DestinationUnreachable {
    /// Every number is the number of the value that it stands for.
    pub proof fn lemma_number_round_trip(value: u8)
        ensures
            DestinationUnreachable::of(value).number() == value,
    {
    }
}


/// Codes for Redirect Message packets.
#[derive(Eq, PartialEq, Copy, Clone, Debug, Structural)]
pub enum RedirectMessage {
    /// Redirect datagram for network.
    RedirectDatagramForNetwork,
    /// Redirect datagram for host.
    RedirectDatagramForHost,
    /// Redirect datagram for type of service and network.
    RedirectDatagramForTosAndNetwork,
    /// Redirect datagram for type of service and host.
    RedirectDatagramForTosAndHost,
    /// Any other number.
    Unknown(u8),
}

impl RedirectMessage {
    /// The value that the number `value` stands for.
    pub open spec fn of(value: u8) -> RedirectMessage {
        if value == 0 {
            RedirectMessage::RedirectDatagramForNetwork
        } else if value == 1 {
            RedirectMessage::RedirectDatagramForHost
        } else if value == 2 {
            RedirectMessage::RedirectDatagramForTosAndNetwork
        } else if value == 3 {
            RedirectMessage::RedirectDatagramForTosAndHost
        } else {
            RedirectMessage::Unknown(value)
        }
    }

    /// The number that stands for the value.
    pub open spec fn number(self) -> u8 {
        match self {
            RedirectMessage::RedirectDatagramForNetwork => 0,
            RedirectMessage::RedirectDatagramForHost => 1,
            RedirectMessage::RedirectDatagramForTosAndNetwork => 2,
            RedirectMessage::RedirectDatagramForTosAndHost => 3,
            RedirectMessage::Unknown(n) => n,
        }
    }

    /// The value that the number `value` stands for.
    pub fn from_number(value: u8) -> (r: RedirectMessage)
        ensures
            r == RedirectMessage::of(value),
    {
        match value {
            0 => RedirectMessage::RedirectDatagramForNetwork,
            1 => RedirectMessage::RedirectDatagramForHost,
            2 => RedirectMessage::RedirectDatagramForTosAndNetwork,
            3 => RedirectMessage::RedirectDatagramForTosAndHost,
            n => RedirectMessage::Unknown(n),
        }
    }

    /// The number that stands for the value.
    pub fn into_number(self) -> (r: u8)
        ensures
            r == self.number(),
    {
        match self {
            RedirectMessage::RedirectDatagramForNetwork => 0,
            RedirectMessage::RedirectDatagramForHost => 1,
            RedirectMessage::RedirectDatagramForTosAndNetwork => 2,
            RedirectMessage::RedirectDatagramForTosAndHost => 3,
            RedirectMessage::Unknown(n) => n,
        }
    }
}

impl From<u8> for RedirectMessage {
    fn from(value: u8) -> (r: RedirectMessage) {
        RedirectMessage::from_number(value)
    }
}

impl FromSpecImpl<u8> for RedirectMessage {
    open spec fn obeys_from_spec() -> bool {
        true
    }

    open spec fn from_spec(value: u8) -> RedirectMessage {
        RedirectMessage::of(value)
    }
}

impl From<RedirectMessage> for u8 {
    fn from(value: RedirectMessage) -> (r: u8) {
        value.into_number()
    }
}

impl FromSpecImpl<RedirectMessage> for u8 {
    open spec fn obeys_from_spec() -> bool {
        true
    }

    open spec fn from_spec(value: RedirectMessage) -> u8 {
        value.number()
    }
}

impl RedirectMessage {
    /// Every number is the number of the value that it stands for.
    pub proof fn lemma_number_round_trip(value: u8)
        ensures
            RedirectMessage::of(value).number() == value,
    {
    }
}


/// Codes for Parameter Problem packets.
#[derive(Eq, PartialEq, Copy, Clone, Debug, Structural)]
pub enum ParameterProblem {
    /// Pointer indicates error.
    PointerIndicatesError,
    /// Missing required data.
    MissingRequiredData,
    /// Bad length.
    BadLength,
    /// Any other number.
    Unknown(u8),
}

impl ParameterProblem {
    /// The value that the number `value` stands for.
    pub open spec fn of(value: u8) -> ParameterProblem {
        if value == 0 {
            ParameterProblem::PointerIndicatesError
        } else if value == 1 {
            ParameterProblem::MissingRequiredData
        } else if value == 2 {
            ParameterProblem::BadLength
        } else {
            ParameterProblem::Unknown(value)
        }
    }

    /// The number that stands for the value.
    pub open spec fn number(self) -> u8 {
        match self {
            ParameterProblem::PointerIndicatesError => 0,
            ParameterProblem::MissingRequiredData => 1,
            ParameterProblem::BadLength => 2,
            ParameterProblem::Unknown(n) => n,
        }
    }

    /// The value that the number `value` stands for.
    pub fn from_number(value: u8) -> (r: ParameterProblem)
        ensures
            r == ParameterProblem::of(value),
    {
        match value {
            0 => ParameterProblem::PointerIndicatesError,
            1 => ParameterProblem::MissingRequiredData,
            2 => ParameterProblem::BadLength,
            n => ParameterProblem::Unknown(n),
        }
    }

    /// The number that stands for the value.
    pub fn into_number(self) -> (r: u8)
        ensures
            r == self.number(),
    {
        match self {
            ParameterProblem::PointerIndicatesError => 0,
            ParameterProblem::MissingRequiredData => 1,
            ParameterProblem::BadLength => 2,
            ParameterProblem::Unknown(n) => n,
        }
    }
}

impl From<u8> for ParameterProblem {
    fn from(value: u8) -> (r: ParameterProblem) {
        ParameterProblem::from_number(value)
    }
}

impl FromSpecImpl<u8> for ParameterProblem {
    open spec fn obeys_from_spec() -> bool {
        true
    }

    open spec fn from_spec(value: u8) -> ParameterProblem {
        ParameterProblem::of(value)
    }
}

impl From<ParameterProblem> for u8 {
    fn from(value: ParameterProblem) -> (r: u8) {
        value.into_number()
    }
}

impl FromSpecImpl<ParameterProblem> for u8 {
    open spec fn obeys_from_spec() -> bool {
        true
    }

    open spec fn from_spec(value: ParameterProblem) -> u8 {
        value.number()
    }
}

impl ParameterProblem {
    /// Every number is the number of the value that it stands for.
    pub proof fn lemma_number_round_trip(value: u8)
        ensures
            ParameterProblem::of(value).number() == value,
    {
    }
}

} // verus!
