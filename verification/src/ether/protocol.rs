use vstd::prelude::*;
use vstd::std_specs::convert::FromSpecImpl;

verus! {

/// Protocols that an Ethernet frame can carry, by the number in its header.
#[derive(Eq, PartialEq, Copy, Clone, Debug, Structural)]
pub enum Protocol {
    /// Internet Protocol version 4.
    Ipv4,
    /// Address Resolution Protocol.
    Arp,
    /// Wake-on-LAN.
    WakeOnLan,
    /// IETF TRILL.
    Trill,
    /// DECnet phase IV.
    DecNet,
    /// Reverse Address Resolution Protocol.
    Rarp,
    /// AppleTalk.
    AppleTalk,
    /// AppleTalk Address Resolution Protocol.
    Aarp,
    /// Internetwork Packet Exchange.
    Ipx,
    /// QNX Qnet.
    Qnx,
    /// Internet Protocol version 6.
    Ipv6,
    /// Ethernet flow control.
    FlowControl,
    /// CobraNet.
    CobraNet,
    /// MPLS unicast.
    Mpls,
    /// MPLS multicast.
    MplsMulticast,
    /// PPPoE discovery stage.
    PppoeDiscovery,
    /// PPPoE session stage.
    PppoeSession,
    /// VLAN-tagged frame.
    Vlan,
    /// Provider bridging.
    PBridge,
    /// Link Layer Discovery Protocol.
    Lldp,
    /// Precision Time Protocol.
    Ptp,
    /// Connectivity Fault Management.
    Cfm,
    /// VLAN-tagged frame with double tagging.
    QinQ,
    /// Any other number.
    Unknown(u16),
}

impl Protocol {
    /// The value that the number `value` stands for.
    pub open spec fn of(value: u16) -> Protocol {
        if value == 0x0800 {
            Protocol::Ipv4
        } else if value == 0x0806 {
            Protocol::Arp
        } else if value == 0x0842 {
            Protocol::WakeOnLan
        } else if value == 0x22f3 {
            Protocol::Trill
        } else if value == 0x6003 {
            Protocol::DecNet
        } else if value == 0x8035 {
            Protocol::Rarp
        } else if value == 0x809b {
            Protocol::AppleTalk
        } else if value == 0x80f3 {
            Protocol::Aarp
        } else if value == 0x8137 {
            Protocol::Ipx
        } else if value == 0x8204 {
            Protocol::Qnx
        } else if value == 0x86dd {
            Protocol::Ipv6
        } else if value == 0x8808 {
            Protocol::FlowControl
        } else if value == 0x8819 {
            Protocol::CobraNet
        } else if value == 0x8847 {
            Protocol::Mpls
        } else if value == 0x8848 {
            Protocol::MplsMulticast
        } else if value == 0x8863 {
            Protocol::PppoeDiscovery
        } else if value == 0x8864 {
            Protocol::PppoeSession
        } else if value == 0x8100 {
            Protocol::Vlan
        } else if value == 0x88a8 {
            Protocol::PBridge
        } else if value == 0x88cc {
            Protocol::Lldp
        } else if value == 0x88f7 {
            Protocol::Ptp
        } else if value == 0x8902 {
            Protocol::Cfm
        } else if value == 0x9100 {
            Protocol::QinQ
        } else {
            Protocol::Unknown(value)
        }
    }

    /// The number that stands for the value.
    pub open spec fn number(self) -> u16 {
        match self {
            Protocol::Ipv4 => 0x0800,
            Protocol::Arp => 0x0806,
            Protocol::WakeOnLan => 0x0842,
            Protocol::Trill => 0x22f3,
            Protocol::DecNet => 0x6003,
            Protocol::Rarp => 0x8035,
            Protocol::AppleTalk => 0x809b,
            Protocol::Aarp => 0x80f3,
            Protocol::Ipx => 0x8137,
            Protocol::Qnx => 0x8204,
            Protocol::Ipv6 => 0x86dd,
            Protocol::FlowControl => 0x8808,
            Protocol::CobraNet => 0x8819,
            Protocol::Mpls => 0x8847,
            Protocol::MplsMulticast => 0x8848,
            Protocol::PppoeDiscovery => 0x8863,
            Protocol::PppoeSession => 0x8864,
            Protocol::Vlan => 0x8100,
            Protocol::PBridge => 0x88a8,
            Protocol::Lldp => 0x88cc,
            Protocol::Ptp => 0x88f7,
            Protocol::Cfm => 0x8902,
            Protocol::QinQ => 0x9100,
            Protocol::Unknown(n) => n,
        }
    }

    /// The value that the number `value` stands for.
    pub fn from_number(value: u16) -> (r: Protocol)
        ensures
            r == Protocol::of(value),
    {
        match value {
            0x0800 => Protocol::Ipv4,
            0x0806 => Protocol::Arp,
            0x0842 => Protocol::WakeOnLan,
            0x22f3 => Protocol::Trill,
            0x6003 => Protocol::DecNet,
            0x8035 => Protocol::Rarp,
            0x809b => Protocol::AppleTalk,
            0x80f3 => Protocol::Aarp,
            0x8137 => Protocol::Ipx,
            0x8204 => Protocol::Qnx,
            0x86dd => Protocol::Ipv6,
            0x8808 => Protocol::FlowControl,
            0x8819 => Protocol::CobraNet,
            0x8847 => Protocol::Mpls,
            0x8848 => Protocol::MplsMulticast,
            0x8863 => Protocol::PppoeDiscovery,
            0x8864 => Protocol::PppoeSession,
            0x8100 => Protocol::Vlan,
            0x88a8 => Protocol::PBridge,
            0x88cc => Protocol::Lldp,
            0x88f7 => Protocol::Ptp,
            0x8902 => Protocol::Cfm,
            0x9100 => Protocol::QinQ,
            n => Protocol::Unknown(n),
        }
    }

    /// The number that stands for the value.
    pub fn into_number(self) -> (r: u16)
        ensures
            r == self.number(),
    {
        match self {
            Protocol::Ipv4 => 0x0800,
            Protocol::Arp => 0x0806,
            Protocol::WakeOnLan => 0x0842,
            Protocol::Trill => 0x22f3,
            Protocol::DecNet => 0x6003,
            Protocol::Rarp => 0x8035,
            Protocol::AppleTalk => 0x809b,
            Protocol::Aarp => 0x80f3,
            Protocol::Ipx => 0x8137,
            Protocol::Qnx => 0x8204,
            Protocol::Ipv6 => 0x86dd,
            Protocol::FlowControl => 0x8808,
            Protocol::CobraNet => 0x8819,
            Protocol::Mpls => 0x8847,
            Protocol::MplsMulticast => 0x8848,
            Protocol::PppoeDiscovery => 0x8863,
            Protocol::PppoeSession => 0x8864,
            Protocol::Vlan => 0x8100,
            Protocol::PBridge => 0x88a8,
            Protocol::Lldp => 0x88cc,
            Protocol::Ptp => 0x88f7,
            Protocol::Cfm => 0x8902,
            Protocol::QinQ => 0x9100,
            Protocol::Unknown(n) => n,
        }
    }
}

impl From<u16> for Protocol {
    fn from(value: u16) -> (r: Protocol) {
        Protocol::from_number(value)
    }
}

impl FromSpecImpl<u16> for Protocol {
    open spec fn obeys_from_spec() -> bool {
        true
    }

    open spec fn from_spec(value: u16) -> Protocol {
        Protocol::of(value)
    }
}

impl From<Protocol> for u16 {
    fn from(value: Protocol) -> (r: u16) {
        value.into_number()
    }
}

impl FromSpecImpl<Protocol> for u16 {
    open spec fn obeys_from_spec() -> bool {
        true
    }

    open spec fn from_spec(value: Protocol) -> u16 {
        value.number()
    }
}

impl Protocol {
    /// Every number is the number of the value that it stands for.
    pub proof fn lemma_number_round_trip(value: u16)
        ensures
            Protocol::of(value).number() == value,
    {
    }
}

} // verus!
