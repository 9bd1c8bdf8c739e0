use vstd::prelude::*;
use vstd::std_specs::convert::FromSpecImpl;

verus! {

/// Protocols that an IP packet can carry, by the number in its header.
#[derive(Eq, PartialEq, Copy, Clone, Debug, Structural)]
pub enum Protocol {
    /// IPv6 hop-by-hop option.
    Hopopt,
    /// Internet Control Message Protocol.
    Icmp,
    /// Internet Group Management Protocol.
    Igmp,
    /// Gateway-to-Gateway Protocol.
    Ggp,
    /// IPv4 encapsulation.
    Ipv4,
    /// Internet Stream Protocol.
    St,
    /// Transmission Control Protocol.
    Tcp,
    /// Core-based trees.
    Cbt,
    /// Exterior Gateway Protocol.
    Egp,
    /// Interior Gateway Protocol.
    Igp,
    /// User Datagram Protocol.
    Udp,
    /// Reliable Data Protocol.
    Rdp,
    /// Datagram Congestion Control Protocol.
    Dccp,
    /// IPv6 encapsulation.
    Ipv6,
    /// Routing header for IPv6.
    Ipv6Route,
    /// Fragment header for IPv6.
    Ipv6Frag,
    /// Resource Reservation Protocol.
    Rsvp,
    /// Generic Routing Encapsulation.
    Gre,
    /// Encapsulating Security Payload.
    Esp,
    /// Authentication Header.
    Ah,
    /// ICMP for IPv6.
    Ipv6Icmp,
    /// No next header for IPv6.
    Ipv6NoNxt,
    /// Destination options for IPv6.
    Ipv6Opts,
    /// Enhanced Interior Gateway Routing Protocol.
    Eigrp,
    /// Open Shortest Path First.
    Ospf,
    /// Protocol Independent Multicast.
    Pim,
    /// Virtual Router Redundancy Protocol.
    Vrrp,
    /// Layer Two Tunneling Protocol.
    L2tp,
    /// Stream Control Transmission Protocol.
    Sctp,
    /// Lightweight User Datagram Protocol.
    UdpLite,
    /// MPLS in IP.
    MplsInIp,
    /// Any other number.
    Unknown(u8),
}

impl Protocol {
    /// The value that the number `value` stands for.
    pub open spec fn of(value: u8) -> Protocol {
        if value == 0 {
            Protocol::Hopopt
        } else if value == 1 {
            Protocol::Icmp
        } else if value == 2 {
            Protocol::Igmp
        } else if value == 3 {
            Protocol::Ggp
        } else if value == 4 {
            Protocol::Ipv4
        } else if value == 5 {
            Protocol::St
        } else if value == 6 {
            Protocol::Tcp
        } else if value == 7 {
            Protocol::Cbt
        } else if value == 8 {
            Protocol::Egp
        } else if value == 9 {
            Protocol::Igp
        } else if value == 17 {
            Protocol::Udp
        } else if value == 27 {
            Protocol::Rdp
        } else if value == 33 {
            Protocol::Dccp
        } else if value == 41 {
            Protocol::Ipv6
        } else if value == 43 {
            Protocol::Ipv6Route
        } else if value == 44 {
            Protocol::Ipv6Frag
        } else if value == 46 {
            Protocol::Rsvp
        } else if value == 47 {
            Protocol::Gre
        } else if value == 50 {
            Protocol::Esp
        } else if value == 51 {
            Protocol::Ah
        } else if value == 58 {
            Protocol::Ipv6Icmp
        } else if value == 59 {
            Protocol::Ipv6NoNxt
        } else if value == 60 {
            Protocol::Ipv6Opts
        } else if value == 88 {
            Protocol::Eigrp
        } else if value == 89 {
            Protocol::Ospf
        } else if value == 103 {
            Protocol::Pim
        } else if value == 112 {
            Protocol::Vrrp
        } else if value == 115 {
            Protocol::L2tp
        } else if value == 132 {
            Protocol::Sctp
        } else if value == 136 {
            Protocol::UdpLite
        } else if value == 137 {
            Protocol::MplsInIp
        } else {
            Protocol::Unknown(value)
        }
    }

    /// The number that stands for the value.
    pub open spec fn number(self) -> u8 {
        match self {
            Protocol::Hopopt => 0,
            Protocol::Icmp => 1,
            Protocol::Igmp => 2,
            Protocol::Ggp => 3,
            Protocol::Ipv4 => 4,
            Protocol::St => 5,
            Protocol::Tcp => 6,
            Protocol::Cbt => 7,
            Protocol::Egp => 8,
            Protocol::Igp => 9,
            Protocol::Udp => 17,
            Protocol::Rdp => 27,
            Protocol::Dccp => 33,
            Protocol::Ipv6 => 41,
            Protocol::Ipv6Route => 43,
            Protocol::Ipv6Frag => 44,
            Protocol::Rsvp => 46,
            Protocol::Gre => 47,
            Protocol::Esp => 50,
            Protocol::Ah => 51,
            Protocol::Ipv6Icmp => 58,
            Protocol::Ipv6NoNxt => 59,
            Protocol::Ipv6Opts => 60,
            Protocol::Eigrp => 88,
            Protocol::Ospf => 89,
            Protocol::Pim => 103,
            Protocol::Vrrp => 112,
            Protocol::L2tp => 115,
            Protocol::Sctp => 132,
            Protocol::UdpLite => 136,
            Protocol::MplsInIp => 137,
            Protocol::Unknown(n) => n,
        }
    }

    /// The value that the number `value` stands for.
    pub fn from_number(value: u8) -> (r: Protocol)
        ensures
            r == Protocol::of(value),
    {
        match value {
            0 => Protocol::Hopopt,
            1 => Protocol::Icmp,
            2 => Protocol::Igmp,
            3 => Protocol::Ggp,
            4 => Protocol::Ipv4,
            5 => Protocol::St,
            6 => Protocol::Tcp,
            7 => Protocol::Cbt,
            8 => Protocol::Egp,
            9 => Protocol::Igp,
            17 => Protocol::Udp,
            27 => Protocol::Rdp,
            33 => Protocol::Dccp,
            41 => Protocol::Ipv6,
            43 => Protocol::Ipv6Route,
            44 => Protocol::Ipv6Frag,
            46 => Protocol::Rsvp,
            47 => Protocol::Gre,
            50 => Protocol::Esp,
            51 => Protocol::Ah,
            58 => Protocol::Ipv6Icmp,
            59 => Protocol::Ipv6NoNxt,
            60 => Protocol::Ipv6Opts,
            88 => Protocol::Eigrp,
            89 => Protocol::Ospf,
            103 => Protocol::Pim,
            112 => Protocol::Vrrp,
            115 => Protocol::L2tp,
            132 => Protocol::Sctp,
            136 => Protocol::UdpLite,
            137 => Protocol::MplsInIp,
            n => Protocol::Unknown(n),
        }
    }

    /// The number that stands for the value.
    pub fn into_number(self) -> (r: u8)
        ensures
            r == self.number(),
    {
        match self {
            Protocol::Hopopt => 0,
            Protocol::Icmp => 1,
            Protocol::Igmp => 2,
            Protocol::Ggp => 3,
            Protocol::Ipv4 => 4,
            Protocol::St => 5,
            Protocol::Tcp => 6,
            Protocol::Cbt => 7,
            Protocol::Egp => 8,
            Protocol::Igp => 9,
            Protocol::Udp => 17,
            Protocol::Rdp => 27,
            Protocol::Dccp => 33,
            Protocol::Ipv6 => 41,
            Protocol::Ipv6Route => 43,
            Protocol::Ipv6Frag => 44,
            Protocol::Rsvp => 46,
            Protocol::Gre => 47,
            Protocol::Esp => 50,
            Protocol::Ah => 51,
            Protocol::Ipv6Icmp => 58,
            Protocol::Ipv6NoNxt => 59,
            Protocol::Ipv6Opts => 60,
            Protocol::Eigrp => 88,
            Protocol::Ospf => 89,
            Protocol::Pim => 103,
            Protocol::Vrrp => 112,
            Protocol::L2tp => 115,
            Protocol::Sctp => 132,
            Protocol::UdpLite => 136,
            Protocol::MplsInIp => 137,
            Protocol::Unknown(n) => n,
        }
    }
}

impl From<u8> for Protocol {
    fn from(value: u8) -> (r: Protocol) {
        Protocol::from_number(value)
    }
}

impl FromSpecImpl<u8> for Protocol {
    open spec fn obeys_from_spec() -> bool {
        true
    }

    open spec fn from_spec(value: u8) -> Protocol {
        Protocol::of(value)
    }
}

impl From<Protocol> for u8 {
    fn from(value: Protocol) -> (r: u8) {
        value.into_number()
    }
}

impl FromSpecImpl<Protocol> for u8 {
    open spec fn obeys_from_spec() -> bool {
        true
    }

    open spec fn from_spec(value: Protocol) -> u8 {
        value.number()
    }
}

impl Protocol {
    /// Every number is the number of the value that it stands for.
    pub proof fn lemma_number_round_trip(value: u8)
        ensures
            Protocol::of(value).number() == value,
    {
    }
}

} // verus!
