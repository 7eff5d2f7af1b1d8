//! The protocol numbers that an IPv4 header can name.

use vstd::prelude::*;
use vstd::std_specs::convert::FromSpecImpl;

verus! {

/// The protocol carried in the payload of an IP packet.
#[derive(Debug, PartialEq, Eq, Structural, PartialOrd, Ord, Clone, Copy)]
pub enum IpProtocol {
    ICMP,
    TCP,
    UDP,
    Unknown,
}

impl IpProtocol {
    /// The protocol that the wire value `code` stands for.
    pub open spec fn of(code: u8) -> IpProtocol {
        if code == 1 {
            IpProtocol::ICMP
        } else if code == 6 {
            IpProtocol::TCP
        } else if code == 17 {
            IpProtocol::UDP
        } else {
            IpProtocol::Unknown
        }
    }

    /// The wire value that is written for this protocol.
    pub open spec fn code(self) -> u8 {
        match self {
            IpProtocol::ICMP => 1,
            IpProtocol::TCP => 6,
            IpProtocol::UDP => 17,
            IpProtocol::Unknown => 0,
        }
    }

    /// Writing a protocol and reading the value back gives the same
    /// protocol.
    pub proof fn lemma_code_roundtrip(p: IpProtocol)
        ensures
            IpProtocol::of(p.code()) == p,
    {
    }
}

impl From<u8> for IpProtocol {
    fn from(p: u8) -> (r: IpProtocol) {
        match p {
            1 => IpProtocol::ICMP,
            6 => IpProtocol::TCP,
            17 => IpProtocol::UDP,
            _ => IpProtocol::Unknown,
        }
    }
}

impl FromSpecImpl<u8> for IpProtocol {
    open spec fn obeys_from_spec() -> bool {
        true
    }

    open spec fn from_spec(p: u8) -> IpProtocol {
        IpProtocol::of(p)
    }
}

impl From<IpProtocol> for u8 {
    fn from(p: IpProtocol) -> (r: u8) {
        match p {
            IpProtocol::ICMP => 1,
            IpProtocol::TCP => 6,
            IpProtocol::UDP => 17,
            IpProtocol::Unknown => 0,
        }
    }
}

impl FromSpecImpl<IpProtocol> for u8 {
    open spec fn obeys_from_spec() -> bool {
        true
    }

    open spec fn from_spec(p: IpProtocol) -> u8 {
        p.code()
    }
}

} // verus!
