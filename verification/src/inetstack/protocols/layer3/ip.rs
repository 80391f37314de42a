//! Protocol numbers.

use crate::runtime::errno::{enotsup, ENOTSUP};
use crate::runtime::fail::{fail_view, Fail};
use vstd::prelude::*;

verus! {

/// A protocol that IPv4 datagrams carry.
#[derive(Clone, Copy, Debug, PartialEq, Eq, Structural)]
pub enum IpProtocol {
    /// Internet Control Message Protocol.
    ICMPv4,
    /// Transmission Control Protocol.
    TCP,
    /// User Datagram Protocol.
    UDP,
}

impl IpProtocol {
    /// The number that stands for the protocol in a header.
    pub open spec fn spec_number(self) -> u8 {
        match self {
            IpProtocol::ICMPv4 => 1,
            IpProtocol::TCP => 6,
            IpProtocol::UDP => 17,
        }
    }

    /// The protocol that a number stands for.
    pub open spec fn from_number(number: u8) -> Option<IpProtocol> {
        if number == 1 {
            Some(IpProtocol::ICMPv4)
        } else if number == 6 {
            Some(IpProtocol::TCP)
        } else if number == 17 {
            Some(IpProtocol::UDP)
        } else {
            None
        }
    }

    /// The number that stands for the protocol in a header.
    pub fn number(&self) -> (number: u8)
        ensures
            number == self.spec_number(),
    {
        match self {
            IpProtocol::ICMPv4 => 1,
            IpProtocol::TCP => 6,
            IpProtocol::UDP => 17,
        }
    }

    /// The protocol that a number stands for; numbers of other protocols are refused.
    pub fn try_from(number: u8) -> (protocol: Result<IpProtocol, Fail>)
        ensures
            match protocol {
                Ok(protocol) => Self::from_number(number) == Some(protocol),
                Err(fail) => {
                    &&& Self::from_number(number) is None
                    &&& fail@ == fail_view(ENOTSUP, "unsupported protocol"@)
                },
            },
    {
        if number == 1 {
            Ok(IpProtocol::ICMPv4)
        } else if number == 6 {
            Ok(IpProtocol::TCP)
        } else if number == 17 {
            Ok(IpProtocol::UDP)
        } else {
            Err(Fail::new(enotsup(), "unsupported protocol"))
        }
    }
}

/// The assigned numbers of the protocols; each number stands for at most one.
pub proof fn law_protocol_numbers(number: u8)
    ensures
        IpProtocol::from_number(number) == Some(IpProtocol::ICMPv4) <==> number == 1,
        IpProtocol::from_number(number) == Some(IpProtocol::TCP) <==> number == 6,
        IpProtocol::from_number(number) == Some(IpProtocol::UDP) <==> number == 17,
        IpProtocol::from_number(number) matches Some(protocol) ==> protocol.spec_number() == number,
{
}

} // verus!
