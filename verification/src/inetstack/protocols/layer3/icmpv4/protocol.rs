//! The messages of the Internet Control Message Protocol (RFC 792, RFC 1256).

use crate::inetstack::protocols::{be16, be16_bytes, decode_be16, high_byte, lemma_be16, low_byte};
use crate::runtime::errno::{ebadmsg, EBADMSG};
use crate::runtime::fail::{fail_view, Fail};
use vstd::prelude::*;

verus! {

/// Size of the payload of an echo request (in bytes).
pub const ICMPV4_ECHO_REQUEST_MESSAGE_SIZE: u16 = 4;

/// Type of an ICMPv4 message, with what its header says besides.
#[derive(Clone, Copy, Debug, PartialEq, Eq, Structural)]
pub enum Icmpv4Type2 {
    EchoReply { id: u16, seq_num: u16 },
    DestinationUnreachable,
    SourceQuench,
    RedirectMessage,
    EchoRequest { id: u16, seq_num: u16 },
    RouterAdvertisement,
    RouterSolicitation,
    TimeExceeded,
    BadIpHeader,
    Timestamp,
    TimestampReply,
}

impl Icmpv4Type2 {
    /// The number that stands for the type in a header.
    pub open spec fn type_number(self) -> u8 {
        match self {
            Icmpv4Type2::EchoReply { .. } => 0,
            Icmpv4Type2::DestinationUnreachable => 3,
            Icmpv4Type2::SourceQuench => 4,
            Icmpv4Type2::RedirectMessage => 5,
            Icmpv4Type2::EchoRequest { .. } => 8,
            Icmpv4Type2::RouterAdvertisement => 9,
            Icmpv4Type2::RouterSolicitation => 10,
            Icmpv4Type2::TimeExceeded => 11,
            Icmpv4Type2::BadIpHeader => 12,
            Icmpv4Type2::Timestamp => 13,
            Icmpv4Type2::TimestampReply => 14,
        }
    }

    /// The last four bytes of the header: identifier and sequence number of an echo message, zero in others.
    pub open spec fn rest_of_header(self) -> Seq<u8> {
        match self {
            Icmpv4Type2::EchoReply { id, seq_num } => be16_bytes(id) + be16_bytes(seq_num),
            Icmpv4Type2::EchoRequest { id, seq_num } => be16_bytes(id) + be16_bytes(seq_num),
            _ => seq![0u8, 0u8, 0u8, 0u8],
        }
    }

    /// The message type with number `number` whose header ends in the four bytes `rest`.
    pub open spec fn decode(number: u8, rest: Seq<u8>) -> Option<Icmpv4Type2> {
        let id = be16(rest[0], rest[1]);
        let seq_num = be16(rest[2], rest[3]);
        if number == 0 {
            Some(Icmpv4Type2::EchoReply { id, seq_num })
        } else if number == 3 {
            Some(Icmpv4Type2::DestinationUnreachable)
        } else if number == 4 {
            Some(Icmpv4Type2::SourceQuench)
        } else if number == 5 {
            Some(Icmpv4Type2::RedirectMessage)
        } else if number == 8 {
            Some(Icmpv4Type2::EchoRequest { id, seq_num })
        } else if number == 9 {
            Some(Icmpv4Type2::RouterAdvertisement)
        } else if number == 10 {
            Some(Icmpv4Type2::RouterSolicitation)
        } else if number == 11 {
            Some(Icmpv4Type2::TimeExceeded)
        } else if number == 12 {
            Some(Icmpv4Type2::BadIpHeader)
        } else if number == 13 {
            Some(Icmpv4Type2::Timestamp)
        } else if number == 14 {
            Some(Icmpv4Type2::TimestampReply)
        } else {
            None
        }
    }

    /// Reads a message type from its number and the last four bytes of its header.
    pub fn parse(type_byte: u8, rest: &[u8; 4]) -> (result: Result<Icmpv4Type2, Fail>)
        ensures
            match result {
                Ok(icmpv4_type) => Self::decode(type_byte, rest@) == Some(icmpv4_type),
                Err(fail) => {
                    &&& Self::decode(type_byte, rest@) is None
                    &&& fail@ == fail_view(EBADMSG, "Invalid type byte"@)
                },
            },
    {
        let id: u16 = decode_be16(rest[0], rest[1]);
        let seq_num: u16 = decode_be16(rest[2], rest[3]);
        if type_byte == 0 {
            Ok(Icmpv4Type2::EchoReply { id, seq_num })
        } else if type_byte == 3 {
            Ok(Icmpv4Type2::DestinationUnreachable)
        } else if type_byte == 4 {
            Ok(Icmpv4Type2::SourceQuench)
        } else if type_byte == 5 {
            Ok(Icmpv4Type2::RedirectMessage)
        } else if type_byte == 8 {
            Ok(Icmpv4Type2::EchoRequest { id, seq_num })
        } else if type_byte == 9 {
            Ok(Icmpv4Type2::RouterAdvertisement)
        } else if type_byte == 10 {
            Ok(Icmpv4Type2::RouterSolicitation)
        } else if type_byte == 11 {
            Ok(Icmpv4Type2::TimeExceeded)
        } else if type_byte == 12 {
            Ok(Icmpv4Type2::BadIpHeader)
        } else if type_byte == 13 {
            Ok(Icmpv4Type2::Timestamp)
        } else if type_byte == 14 {
            Ok(Icmpv4Type2::TimestampReply)
        } else {
            Err(Fail::new(ebadmsg(), "Invalid type byte"))
        }
    }

    /// The number of the type, and the last four bytes of the header.
    pub fn serialize(&self) -> (bytes: (u8, [u8; 4]))
        ensures
            bytes.0 == self.type_number(),
            bytes.1@ == self.rest_of_header(),
    {
        let (number, id, seq_num): (u8, u16, u16) = match self {
            Icmpv4Type2::EchoReply { id, seq_num } => (0, *id, *seq_num),
            Icmpv4Type2::DestinationUnreachable => (3, 0, 0),
            Icmpv4Type2::SourceQuench => (4, 0, 0),
            Icmpv4Type2::RedirectMessage => (5, 0, 0),
            Icmpv4Type2::EchoRequest { id, seq_num } => (8, *id, *seq_num),
            Icmpv4Type2::RouterAdvertisement => (9, 0, 0),
            Icmpv4Type2::RouterSolicitation => (10, 0, 0),
            Icmpv4Type2::TimeExceeded => (11, 0, 0),
            Icmpv4Type2::BadIpHeader => (12, 0, 0),
            Icmpv4Type2::Timestamp => (13, 0, 0),
            Icmpv4Type2::TimestampReply => (14, 0, 0),
        };
        let rest: [u8; 4] = [high_byte(id), low_byte(id), high_byte(seq_num), low_byte(seq_num)];
        assert(rest@ =~= self.rest_of_header());
        (number, rest)
    }
}

/// Reading a message type gives back the one that was written.
pub proof fn law_decode_undoes_serialize(icmpv4_type: Icmpv4Type2)
    ensures
        Icmpv4Type2::decode(icmpv4_type.type_number(), icmpv4_type.rest_of_header()) == Some(icmpv4_type),
{
    match icmpv4_type {
        Icmpv4Type2::EchoReply { id, seq_num } => {
            lemma_be16(id, 0, 0);
            lemma_be16(seq_num, 0, 0);
        },
        Icmpv4Type2::EchoRequest { id, seq_num } => {
            lemma_be16(id, 0, 0);
            lemma_be16(seq_num, 0, 0);
        },
        _ => {},
    }
}

} // verus!
