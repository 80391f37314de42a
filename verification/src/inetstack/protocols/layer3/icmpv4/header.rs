//! The ICMPv4 message header.

use crate::inetstack::protocols::layer3::icmpv4::protocol::{law_decode_undoes_serialize, Icmpv4Type2};
use crate::inetstack::protocols::{
    be16_bytes, compute_generic_checksum, fold16, high_byte, lemma_be16, lemma_word_sum_bound, low_byte,
    ones_complement, word_sum,
};
use crate::runtime::errno::{ebadmsg, EBADMSG};
use crate::runtime::fail::{fail_view, Fail, FailView};
use crate::runtime::memory::{BufferView, DemiBuffer};
use vstd::prelude::*;
use vstd::slice::slice_subrange;

verus! {

/// Size of ICMPv4 headers (in bytes).
pub const ICMPV4_HEADER_SIZE: usize = 8;

/// ICMPv4 message header.
#[derive(Clone, Copy, Debug, PartialEq, Eq, Structural)]
pub struct Icmpv4Header {
    /// Type of the message.
    pub protocol: Icmpv4Type2,
    /// Subtype of the message.
    pub code: u8,
}

/// The running sum over a header and the message behind it.
pub open spec fn message_sum(header: Seq<u8>, body: Seq<u8>) -> nat {
    0xffff + word_sum(header) + word_sum(body)
}

/// The checksum over a header and the message behind it. It is zero if the header holds its right checksum.
pub open spec fn message_checksum(header: Seq<u8>, body: Seq<u8>) -> u16 {
    (0xffff - ones_complement(message_sum(header, body))) as u16
}

/// Why `message` is not accepted, if it is not: the first of these reasons that applies.
pub open spec fn parse_error(message: Seq<u8>) -> Option<FailView> {
    if message.len() < ICMPV4_HEADER_SIZE {
        Some(fail_view(EBADMSG, "ICMPv4 datagram too small for header"@))
    } else if message_checksum(message.take(8), message.skip(8)) != 0 {
        Some(fail_view(EBADMSG, "ICMPv4 checksum mismatch"@))
    } else if Icmpv4Type2::decode(message[0], message.subrange(4, 8)) is None {
        Some(fail_view(EBADMSG, "Invalid type byte"@))
    } else {
        None
    }
}

/// The header at the front of an acceptable `message`.
pub open spec fn parsed_header(message: Seq<u8>) -> Icmpv4Header {
    Icmpv4Header {
        protocol: Icmpv4Type2::decode(message[0], message.subrange(4, 8))->0,
        code: message[1],
    }
}

impl Icmpv4Header {
    /// The eight bytes of the header, with the checksum field set to `checksum`.
    pub open spec fn wire_bytes(self, checksum: u16) -> Seq<u8> {
        seq![self.protocol.type_number(), self.code] + be16_bytes(checksum) + self.protocol.rest_of_header()
    }

    /// The bytes that the header puts in front of `body`.
    pub open spec fn wire_header(self, body: Seq<u8>) -> Seq<u8> {
        self.wire_bytes(message_checksum(self.wire_bytes(0), body))
    }

    /// Creates a header.
    pub fn new(icmpv4_type: Icmpv4Type2, code: u8) -> (header: Icmpv4Header)
        ensures
            header == (Icmpv4Header { protocol: icmpv4_type, code }),
    {
        Icmpv4Header { protocol: icmpv4_type, code }
    }

    /// Parses the header at the front of the packet in `buffer` and strips it off. A packet that is not acceptable
    /// stays as it is.
    pub fn parse_and_strip(buffer: &mut DemiBuffer) -> (result: Result<Icmpv4Header, Fail>)
        ensures
            match result {
                Ok(header) => {
                    &&& parse_error(old(buffer)@.data) is None
                    &&& header == parsed_header(old(buffer)@.data)
                    &&& final(buffer)@ == old(buffer)@.adjust(8)
                },
                Err(fail) => {
                    &&& parse_error(old(buffer)@.data) == Some(fail@)
                    &&& final(buffer)@ == old(buffer)@
                },
            },
    {
        let ghost message = buffer@.data;
        let len: usize = buffer.len();
        if len < ICMPV4_HEADER_SIZE {
            return Err(Fail::new(ebadmsg(), "ICMPv4 datagram too small for header"));
        }
        let header = slice_subrange(buffer.as_slice(), 0, ICMPV4_HEADER_SIZE);
        let body = slice_subrange(buffer.as_slice(), ICMPV4_HEADER_SIZE, len);
        proof {
            assert(header@ =~= message.take(8));
            assert(body@ =~= message.skip(8));
            lemma_word_sum_bound(header@);
            lemma_word_sum_bound(body@);
        }
        if Self::compute_checksum(header, body) != 0 {
            return Err(Fail::new(ebadmsg(), "ICMPv4 checksum mismatch"));
        }
        let type_byte: u8 = header[0];
        let code: u8 = header[1];
        let rest: [u8; 4] = [header[4], header[5], header[6], header[7]];
        assert(rest@ =~= message.subrange(4, 8));
        let icmpv4_type = match Icmpv4Type2::parse(type_byte, &rest) {
            Ok(icmpv4_type) => icmpv4_type,
            Err(fail) => return Err(fail),
        };
        match buffer.adjust(ICMPV4_HEADER_SIZE) {
            Ok(_) => {},
            Err(fail) => return Err(fail),
        }
        Ok(Icmpv4Header { protocol: icmpv4_type, code })
    }

    /// Writes the header, with its checksum, in front of the packet in `buffer`. The buffer must have the headroom.
    pub fn serialize_and_attach(&self, buffer: &mut DemiBuffer)
        requires
            old(buffer)@.head.len() >= ICMPV4_HEADER_SIZE,
        ensures
            final(buffer)@ == old(buffer)@.attach(self.wire_header(old(buffer)@.data)),
    {
        let (type_byte, rest): (u8, [u8; 4]) = self.protocol.serialize();
        // The checksum counts as zero until the rest of the header is written.
        let mut header: [u8; 8] = [type_byte, self.code, 0, 0, rest[0], rest[1], rest[2], rest[3]];
        proof {
            assert(header@ =~= self.wire_bytes(0));
            lemma_word_sum_bound(header@);
            lemma_word_sum_bound(buffer@.data);
        }
        let checksum: u16 = Self::compute_checksum(header.as_slice(), buffer.as_slice());
        header[2] = high_byte(checksum);
        header[3] = low_byte(checksum);
        assert(header@ =~= self.wire_header(buffer@.data));
        buffer.attach(header.as_slice());
    }

    /// The checksum over a header and the message behind it.
    pub fn compute_checksum(buffer: &[u8], body: &[u8]) -> (checksum: u16)
        requires
            message_sum(buffer@, body@) <= u32::MAX,
        ensures
            checksum == message_checksum(buffer@, body@),
    {
        let header_sum: u32 = compute_generic_checksum(buffer, None);
        fold16(compute_generic_checksum(body, Some(header_sum)))
    }

    /// Type of the message.
    pub fn get_protocol(&self) -> (protocol: Icmpv4Type2)
        ensures
            protocol == self.protocol,
    {
        self.protocol
    }
}

/// A message with its checksum in place passes the check: the sum comes out as all ones.
proof fn lemma_checksum_checks_out(header: Icmpv4Header, body: Seq<u8>)
    ensures
        message_checksum(header.wire_header(body), body) == 0,
{
    let blank = header.wire_bytes(0);
    let checksum = message_checksum(blank, body);
    let full = header.wire_bytes(checksum);
    reveal_with_fuel(word_sum, 5);
    lemma_be16(checksum, 0, 0);
    lemma_be16(0, 0, 0);
    assert(word_sum(full) == word_sum(blank) + checksum) by {
        assert(full.skip(2).skip(2) =~= blank.skip(2).skip(2));
    }
    let sum = message_sum(blank, body);
    assert(sum + checksum == message_sum(full, body));
    assert((sum + checksum - 1) % 65535 == 65534);
}

/// A message made of a header and a body is accepted, and what is read off its front is the header.
pub proof fn law_parse_of_serialized(header: Icmpv4Header, body: Seq<u8>)
    ensures
        parse_error(header.wire_header(body) + body) is None,
        parsed_header(header.wire_header(body) + body) == header,
{
    let wire = header.wire_header(body);
    let message = wire + body;
    lemma_checksum_checks_out(header, body);
    assert(message.take(8) =~= wire);
    assert(message.skip(8) =~= body);
    assert(message.subrange(4, 8) =~= header.protocol.rest_of_header());
    law_decode_undoes_serialize(header.protocol);
}

/// Stripping undoes attaching: a buffer to which a header was attached, and from which a header is then parsed and
/// stripped, holds the packet that it held before.
pub proof fn law_strip_undoes_attach(header: Icmpv4Header, b: BufferView)
    requires
        b.head.len() >= 8,
    ensures
        parse_error(b.attach(header.wire_header(b.data)).data) is None,
        b.attach(header.wire_header(b.data)).adjust(8) == (BufferView {
            head: b.head.take(b.head.len() - 8) + header.wire_header(b.data),
            ..b
        }),
{
    law_parse_of_serialized(header, b.data);
    assert(b.attach(header.wire_header(b.data)).adjust(8) =~= (BufferView {
        head: b.head.take(b.head.len() - 8) + header.wire_header(b.data),
        ..b
    }));
}

} // verus!
