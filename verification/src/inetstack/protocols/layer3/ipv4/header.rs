//! The IPv4 datagram header.

use crate::inetstack::protocols::layer3::ip::IpProtocol;
use crate::inetstack::protocols::{
    be16, be16_bytes, decode_be16, high_byte, lemma_be16, lemma_word_sum_bound, low_byte, ones_complement, word_sum,
};
use crate::runtime::errno::{ebadmsg, enotsup, EBADMSG, ENOTSUP};
use crate::runtime::fail::{fail_view, Fail, FailView};
use crate::runtime::memory::{BufferView, DemiBuffer};
use crate::runtime::network::Ipv4Addr;
use vstd::prelude::*;
use vstd::slice::slice_subrange;

verus! {

/// Minimum size of an IPv4 header (in bytes).
pub const IPV4_HEADER_MIN_SIZE: u16 = IPV4_DATAGRAM_MIN_SIZE;

/// Maximum size of an IPv4 header (in bytes).
pub const IPV4_HEADER_MAX_SIZE: u16 = 60;

/// Minimum size of an IPv4 datagram (in bytes).
pub const IPV4_DATAGRAM_MIN_SIZE: u16 = 20;

/// IPv4 header length when no options are present (in 32-bit words).
pub const IPV4_IHL_NO_OPTIONS: u8 = 5;

/// Default time to live value.
pub const DEFAULT_IPV4_TTL: u8 = 255;

/// Version number of IPv4.
pub const IPV4_VERSION: u8 = 4;

/// IPv4 control flag: the datagram has evil intent (see RFC 3514).
pub const IPV4_CTRL_FLAG_EVIL: u8 = 0x4;

/// IPv4 control flag: don't fragment.
pub const IPV4_CTRL_FLAG_DF: u8 = 0x2;

/// IPv4 control flag: more fragments.
pub const IPV4_CTRL_FLAG_MF: u8 = 0x1;

/// IPv4 datagram header.
#[derive(Clone, Copy, Debug, PartialEq, Eq, Structural)]
pub struct Ipv4Header {
    /// Internet header version (4 bits).
    pub version: u8,
    /// Internet header length, in 32-bit words (4 bits).
    pub ihl: u8,
    /// Differentiated services code point (6 bits).
    pub dscp: u8,
    /// Explicit congestion notification (2 bits).
    pub ecn: u8,
    /// Total length of the datagram, header and data (16 bits).
    pub total_length: u16,
    /// Identifies the datagram that a fragment belongs to (16 bits).
    pub identification: u16,
    /// Control flags (3 bits).
    pub flags: u8,
    /// Where in the datagram this fragment belongs (13 bits).
    pub fragment_offset: u16,
    /// Time to live: how long the datagram may remain in the network (8 bits).
    pub ttl: u8,
    /// Protocol of the data portion of the datagram (8 bits).
    pub protocol: IpProtocol,
    /// Checksum over the header (16 bits).
    pub header_checksum: u16,
    /// Source address (32 bits).
    pub src_addr: Ipv4Addr,
    /// Destination address (32 bits).
    pub dst_addr: Ipv4Addr,
}

/// The header `bytes` with its checksum field taken as zero.
pub open spec fn without_checksum(bytes: Seq<u8>) -> Seq<u8> {
    Seq::new(bytes.len(), |i: int| if i == 10 || i == 11 { 0u8 } else { bytes[i] })
}

/// The checksum that belongs in the header `bytes`.
pub open spec fn header_checksum(bytes: Seq<u8>) -> u16 {
    (0xffff - ones_complement(word_sum(without_checksum(bytes)))) as u16
}

/// The address that the four bytes from `at` on encode.
pub open spec fn addr_at(bytes: Seq<u8>, at: int) -> Ipv4Addr {
    Ipv4Addr { a: bytes[at], b: bytes[at + 1], c: bytes[at + 2], d: bytes[at + 3] }
}

/// Size in bytes of the header at the front of `datagram`.
pub open spec fn header_size(datagram: Seq<u8>) -> int {
    4 * (datagram[0] & 0xf)
}

/// The total length that `datagram` claims to have.
pub open spec fn claimed_length(datagram: Seq<u8>) -> u16 {
    be16(datagram[2], datagram[3])
}

/// What lies between the header of `datagram` and the end that it claims to have.
pub open spec fn payload_of(datagram: Seq<u8>) -> Seq<u8> {
    datagram.subrange(header_size(datagram), claimed_length(datagram) as int)
}

/// Why `datagram` is not accepted, if it is not: the first of these reasons that applies.
pub open spec fn parse_error(datagram: Seq<u8>) -> Option<FailView> {
    let flags = datagram[6] >> 5;
    let checksum = be16(datagram[10], datagram[11]);
    if datagram.len() < 20 {
        Some(fail_view(EBADMSG, "ipv4 datagram too small"@))
    } else if datagram[0] >> 4 != IPV4_VERSION {
        Some(fail_view(ENOTSUP, "unsupported IP version"@))
    } else if header_size(datagram) < 20 {
        Some(fail_view(EBADMSG, "ipv4 IHL is too small"@))
    } else if datagram.len() < header_size(datagram) {
        Some(fail_view(EBADMSG, "ipv4 datagram too small to fit in header"@))
    } else if claimed_length(datagram) < header_size(datagram) {
        Some(fail_view(EBADMSG, "ipv4 datagram smaller than header"@))
    } else if claimed_length(datagram) > datagram.len() {
        Some(fail_view(EBADMSG, "ipv4 datagram size mismatch"@))
    } else if flags & IPV4_CTRL_FLAG_EVIL != 0 {
        Some(fail_view(EBADMSG, "ipv4 datagram is marked as evil"@))
    } else if flags & IPV4_CTRL_FLAG_MF != 0 {
        Some(fail_view(ENOTSUP, "ipv4 fragmentation is not supported"@))
    } else if be16(datagram[6], datagram[7]) & 0x1fff != 0 {
        Some(fail_view(ENOTSUP, "ipv4 fragmentation is not supported"@))
    } else if datagram[8] == 0 {
        Some(fail_view(EBADMSG, "ipv4 datagram too old"@))
    } else if IpProtocol::from_number(datagram[9]) is None {
        Some(fail_view(ENOTSUP, "unsupported protocol"@))
    } else if checksum == 0xffff {
        Some(fail_view(EBADMSG, "ipv4 checksum invalid"@))
    } else if checksum != header_checksum(datagram.take(header_size(datagram))) {
        Some(fail_view(EBADMSG, "ipv4 checksum mismatch"@))
    } else {
        None
    }
}

/// The header at the front of an acceptable `datagram`.
pub open spec fn parsed_header(datagram: Seq<u8>) -> Ipv4Header {
    Ipv4Header {
        version: datagram[0] >> 4,
        ihl: datagram[0] & 0xf,
        dscp: datagram[1] >> 2,
        ecn: datagram[1] & 3,
        total_length: claimed_length(datagram),
        identification: be16(datagram[4], datagram[5]),
        flags: datagram[6] >> 5,
        fragment_offset: be16(datagram[6], datagram[7]) & 0x1fff,
        ttl: datagram[8],
        protocol: IpProtocol::from_number(datagram[9])->0,
        header_checksum: be16(datagram[10], datagram[11]),
        src_addr: addr_at(datagram, 12),
        dst_addr: addr_at(datagram, 16),
    }
}

/// What the buffer `b` holds once the header has been stripped off its front and the padding off its end.
pub open spec fn stripped(b: BufferView) -> BufferView {
    b.adjust(header_size(b.data)).trim(b.data.len() - claimed_length(b.data))
}

impl Ipv4Header {
    /// The twenty bytes of the header, for a datagram of `length` bytes and with the checksum field set to `checksum`.
    pub open spec fn wire_bytes(self, length: u16, checksum: u16) -> Seq<u8> {
        seq![(self.version << 4) | self.ihl, (self.dscp << 2) | (self.ecn & 3)]
            + be16_bytes(length)
            + be16_bytes(self.identification)
            + be16_bytes(((self.flags as u16) << 13) | (self.fragment_offset & 0x1fff))
            + seq![self.ttl, self.protocol.spec_number()]
            + be16_bytes(checksum)
            + self.src_addr.bytes()
            + self.dst_addr.bytes()
    }

    /// The bytes that the header puts in front of `payload`. The checksum field stays zero if the network card fills
    /// it in.
    pub open spec fn wire_header(self, payload: Seq<u8>, offload: bool) -> Seq<u8> {
        let blank = self.wire_bytes((20 + payload.len()) as u16, 0);
        if offload {
            blank
        } else {
            self.wire_bytes((20 + payload.len()) as u16, header_checksum(blank))
        }
    }

    /// A header without options, for a datagram that must not be fragmented.
    pub open spec fn spec_new(src_addr: Ipv4Addr, dst_addr: Ipv4Addr, protocol: IpProtocol) -> Ipv4Header {
        Ipv4Header {
            version: IPV4_VERSION,
            ihl: IPV4_IHL_NO_OPTIONS,
            dscp: 0,
            ecn: 0,
            total_length: IPV4_HEADER_MIN_SIZE,
            identification: 0,
            flags: IPV4_CTRL_FLAG_DF,
            fragment_offset: 0,
            ttl: DEFAULT_IPV4_TTL,
            protocol,
            header_checksum: 0,
            src_addr,
            dst_addr,
        }
    }

    /// Creates a header without options, for a datagram that must not be fragmented.
    pub fn new(src_addr: Ipv4Addr, dst_addr: Ipv4Addr, protocol: IpProtocol) -> (header: Ipv4Header)
        ensures
            header == Self::spec_new(src_addr, dst_addr, protocol),
    {
        Ipv4Header {
            version: IPV4_VERSION,
            ihl: IPV4_IHL_NO_OPTIONS,
            dscp: 0,
            ecn: 0,
            total_length: IPV4_HEADER_MIN_SIZE,
            identification: 0,
            flags: IPV4_CTRL_FLAG_DF,
            fragment_offset: 0,
            ttl: DEFAULT_IPV4_TTL,
            protocol,
            header_checksum: 0,
            src_addr,
            dst_addr,
        }
    }

    /// Size of the header in bytes.
    pub fn compute_size(&self) -> (size: usize)
        ensures
            size == 4 * self.ihl,
    {
        let ihl: usize = self.ihl as usize;
        assert(ihl <= 255 ==> ihl << 2 == 4 * ihl) by (bit_vector);
        ihl << 2
    }

    /// The checksum that belongs in the header `bytes`; what stands in its checksum field does not count.
    pub fn compute_checksum(bytes: &[u8]) -> (checksum: u16)
        requires
            word_sum(without_checksum(bytes@)) <= u32::MAX,
        ensures
            checksum == header_checksum(bytes@),
    {
        let n: usize = bytes.len();
        let ghost clear = without_checksum(bytes@);
        let mut sum: u32 = 0;
        let mut i: usize = 0;
        assert(clear.skip(0) =~= clear);
        while n - i > 1
            invariant
                i % 2 == 0,
                i <= n == bytes@.len(),
                clear == without_checksum(bytes@),
                word_sum(clear) <= u32::MAX,
                word_sum(clear) == sum + word_sum(clear.skip(i as int)),
            decreases n - i,
        {
            assert(clear.skip(i as int).skip(2) =~= clear.skip(i + 2));
            if i != 10 {
                sum = sum + decode_be16(bytes[i], bytes[i + 1]) as u32;
            }
            i = i + 2;
        }
        if i < n && i != 10 {
            assert(clear.skip(i as int)[0] == bytes@[i as int]);
            sum = sum + decode_be16(bytes[i], 0) as u32;
        }
        let ghost total = sum as nat;
        while sum > 0xffff
            invariant
                ones_complement(sum as nat) == ones_complement(total),
            decreases sum,
        {
            let low: u32 = sum & 0xffff;
            let high: u32 = sum >> 16;
            assert(low == sum % 0x1_0000 && high == sum / 0x1_0000) by (bit_vector)
                requires
                    low == sum & 0xffff,
                    high == sum >> 16,
            ;
            assert((sum - 1) % 65535 == (low + high - 1) % 65535);
            sum = low + high;
        }
        let folded: u16 = sum as u16;
        assert(!folded == 0xffff - folded) by (bit_vector);
        !folded
    }

    /// Parses the header at the front of the packet in `buf`, strips it off, and cuts off the padding behind the
    /// datagram. A packet that is not acceptable stays as it is.
    pub fn parse_and_strip(buf: &mut DemiBuffer) -> (result: Result<Ipv4Header, Fail>)
        ensures
            match result {
                Ok(header) => {
                    &&& parse_error(old(buf)@.data) is None
                    &&& header == parsed_header(old(buf)@.data)
                    &&& final(buf)@ == stripped(old(buf)@)
                },
                Err(fail) => {
                    &&& parse_error(old(buf)@.data) == Some(fail@)
                    &&& final(buf)@ == old(buf)@
                },
            },
    {
        let len: usize = buf.len();
        let ghost datagram = buf@.data;
        // The datagram should be as big as the header.
        if len < IPV4_DATAGRAM_MIN_SIZE as usize {
            return Err(Fail::new(ebadmsg(), "ipv4 datagram too small"));
        }
        let first: u8 = buf.get(0);
        let version: u8 = first >> 4;
        if version != IPV4_VERSION {
            return Err(Fail::new(enotsup(), "unsupported IP version"));
        }
        // Internet header length.

        let ihl: u8 = first & 0xf;
        let wide_ihl: u16 = ihl as u16;
        assert(first & 0xf <= 15) by (bit_vector);
        assert(wide_ihl <= 15 ==> wide_ihl << 2 == 4 * wide_ihl) by (bit_vector);
        let hdr_size: u16 = wide_ihl << 2;
        if hdr_size < IPV4_HEADER_MIN_SIZE {
            return Err(Fail::new(ebadmsg(), "ipv4 IHL is too small"));
        }
        if len < hdr_size as usize {
            return Err(Fail::new(ebadmsg(), "ipv4 datagram too small to fit in header"));
        }
        let total_length: u16 = decode_be16(buf.get(2), buf.get(3));
        if total_length < hdr_size {
            return Err(Fail::new(ebadmsg(), "ipv4 datagram smaller than header"));
        }
        // There may be padding bytes in the buffer.

        if total_length as usize > len {
            return Err(Fail::new(ebadmsg(), "ipv4 datagram size mismatch"));
        }
        // Don't accept evil datagrams (see RFC 3514).

        let flags: u8 = buf.get(6) >> 5;
        if flags & IPV4_CTRL_FLAG_EVIL != 0 {
            return Err(Fail::new(ebadmsg(), "ipv4 datagram is marked as evil"));
        }
        if flags & IPV4_CTRL_FLAG_MF != 0 {
            return Err(Fail::new(enotsup(), "ipv4 fragmentation is not supported"));
        }
        let fragment_offset: u16 = decode_be16(buf.get(6), buf.get(7)) & 0x1fff;
        if fragment_offset != 0 {
            return Err(Fail::new(enotsup(), "ipv4 fragmentation is not supported"));
        }
        let ttl: u8 = buf.get(8);
        if ttl == 0 {
            return Err(Fail::new(ebadmsg(), "ipv4 datagram too old"));
        }
        let protocol = match IpProtocol::try_from(buf.get(9)) {
            Ok(protocol) => protocol,
            Err(fail) => return Err(fail),
        };
        let header_checksum: u16 = decode_be16(buf.get(10), buf.get(11));
        if header_checksum == 0xffff {
            return Err(Fail::new(ebadmsg(), "ipv4 checksum invalid"));
        }
        let hdr_buf = slice_subrange(buf.as_slice(), 0, hdr_size as usize);
        proof {
            assert(hdr_buf@ =~= datagram.take(hdr_size as int));
            lemma_word_sum_bound(without_checksum(hdr_buf@));
        }
        if header_checksum != Self::compute_checksum(hdr_buf) {
            return Err(Fail::new(ebadmsg(), "ipv4 checksum mismatch"));
        }
        let header = Ipv4Header {
            version,
            ihl,
            dscp: buf.get(1) >> 2,
            ecn: buf.get(1) & 3,
            total_length,
            identification: decode_be16(buf.get(4), buf.get(5)),
            flags,
            fragment_offset,
            ttl,
            protocol,
            header_checksum,
            src_addr: Ipv4Addr::new(buf.get(12), buf.get(13), buf.get(14), buf.get(15)),
            dst_addr: Ipv4Addr::new(buf.get(16), buf.get(17), buf.get(18), buf.get(19)),
        };
        // Truncate the datagram.
        let padding_bytes: usize = len - total_length as usize;
        match buf.adjust(hdr_size as usize) {
            Ok(_) => {},
            Err(fail) => return Err(fail),
        }
        match buf.trim(padding_bytes) {
            Ok(_) => {},
            Err(fail) => return Err(fail),
        }
        Ok(header)
    }

    /// Writes the header, without options, in front of the packet in `buf`. The buffer must have the headroom. The
    /// checksum field stays zero if the network card is to fill it in.
    pub fn serialize_and_attach(&self, buf: &mut DemiBuffer, calc_hardware_ipv4_checksum_offload: bool)
        requires
            old(buf)@.head.len() >= IPV4_HEADER_MIN_SIZE,
        ensures
            final(buf)@ == old(buf)@.attach(
                self.wire_header(old(buf)@.data, calc_hardware_ipv4_checksum_offload),
            ),
    {
        let length: u16 = (buf.len() + IPV4_HEADER_MIN_SIZE as usize) as u16;
        let flags_and_offset: u16 = ((self.flags as u16) << 13) | (self.fragment_offset & 0x1fff);
        let src: [u8; 4] = self.src_addr.octets();
        let dst: [u8; 4] = self.dst_addr.octets();
        let mut header: [u8; 20] = [
            (self.version << 4) | self.ihl,
            (self.dscp << 2) | (self.ecn & 3),
            high_byte(length),
            low_byte(length),
            high_byte(self.identification),
            low_byte(self.identification),
            high_byte(flags_and_offset),
            low_byte(flags_and_offset),
            self.ttl,
            self.protocol.number(),
            // The checksum counts as zero until the rest of the header is written.
            0,
            0,
            src[0],
            src[1],
            src[2],
            src[3],
            dst[0],
            dst[1],
            dst[2],
            dst[3],
        ];
        let ghost blank = self.wire_bytes(length, 0);
        assert(header@ =~= blank);
        if !calc_hardware_ipv4_checksum_offload {
            proof {
                lemma_word_sum_bound(without_checksum(header@));
            }
            let checksum: u16 = Self::compute_checksum(header.as_slice());
            header[10] = high_byte(checksum);
            header[11] = low_byte(checksum);
            assert(header@ =~= self.wire_bytes(length, checksum));
        }
        buf.attach(header.as_slice());
    }

    /// Source address.
    pub fn src_addr(&self) -> (addr: Ipv4Addr)
        ensures
            addr == self.src_addr,
    {
        self.src_addr
    }

    /// Destination address.
    pub fn dst_addr(&self) -> (addr: Ipv4Addr)
        ensures
            addr == self.dst_addr,
    {
        self.dst_addr
    }

    /// Protocol of the data portion of the datagram.
    pub fn protocol(&self) -> (protocol: IpProtocol)
        ensures
            protocol == self.protocol,
    {
        self.protocol
    }
}

impl Ipv4Header {
    /// Whether the fields fit their widths and are those of a whole, live IPv4 datagram without header options.
    pub open spec fn is_plain(self) -> bool {
        &&& self.version == IPV4_VERSION
        &&& self.ihl == IPV4_IHL_NO_OPTIONS
        &&& self.dscp < 64
        &&& self.ecn < 4
        &&& self.flags == 0 || self.flags == IPV4_CTRL_FLAG_DF
        &&& self.fragment_offset == 0
        &&& self.ttl != 0
    }
}

/// Headers that this stack creates are plain.
pub proof fn law_new_is_plain(src_addr: Ipv4Addr, dst_addr: Ipv4Addr, protocol: IpProtocol)
    ensures
        Ipv4Header::spec_new(src_addr, dst_addr, protocol).is_plain(),
{
}

/// What stands in the checksum field does not count toward the checksum.
proof fn lemma_checksum_of_wire_bytes(header: Ipv4Header, length: u16, checksum: u16)
    ensures
        header_checksum(header.wire_bytes(length, checksum)) == header_checksum(header.wire_bytes(length, 0)),
{
    assert(without_checksum(header.wire_bytes(length, checksum))
        =~= without_checksum(header.wire_bytes(length, 0)));
}

/// The bytes of a plain header decode to its fields.
proof fn lemma_wire_fields(header: Ipv4Header, length: u16, checksum: u16, rest: Seq<u8>)
    requires
        header.is_plain(),
    ensures
        ({
            let datagram = header.wire_bytes(length, checksum) + rest;
            &&& datagram.take(20) == header.wire_bytes(length, checksum)
            &&& parsed_header(datagram) == (Ipv4Header {
                total_length: length,
                header_checksum: checksum,
                ..header
            })
            &&& header_size(datagram) == 20
            &&& claimed_length(datagram) == length
            &&& IpProtocol::from_number(datagram[9]) is Some
            &&& datagram[0] == 0x45
            &&& be16(datagram[10], datagram[11]) == checksum
        }),
{
    let datagram = header.wire_bytes(length, checksum) + rest;
    assert(datagram.take(20) =~= header.wire_bytes(length, checksum));
    let dscp = header.dscp;
    let ecn = header.ecn;
    let flags = header.flags as u16;
    let word = (flags << 13) | (header.fragment_offset & 0x1fff);
    assert((4u8 << 4) | 5u8 == 0x45u8 && 0x45u8 >> 4 == 4u8 && 0x45u8 & 0xf == 5u8) by (bit_vector);
    assert(dscp < 64 && ecn < 4 ==> ((dscp << 2) | (ecn & 3)) >> 2 == dscp && ((dscp << 2) | (ecn & 3)) & 3 == ecn)
        by (bit_vector);
    assert((0u16 << 13) | (0u16 & 0x1fff) == 0 && (2u16 << 13) | (0u16 & 0x1fff) == 0x4000 && 0u16 & 0x1fff == 0
        && 0x4000u16 & 0x1fff == 0) by (bit_vector);
    assert(0u8 >> 5 == 0 && 0x40u8 >> 5 == 2) by (bit_vector);
    lemma_be16(length, 0, 0);
    lemma_be16(header.identification, 0, 0);
    lemma_be16(word, 0, 0);
    lemma_be16(checksum, 0, 0);
}

/// A datagram made of a plain header with its checksum, a payload and perhaps padding is accepted. What is read off
/// its front is the header, with the length and the checksum filled in.
pub proof fn law_parse_of_serialized(header: Ipv4Header, payload: Seq<u8>, padding: Seq<u8>)
    requires
        header.is_plain(),
        20 + payload.len() <= 0xffff,
    ensures
        ({
            let datagram = header.wire_header(payload, false) + payload + padding;
            &&& parse_error(datagram) is None
            &&& parsed_header(datagram) == (Ipv4Header {
                total_length: (20 + payload.len()) as u16,
                header_checksum: header_checksum(header.wire_header(payload, true)),
                ..header
            })
            &&& header_size(datagram) == 20
            &&& claimed_length(datagram) == 20 + payload.len()
            &&& payload_of(datagram) == payload
        }),
{
    let length = (20 + payload.len()) as u16;
    let blank = header.wire_bytes(length, 0);
    let checksum = header_checksum(blank);
    let datagram = header.wire_header(payload, false) + payload + padding;
    assert(datagram =~= header.wire_bytes(length, checksum) + (payload + padding));
    lemma_wire_fields(header, length, checksum, payload + padding);
    lemma_checksum_of_wire_bytes(header, length, checksum);
    let flags = header.flags;
    assert(0u8 & 4u8 == 0 && 2u8 & 4u8 == 0 && 0u8 & 1u8 == 0 && 2u8 & 1u8 == 0) by (bit_vector);
    assert(parsed_header(datagram).flags == flags);
    assert(0x45u8 >> 4 == 4u8) by (bit_vector);
    assert(payload_of(datagram) =~= payload);
    // The first word of the header is not zero, so neither is the sum.
    assert(checksum != 0xffff) by {
        let clear = without_checksum(blank);
        assert((4u8 << 4) | 5u8 == 0x45u8) by (bit_vector);
        assert(clear[0] == 0x45);
        assert(word_sum(clear) > 0);
    }
}

/// Stripping undoes attaching: a buffer to which a plain header with its checksum was attached, and from which a
/// header is then parsed and stripped, holds what it held before.
pub proof fn law_strip_undoes_attach(header: Ipv4Header, b: BufferView)
    requires
        header.is_plain(),
        b.wf(),
        b.head.len() >= 20,
    ensures
        parse_error(b.attach(header.wire_header(b.data, false)).data) is None,
        stripped(b.attach(header.wire_header(b.data, false))).data == b.data,
        stripped(b.attach(header.wire_header(b.data, false))).tail == b.tail,
        stripped(b.attach(header.wire_header(b.data, false))).head == b.head.take(b.head.len() - 20)
            + header.wire_header(b.data, false),
{
    let wire = header.wire_header(b.data, false);
    let attached = b.attach(wire);
    law_parse_of_serialized(header, b.data, Seq::empty());
    assert(wire + b.data + Seq::<u8>::empty() =~= wire + b.data);
    assert(stripped(attached).data =~= b.data);
    assert(stripped(attached).tail =~= b.tail);
    assert(stripped(attached).head =~= b.head.take(b.head.len() - 20) + wire);
}

/// A datagram whose checksum was left to the network card is not accepted before the card filled it in, unless its
/// checksum happens to be zero.
pub proof fn law_offloaded_checksum_is_missing(header: Ipv4Header, payload: Seq<u8>, padding: Seq<u8>)
    requires
        header.is_plain(),
        20 + payload.len() <= 0xffff,
        header_checksum(header.wire_header(payload, true)) != 0,
    ensures
        parse_error(header.wire_header(payload, true) + payload + padding) == Some(
            fail_view(EBADMSG, "ipv4 checksum mismatch"@),
        ),
{
    let length = (20 + payload.len()) as u16;
    let datagram = header.wire_header(payload, true) + payload + padding;
    assert(datagram =~= header.wire_bytes(length, 0) + (payload + padding));
    lemma_wire_fields(header, length, 0, payload + padding);
    assert(0u8 & 4u8 == 0 && 2u8 & 4u8 == 0 && 0u8 & 1u8 == 0 && 2u8 & 1u8 == 0) by (bit_vector);
    assert(parsed_header(datagram).flags == header.flags);
    assert(0x45u8 >> 4 == 4u8) by (bit_vector);
}

/// An accepted datagram is a whole IPv4 datagram that is still alive, and its payload is what lies between its header
/// and the length that it claims.
pub proof fn law_accepted_is_whole(b: BufferView)
    requires
        parse_error(b.data) is None,
    ensures
        ({
            let header = parsed_header(b.data);
            let size = header_size(b.data);
            &&& header.version == IPV4_VERSION
            &&& 5 <= header.ihl <= 15
            &&& size == 4 * header.ihl
            &&& header.fragment_offset == 0
            &&& header.flags & IPV4_CTRL_FLAG_MF == 0
            &&& header.flags & IPV4_CTRL_FLAG_EVIL == 0
            &&& header.ttl > 0
            &&& size <= header.total_length <= b.data.len()
            &&& stripped(b).data == payload_of(b.data)
        }),
{
    let first = b.data[0];
    assert(first & 0xf <= 15) by (bit_vector);
    assert(stripped(b).data =~= payload_of(b.data));
}

/// Writing the header that was read off an accepted datagram without options and without padding gives that datagram
/// back.
pub proof fn law_serialize_of_parsed(datagram: Seq<u8>)
    requires
        parse_error(datagram) is None,
        header_size(datagram) == 20,
        claimed_length(datagram) == datagram.len(),
    ensures
        parsed_header(datagram).is_plain(),
        parsed_header(datagram).wire_header(datagram.skip(20), false) + datagram.skip(20) == datagram,
{
    let header = parsed_header(datagram);
    let payload = datagram.skip(20);
    let length = datagram.len() as u16;
    let (b0, b1, b6, b7) = (datagram[0], datagram[1], datagram[6], datagram[7]);
    let word = be16(b6, b7);
    assert(b0 >> 4 == 4 && b0 & 0xf == 5 ==> (4u8 << 4) | 5u8 == b0) by (bit_vector);
    assert(b1 >> 2 < 64 && b1 & 3 < 4 && ((b1 >> 2) << 2) | ((b1 & 3) & 3) == b1) by (bit_vector);
    assert(b6 >> 5 == b6 / 32) by (bit_vector);
    let flags = b6 >> 5;
    assert(flags < 8 && flags & 4 == 0 && flags & 1 == 0 ==> flags == 0 || flags == 2) by (bit_vector);
    assert(word & 0x1fff == word % 8192) by (bit_vector);
    assert((0u16 << 13) | (0u16 & 0x1fff) == 0 && (2u16 << 13) | (0u16 & 0x1fff) == 0x4000) by (bit_vector);
    assert(word == ((header.flags as u16) << 13) | (header.fragment_offset & 0x1fff));
    lemma_be16(0, datagram[2], datagram[3]);
    lemma_be16(0, datagram[4], datagram[5]);
    lemma_be16(0, b6, b7);
    lemma_be16(0, datagram[10], datagram[11]);
    let checksum = header.header_checksum;
    assert(header.wire_bytes(length, checksum) =~= datagram.take(20));
    lemma_checksum_of_wire_bytes(header, length, checksum);
    assert(header.wire_header(payload, false) == datagram.take(20));
    assert(datagram.take(20) + payload =~= datagram);
}

} // verus!
