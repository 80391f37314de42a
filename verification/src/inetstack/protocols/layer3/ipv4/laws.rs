//! What RFC 791 asks of IPv4 headers, byte by byte.

use crate::inetstack::protocols::layer3::ip::IpProtocol;
use crate::inetstack::protocols::layer3::ipv4::header::{
    header_checksum, parse_error, parsed_header, payload_of, stripped, without_checksum, Ipv4Header,
};
use crate::inetstack::protocols::{
    be16, law_ones_complement, law_word_sum_counts_every_word, law_word_sum_grows, ones_complement, word_sum,
};
use crate::runtime::fail::fail_view;
use crate::runtime::memory::BufferView;
use crate::runtime::network::Ipv4Addr;
use vstd::prelude::*;

verus! {

/// The fields that share a byte.
proof fn lemma_byte_fields(b: u8)
    ensures
        b >> 4 == b / 16,
        b & 0xf == b % 16,
        b >> 2 == b / 4,
        b & 3 == b % 4,
        b >> 5 == b / 32,
        (b >> 5) & 4 != 0 <==> b >= 128,
        (b >> 5) & 1 != 0 <==> (b / 32) % 2 == 1,
{
    assert(b >> 4 == b / 16 && b & 0xf == b % 16 && b >> 2 == b / 4 && b & 3 == b % 4 && b >> 5 == b / 32 && ((b >> 5)
        & 4 != 0 <==> b >= 128) && ((b >> 5) & 1 != 0 <==> (b / 32) % 2 == 1)) by (bit_vector);
}

proof fn lemma_offset_field(hi: u8, lo: u8)
    ensures
        be16(hi, lo) & 0x1fff == 256 * (hi % 32) + lo,
{
    let word = be16(hi, lo);
    assert(word & 0x1fff == word % 8192) by (bit_vector);
}

/// What the checksum field holds; a byte of it that is not there counts as zero.
pub open spec fn stored_checksum(bytes: Seq<u8>) -> int {
    (if bytes.len() > 10 {
        256 * bytes[10]
    } else {
        0
    }) + (if bytes.len() > 11 {
        bytes[11] as int
    } else {
        0
    })
}

proof fn lemma_sum_without_checksum(bytes: Seq<u8>)
    ensures
        word_sum(without_checksum(bytes)) == word_sum(bytes) - stored_checksum(bytes),
{
    let clear = without_checksum(bytes);
    if bytes.len() >= 12 {
        law_word_sum_counts_every_word(bytes, 10, 0, 0);
        assert(clear =~= bytes.update(10, 0).update(11, 0));
    } else if bytes.len() == 11 {
        let front = bytes.take(10);
        law_word_sum_grows(front, bytes[10]);
        law_word_sum_grows(front, 0);
        assert(bytes =~= front.push(bytes[10]));
        assert(clear =~= front.push(0));
    } else {
        assert(clear =~= bytes);
    }
}

/// The checksum of a header makes up for every other word of it: together they sum to a multiple of 65535. It is all
/// ones only where there is nothing to make up for.
pub proof fn law_header_checksum(bytes: Seq<u8>)
    ensures
        (header_checksum(bytes) + word_sum(bytes) - stored_checksum(bytes)) % 65535 == 0,
        header_checksum(bytes) == 0xffff <==> word_sum(bytes) == stored_checksum(bytes),
{
    lemma_sum_without_checksum(bytes);
    let sum = word_sum(without_checksum(bytes));
    law_ones_complement(sum);
    let oc = ones_complement(sum) as int;
    assert(header_checksum(bytes) == 65535 - oc);
    assert((65535 - oc + sum) % 65535 == 0) by {
        assert((sum - oc) % 65535 == 0);
    }
}

/// The check of RFC 791: a header holds its right checksum exactly if the ones' complement sum of all its words, the
/// checksum among them, is all ones. A checksum of all ones is never right.
#[verifier::rlimit(50)]
pub proof fn law_checksum_is_right(bytes: Seq<u8>)
    requires
        bytes.len() >= 12,
        bytes[0] != 0,
        !(bytes[10] == 0xff && bytes[11] == 0xff),
    ensures
        be16(bytes[10], bytes[11]) == header_checksum(bytes) <==> ones_complement(word_sum(bytes)) == 0xffff,
        be16(bytes[10], bytes[11]) == header_checksum(bytes) <==> word_sum(bytes) % 65535 == 0,
        header_checksum(bytes) != 0xffff,
{
    law_header_checksum(bytes);
    let sum = word_sum(bytes) as int;
    let stored = stored_checksum(bytes);
    let right = header_checksum(bytes) as int;
    law_ones_complement(word_sum(bytes));
    assert(sum - stored > 0) by {
        lemma_sum_without_checksum(bytes);
        assert(without_checksum(bytes)[0] == bytes[0]);
    }
    assert(stored == be16(bytes[10], bytes[11]));
    let oc = ones_complement(word_sum(bytes)) as int;
    assert((sum - oc) % 65535 == 0);
    assert((right + sum - stored) % 65535 == 0);
    assert(0 <= right < 65535 && 0 <= stored < 65535);
}

/// Which datagrams are accepted: those with a whole IPv4 header whose words sum to all ones, that are no longer than
/// the bytes that came, are no fragment, have not the evil bit set, are still alive, and carry a known protocol.
#[verifier::rlimit(50)]
pub proof fn law_accepted_exactly(datagram: Seq<u8>)
    ensures
        parse_error(datagram) is None <==> {
            let size = 4 * (datagram[0] % 16);
            let length = 256 * datagram[2] + datagram[3];
            &&& datagram.len() >= 20
            &&& datagram[0] / 16 == 4
            &&& 20 <= size <= length <= datagram.len()
            &&& datagram[6] < 128
            &&& (datagram[6] / 32) % 2 == 0
            &&& datagram[6] % 32 == 0
            &&& datagram[7] == 0
            &&& datagram[8] > 0
            &&& (datagram[9] == 1 || datagram[9] == 6 || datagram[9] == 17)
            &&& !(datagram[10] == 0xff && datagram[11] == 0xff)
            &&& word_sum(datagram.take(size)) % 65535 == 0
        },
{
    lemma_byte_fields(datagram[0]);
    lemma_byte_fields(datagram[6]);
    lemma_offset_field(datagram[6], datagram[7]);
    let size = 4 * (datagram[0] % 16);
    if datagram.len() >= size && size >= 20 && datagram[0] / 16 == 4 {
        let header = datagram.take(size);
        if !(header[10] == 0xff && header[11] == 0xff) {
            law_checksum_is_right(header);
        }
    }
}

/// Why a datagram is refused: each reason counts where none before it does.
#[verifier::rlimit(50)]
pub proof fn law_reasons_to_refuse(datagram: Seq<u8>)
    ensures
        ({
            let error = parse_error(datagram);
            let size = 4 * (datagram[0] % 16);
            let length = 256 * datagram[2] + datagram[3];
            let whole = datagram.len() >= 20 && datagram[0] / 16 == 4 && 20 <= size <= length <= datagram.len();
            let single = whole && datagram[6] % 32 == 0 && (datagram[6] / 32) % 2 == 0 && datagram[6] < 128
                && datagram[7] == 0;
            let known = single && datagram[8] > 0 && (datagram[9] == 1 || datagram[9] == 6 || datagram[9] == 17);
            &&& datagram.len() < 20 ==> error == Some(fail_view(74, "ipv4 datagram too small"@))
            &&& datagram.len() >= 20 && datagram[0] / 16 != 4 ==> error == Some(
                fail_view(95, "unsupported IP version"@),
            )
            &&& datagram.len() >= 20 && datagram[0] / 16 == 4 && size < 20 ==> error == Some(
                fail_view(74, "ipv4 IHL is too small"@),
            )
            &&& datagram.len() >= 20 && datagram[0] / 16 == 4 && size >= 20 && datagram.len() < size ==> error == Some(
                fail_view(74, "ipv4 datagram too small to fit in header"@),
            )
            &&& datagram.len() >= 20 && datagram[0] / 16 == 4 && 20 <= size <= datagram.len() && length < size
                ==> error == Some(fail_view(74, "ipv4 datagram smaller than header"@))
            &&& datagram.len() >= 20 && datagram[0] / 16 == 4 && 20 <= size <= datagram.len() && length
                > datagram.len() ==> error == Some(fail_view(74, "ipv4 datagram size mismatch"@))
            &&& whole && datagram[6] >= 128 ==> error == Some(fail_view(74, "ipv4 datagram is marked as evil"@))
            &&& whole && datagram[6] < 128 && !single ==> error == Some(
                fail_view(95, "ipv4 fragmentation is not supported"@),
            )
            &&& single && datagram[8] == 0 ==> error == Some(fail_view(74, "ipv4 datagram too old"@))
            &&& single && datagram[8] > 0 && !known ==> error == Some(fail_view(95, "unsupported protocol"@))
            &&& known && datagram[10] == 0xff && datagram[11] == 0xff ==> error == Some(
                fail_view(74, "ipv4 checksum invalid"@),
            )
            &&& known && !(datagram[10] == 0xff && datagram[11] == 0xff) && word_sum(datagram.take(size)) % 65535 != 0
                ==> error == Some(fail_view(74, "ipv4 checksum mismatch"@))
        }),
{
    law_accepted_exactly(datagram);
    lemma_byte_fields(datagram[0]);
    lemma_byte_fields(datagram[6]);
    lemma_offset_field(datagram[6], datagram[7]);
}

/// A datagram whose header was damaged in one word is refused, unless the word changed from zero to all ones or back,
/// which is the same number.
#[verifier::rlimit(50)]
pub proof fn law_damaged_header_is_refused(datagram: Seq<u8>, at: int, hi: u8, lo: u8)
    requires
        parse_error(datagram) is None,
        2 <= at,
        at % 2 == 0,
        at + 1 < 4 * (datagram[0] % 16),
        256 * hi + lo != 256 * datagram[at] + datagram[at + 1],
        256 * hi + lo != 256 * datagram[at] + datagram[at + 1] + 65535,
        256 * hi + lo + 65535 != 256 * datagram[at] + datagram[at + 1],
    ensures
        parse_error(datagram.update(at, hi).update(at + 1, lo)) is Some,
{
    let damaged = datagram.update(at, hi).update(at + 1, lo);
    lemma_accepted_sum(datagram);
    if parse_error(damaged) is None {
        lemma_accepted_sum(damaged);
        let size = 4 * (datagram[0] % 16);
        lemma_damaged_sum(datagram.take(size), at, hi, lo);
        assert(damaged.take(size) =~= datagram.take(size).update(at, hi).update(at + 1, lo));
    }
}

#[verifier::rlimit(50)]
proof fn lemma_accepted_sum(datagram: Seq<u8>)
    requires
        parse_error(datagram) is None,
    ensures
        20 <= 4 * (datagram[0] % 16) <= datagram.len(),
        word_sum(datagram.take(4 * (datagram[0] % 16))) % 65535 == 0,
{
    law_accepted_exactly(datagram);
}

/// Two sums that differ in one word, by no multiple of 65535, are not both right.
#[verifier::rlimit(50)]
proof fn lemma_damaged_sum(bytes: Seq<u8>, at: int, hi: u8, lo: u8)
    requires
        0 <= at,
        at % 2 == 0,
        at + 1 < bytes.len(),
        256 * hi + lo != 256 * bytes[at] + bytes[at + 1],
        256 * hi + lo != 256 * bytes[at] + bytes[at + 1] + 65535,
        256 * hi + lo + 65535 != 256 * bytes[at] + bytes[at + 1],
        word_sum(bytes) % 65535 == 0,
    ensures
        word_sum(bytes.update(at, hi).update(at + 1, lo)) % 65535 != 0,
{
    law_word_sum_counts_every_word(bytes, at, hi, lo);
}

/// Where the fields of a header stand.
#[verifier::rlimit(50)]
pub proof fn law_fields_of_header(datagram: Seq<u8>)
    requires
        parse_error(datagram) is None,
    ensures
        ({
            let header = parsed_header(datagram);
            &&& header.version == datagram[0] / 16
            &&& header.ihl == datagram[0] % 16
            &&& header.dscp == datagram[1] / 4
            &&& header.ecn == datagram[1] % 4
            &&& header.total_length == 256 * datagram[2] + datagram[3]
            &&& header.identification == 256 * datagram[4] + datagram[5]
            &&& header.flags == datagram[6] / 32
            &&& header.fragment_offset == 256 * (datagram[6] % 32) + datagram[7]
            &&& header.ttl == datagram[8]
            &&& header.protocol == match datagram[9] {
                1 => IpProtocol::ICMPv4,
                6 => IpProtocol::TCP,
                _ => IpProtocol::UDP,
            }
            &&& header.header_checksum == 256 * datagram[10] + datagram[11]
            &&& header.src_addr == (Ipv4Addr {
                a: datagram[12],
                b: datagram[13],
                c: datagram[14],
                d: datagram[15],
            })
            &&& header.dst_addr == (Ipv4Addr {
                a: datagram[16],
                b: datagram[17],
                c: datagram[18],
                d: datagram[19],
            })
        }),
{
    law_accepted_exactly(datagram);
    lemma_byte_fields(datagram[0]);
    lemma_byte_fields(datagram[1]);
    lemma_byte_fields(datagram[6]);
    lemma_offset_field(datagram[6], datagram[7]);
}

/// Stripping leaves the bytes between the header and the end of the datagram, and moves the others out of the packet:
/// the header into the headroom, the padding into the tailroom.
#[verifier::rlimit(50)]
pub proof fn law_strip_keeps_every_byte(b: BufferView)
    requires
        parse_error(b.data) is None,
    ensures
        ({
            let size = 4 * (b.data[0] % 16);
            let length = 256 * b.data[2] + b.data[3];
            let after = stripped(b);
            &&& after.data == b.data.subrange(size, length)
            &&& payload_of(b.data) == b.data.subrange(size, length)
            &&& after.head == b.head + b.data.take(size)
            &&& after.tail == b.data.skip(length) + b.tail
            &&& after.head + after.data + after.tail == b.head + b.data + b.tail
            &&& after.dpdk == b.dpdk
        }),
{
    law_accepted_exactly(b.data);
    lemma_byte_fields(b.data[0]);
    let size = 4 * (b.data[0] % 16);
    let length = 256 * b.data[2] + b.data[3];
    let after = stripped(b);
    assert(after.data =~= b.data.subrange(size, length));
    assert(after.head =~= b.head + b.data.take(size));
    assert(after.tail =~= b.data.skip(length) + b.tail);
    assert(after.head + after.data + after.tail =~= b.head + b.data + b.tail);
}

/// What is written in front of a payload: each field in its place, the length of the whole datagram, and a checksum
/// that makes the words sum to all ones, unless the network card is to compute it.
#[verifier::rlimit(50)]
pub proof fn law_written_header(header: Ipv4Header, payload: Seq<u8>, offload: bool)
    requires
        0 < header.version < 16,
        header.ihl < 16,
        header.dscp < 64,
        header.ecn < 4,
        header.flags < 8,
        header.fragment_offset < 8192,
        20 + payload.len() <= 65535,
    ensures
        ({
            let bytes = header.wire_header(payload, offload);
            &&& bytes.len() == 20
            &&& bytes[0] == 16 * header.version + header.ihl
            &&& bytes[1] == 4 * header.dscp + header.ecn
            &&& 256 * bytes[2] + bytes[3] == 20 + payload.len()
            &&& 256 * bytes[4] + bytes[5] == header.identification
            &&& 256 * bytes[6] + bytes[7] == 8192 * header.flags + header.fragment_offset
            &&& bytes[8] == header.ttl
            &&& bytes[9] == match header.protocol {
                IpProtocol::ICMPv4 => 1,
                IpProtocol::TCP => 6,
                IpProtocol::UDP => 17int,
            }
            &&& bytes[12] == header.src_addr.a && bytes[13] == header.src_addr.b
            &&& bytes[14] == header.src_addr.c && bytes[15] == header.src_addr.d
            &&& bytes[16] == header.dst_addr.a && bytes[17] == header.dst_addr.b
            &&& bytes[18] == header.dst_addr.c && bytes[19] == header.dst_addr.d
            &&& offload ==> bytes[10] == 0 && bytes[11] == 0
            &&& !offload ==> word_sum(bytes) % 65535 == 0 && !(bytes[10] == 0xff && bytes[11] == 0xff)
        }),
{
    let (version, ihl, dscp, ecn) = (header.version, header.ihl, header.dscp, header.ecn);
    let (flags, offset) = (header.flags as u16, header.fragment_offset);
    assert(version < 16 && ihl < 16 && dscp < 64 && ecn < 4 && flags < 8 && offset < 8192 ==> (version << 4) | ihl == (
    16 * version + ihl) as u8 && (dscp << 2) | (ecn & 3) == (4 * dscp + ecn) as u8 && (flags << 13) | (offset & 0x1fff)
        == (8192 * flags + offset) as u16) by (bit_vector);
    let bytes = header.wire_header(payload, offload);
    if !offload {
        let blank = header.wire_header(payload, true);
        assert(blank[10] == 0 && blank[11] == 0);
        assert(bytes =~= blank.update(10, bytes[10]).update(11, bytes[11]));
        assert(be16(bytes[10], bytes[11]) == header_checksum(blank));
        law_header_checksum(blank);
        law_word_sum_counts_every_word(blank, 10, bytes[10], bytes[11]);
        assert(word_sum(blank) > 0);
    }
}

/// A new header is that of a whole datagram without options that must not be fragmented and may go as far as any.
pub proof fn law_new_header(src_addr: Ipv4Addr, dst_addr: Ipv4Addr, protocol: IpProtocol)
    ensures
        ({
            let header = Ipv4Header::spec_new(src_addr, dst_addr, protocol);
            &&& (header.version, header.ihl, header.dscp, header.ecn) == (4u8, 5u8, 0u8, 0u8)
            &&& (header.total_length, header.identification) == (20u16, 0u16)
            &&& (header.flags, header.fragment_offset, header.ttl) == (2u8, 0u16, 255u8)
            &&& header.header_checksum == 0
            &&& header.protocol == protocol
            &&& header.src_addr == src_addr
            &&& header.dst_addr == dst_addr
        }),
{
}

/// A datagram with a new header, byte by byte.
#[verifier::rlimit(50)]
pub proof fn law_new_datagram(
    src_addr: Ipv4Addr,
    dst_addr: Ipv4Addr,
    protocol: IpProtocol,
    payload: Seq<u8>,
    offload: bool,
)
    requires
        20 + payload.len() <= 65535,
    ensures
        ({
            let bytes = Ipv4Header::spec_new(src_addr, dst_addr, protocol).wire_header(payload, offload);
            &&& bytes.len() == 20
            &&& bytes[0] == 0x45 && bytes[1] == 0
            &&& 256 * bytes[2] + bytes[3] == 20 + payload.len()
            &&& bytes[4] == 0 && bytes[5] == 0
            &&& bytes[6] == 0x40 && bytes[7] == 0
            &&& bytes[8] == 255
            &&& bytes[9] == match protocol {
                IpProtocol::ICMPv4 => 1,
                IpProtocol::TCP => 6,
                IpProtocol::UDP => 17int,
            }
            &&& bytes[12] == src_addr.a && bytes[13] == src_addr.b
            &&& bytes[14] == src_addr.c && bytes[15] == src_addr.d
            &&& bytes[16] == dst_addr.a && bytes[17] == dst_addr.b
            &&& bytes[18] == dst_addr.c && bytes[19] == dst_addr.d
            &&& offload ==> bytes[10] == 0 && bytes[11] == 0
            &&& !offload ==> word_sum(bytes) % 65535 == 0 && !(bytes[10] == 0xff && bytes[11] == 0xff)
        }),
{
    let header = Ipv4Header::spec_new(src_addr, dst_addr, protocol);
    law_new_header(src_addr, dst_addr, protocol);
    law_written_header(header, payload, offload);
}

} // verus!
