//! What RFC 792 asks of messages, byte by byte, and what a peer does about them.

use crate::inetstack::protocols::layer3::icmpv4::header::{
    law_parse_of_serialized, message_checksum, message_sum, parse_error, parsed_header, Icmpv4Header,
};
use crate::inetstack::protocols::layer3::icmpv4::peer::{
    fresh_packet, next_seq_num, spec_compute_id, InflightRequest, PeerView, PollActionView,
};
use crate::inetstack::protocols::layer3::icmpv4::protocol::Icmpv4Type2;
use crate::inetstack::protocols::layer3::ip::IpProtocol;
use crate::inetstack::protocols::layer3::ipv4::header::Ipv4Header;
use crate::inetstack::protocols::layer3::ipv4::laws::law_new_datagram;
use crate::inetstack::protocols::{
    law_ones_complement, law_word_sum_counts_every_word, law_word_sum_of_concat, ones_complement, word_sum,
};
use crate::runtime::fail::fail_view;
use crate::runtime::memory::BufferView;
use crate::runtime::network::Ipv4Addr;
use vstd::prelude::*;

verus! {

/// The checksum of a message makes up for every word of header and body: together they sum to a multiple of 65535.
pub proof fn law_message_checksum(header: Seq<u8>, body: Seq<u8>)
    ensures
        (message_checksum(header, body) + word_sum(header) + word_sum(body)) % 65535 == 0,
        message_checksum(header, body) < 65535,
        message_sum(header, body) % 65535 == (word_sum(header) + word_sum(body)) % 65535,
{
    let sum = message_sum(header, body);
    law_ones_complement(sum);
    assert((sum - ones_complement(sum)) % 65535 == 0);
}

/// The check of RFC 792: a message passes exactly if the ones' complement sum of all its words, header and body as
/// they stand on the network, is all ones or there is nothing but zeros.
pub proof fn law_message_is_right(message: Seq<u8>)
    requires
        message.len() >= 8,
    ensures
        message_checksum(message.take(8), message.skip(8)) == 0 <==> word_sum(message) % 65535 == 0,
        message_checksum(message.take(8), message.skip(8)) == 0 <==> ones_complement(word_sum(message)) == 0xffff
            || word_sum(message) == 0,
{
    let header = message.take(8);
    let body = message.skip(8);
    law_message_checksum(header, body);
    law_word_sum_of_concat(header, body);
    assert(header + body =~= message);
    law_ones_complement(word_sum(message));
    let sum = word_sum(message);
    let folded = ones_complement(sum);
    assert((sum - folded) % 65535 == 0);
}

/// Which messages are accepted, and why the others are not.
pub proof fn law_accepted_exactly(message: Seq<u8>)
    ensures
        ({
            let error = parse_error(message);
            let kind = message[0];
            let known = kind == 0 || 3 <= kind <= 5 || 8 <= kind <= 14;
            &&& error is None <==> message.len() >= 8 && word_sum(message) % 65535 == 0 && known
            &&& message.len() < 8 ==> error == Some(fail_view(74, "ICMPv4 datagram too small for header"@))
            &&& message.len() >= 8 && word_sum(message) % 65535 != 0 ==> error == Some(
                fail_view(74, "ICMPv4 checksum mismatch"@),
            )
            &&& message.len() >= 8 && word_sum(message) % 65535 == 0 && !known ==> error == Some(
                fail_view(74, "Invalid type byte"@),
            )
        }),
{
    if message.len() >= 8 {
        law_message_is_right(message);
    }
}

/// A message that was damaged in one word, of the header or of the body, is refused, unless the word changed from zero
/// to all ones or back, which is the same number.
#[verifier::rlimit(50)]
pub proof fn law_damaged_message_is_refused(message: Seq<u8>, at: int, hi: u8, lo: u8)
    requires
        parse_error(message) is None,
        0 <= at,
        at % 2 == 0,
        at + 1 < message.len(),
        256 * hi + lo != 256 * message[at] + message[at + 1],
        256 * hi + lo != 256 * message[at] + message[at + 1] + 65535,
        256 * hi + lo + 65535 != 256 * message[at] + message[at + 1],
    ensures
        parse_error(message.update(at, hi).update(at + 1, lo)) == Some(fail_view(74, "ICMPv4 checksum mismatch"@)),
{
    let damaged = message.update(at, hi).update(at + 1, lo);
    law_accepted_exactly(message);
    law_accepted_exactly(damaged);
    law_word_sum_counts_every_word(message, at, hi, lo);
}

/// The numbers of the message types, and where an echo message names itself.
pub proof fn law_message_types(kind: u8, rest: Seq<u8>)
    requires
        rest.len() == 4,
    ensures
        ({
            let decoded = Icmpv4Type2::decode(kind, rest);
            &&& kind == 3 <==> decoded == Some(Icmpv4Type2::DestinationUnreachable)
            &&& kind == 4 <==> decoded == Some(Icmpv4Type2::SourceQuench)
            &&& kind == 5 <==> decoded == Some(Icmpv4Type2::RedirectMessage)
            &&& kind == 9 <==> decoded == Some(Icmpv4Type2::RouterAdvertisement)
            &&& kind == 10 <==> decoded == Some(Icmpv4Type2::RouterSolicitation)
            &&& kind == 11 <==> decoded == Some(Icmpv4Type2::TimeExceeded)
            &&& kind == 12 <==> decoded == Some(Icmpv4Type2::BadIpHeader)
            &&& kind == 13 <==> decoded == Some(Icmpv4Type2::Timestamp)
            &&& kind == 14 <==> decoded == Some(Icmpv4Type2::TimestampReply)
            &&& kind == 0 ==> {
                &&& decoded matches Some(Icmpv4Type2::EchoReply { id, seq_num })
                &&& id == 256 * rest[0] + rest[1]
                &&& seq_num == 256 * rest[2] + rest[3]
            }
            &&& kind == 8 ==> {
                &&& decoded matches Some(Icmpv4Type2::EchoRequest { id, seq_num })
                &&& id == 256 * rest[0] + rest[1]
                &&& seq_num == 256 * rest[2] + rest[3]
            }
            &&& decoded is None <==> kind == 1 || kind == 2 || kind == 6 || kind == 7 || kind > 14
            &&& decoded matches Some(known) ==> known.type_number() == kind
        }),
{
}

/// Where the fields of a message stand.
pub proof fn law_fields_of_message(message: Seq<u8>)
    requires
        parse_error(message) is None,
    ensures
        ({
            let header = parsed_header(message);
            &&& header.code == message[1]
            &&& header.protocol.type_number() == message[0]
            &&& match header.protocol {
                Icmpv4Type2::EchoReply { id, seq_num } | Icmpv4Type2::EchoRequest { id, seq_num } => {
                    &&& id == 256 * message[4] + message[5]
                    &&& seq_num == 256 * message[6] + message[7]
                },
                _ => true,
            }
        }),
{
    law_accepted_exactly(message);
    law_message_types(message[0], message.subrange(4, 8));
}

/// The last bytes of a header: identifier and sequence number of an echo message, and zeros in others.
pub proof fn law_rest_of_header(kind: Icmpv4Type2)
    ensures
        kind.rest_of_header().len() == 4,
        match kind {
            Icmpv4Type2::EchoReply { id, seq_num } | Icmpv4Type2::EchoRequest { id, seq_num } => {
                &&& 256 * kind.rest_of_header()[0] + kind.rest_of_header()[1] == id
                &&& 256 * kind.rest_of_header()[2] + kind.rest_of_header()[3] == seq_num
            },
            _ => kind.rest_of_header() =~= seq![0u8, 0u8, 0u8, 0u8],
        },
{
}

/// What is written in front of a body: type, code and the rest of the header in their places, and a checksum that
/// makes all words of the message sum to all ones.
#[verifier::rlimit(50)]
pub proof fn law_written_header_of_message(header: Icmpv4Header, body: Seq<u8>)
    ensures
        ({
            let bytes = header.wire_header(body);
            &&& bytes.len() == 8
            &&& bytes[0] == header.protocol.type_number()
            &&& bytes[1] == header.code
            &&& bytes.subrange(4, 8) == header.protocol.rest_of_header()
            &&& word_sum(bytes + body) % 65535 == 0
            &&& 256 * bytes[2] + bytes[3] < 65535
        }),
{
    let bytes = header.wire_header(body);
    law_parse_of_serialized(header, body);
    law_accepted_exactly(bytes + body);
    law_rest_of_header(header.protocol);
    law_message_checksum(header.wire_bytes(0), body);
    assert(bytes.subrange(4, 8) =~= header.protocol.rest_of_header());
}

/// The identifier of a ping makes up for the address, the process number and the random bytes: the words of all of
/// them sum to a multiple of 65535. It is never all ones.
pub proof fn law_identifier(addr: Ipv4Addr, pid: u32, nonce: Seq<u8>)
    ensures
        spec_compute_id(addr, pid, nonce) < 65535,
        (spec_compute_id(addr, pid, nonce) + (256 * addr.a + addr.b) + (256 * addr.c + addr.d) + pid / 0x1_0000 + pid
            % 0x1_0000 + (256 * nonce[0] + nonce[1])) % 65535 == 0,
{
    let sum = (0xffff + (256 * addr.a + addr.b) + (256 * addr.c + addr.d) + pid / 0x1_0000 + pid % 0x1_0000 + (256
        * nonce[0] + nonce[1])) as nat;
    law_ones_complement(sum);
    let folded = ones_complement(sum);
    assert((sum - folded) % 65535 == 0);
}

/// Sequence numbers count up, and start again at zero after the last one.
pub proof fn law_next_sequence_number(seq: u16)
    ensures
        seq < 65535 ==> next_seq_num(seq) == seq + 1,
        seq == 65535 ==> next_seq_num(seq) == 0,
{
}

/// A fresh packet is nothing but zeros, with nothing behind it.
pub proof fn law_fresh_packet(headroom: u16, size: u16)
    ensures
        ({
            let packet = fresh_packet(headroom, size);
            &&& packet.head.len() == headroom
            &&& packet.data.len() == size
            &&& packet.tail.len() == 0
            &&& forall|i: int| 0 <= i < headroom ==> packet.head[i] == 0
            &&& forall|i: int| 0 <= i < size ==> packet.data[i] == 0
            &&& !packet.dpdk
        }),
{
}

/// What a peer does about a message: it answers an echo request, to whoever sent it, with the same identifier,
/// sequence number and bytes; it wakes the ping that an echo reply names, if that waits; it ignores everything else.
#[verifier::rlimit(50)]
pub proof fn law_what_is_done_about_messages(peer: PeerView, header: Ipv4Header, packet: BufferView)
    ensures
        ({
            let message = packet.data;
            let right = message.len() >= 8 && word_sum(message) % 65535 == 0;
            let action = peer.action_for(header, packet);
            &&& right && message[0] == 8 ==> {
                &&& action matches PollActionView::Reply {
                    message: Icmpv4Type2::EchoReply { id, seq_num },
                    dst_ip,
                    packet: rest,
                }
                &&& id == 256 * message[4] + message[5]
                &&& seq_num == 256 * message[6] + message[7]
                &&& dst_ip == header.src_addr
                &&& rest.data == message.skip(8)
                &&& rest.head == packet.head + message.take(8)
                &&& rest.tail == packet.tail
                &&& rest.dpdk == packet.dpdk
            }
            &&& action is Reply <==> right && message[0] == 8
            &&& forall|id: u16, seq_num: u16|
                action == (PollActionView::Signal { id, seq_num }) <==> {
                    &&& right
                    &&& message[0] == 0
                    &&& id == 256 * message[4] + message[5]
                    &&& seq_num == 256 * message[6] + message[7]
                    &&& #[trigger] peer.awaits(id, seq_num)
                }
        }),
{
    law_accepted_exactly(packet.data);
    let message = packet.data;
    if message.len() >= 8 {
        law_message_types(message[0], message.subrange(4, 8));
    }
}

/// A request is awaited from when it is recorded as sent until it is recorded as complete or forgotten, whatever is
/// done about others.
pub proof fn law_requests_are_awaited(peer: PeerView, id: u16, seq_num: u16, other: (u16, u16))
    requires
        other != (id, seq_num),
    ensures
        ({
            let sent = PeerView { inflight: peer.inflight.insert((id, seq_num), InflightRequest::Inflight), ..peer };
            let done = PeerView { inflight: peer.inflight.insert((id, seq_num), InflightRequest::Complete), ..peer };
            let gone = PeerView { inflight: peer.inflight.remove((id, seq_num)), ..peer };
            &&& sent.awaits(id, seq_num)
            &&& !done.awaits(id, seq_num)
            &&& !gone.awaits(id, seq_num)
            &&& sent.awaits(other.0, other.1) == peer.awaits(other.0, other.1)
            &&& done.awaits(other.0, other.1) == peer.awaits(other.0, other.1)
            &&& gone.awaits(other.0, other.1) == peer.awaits(other.0, other.1)
        }),
{
}

/// Looking at a message changes nothing but the request that it answers, which is complete from then on.
pub proof fn law_only_requests_change(peer: PeerView, header: Ipv4Header, packet: BufferView)
    ensures
        ({
            let action = peer.action_for(header, packet);
            let after = peer.after(action);
            &&& after == (PeerView { inflight: after.inflight, ..peer })
            &&& !(action is Signal) ==> after == peer
            &&& action matches PollActionView::Signal { id, seq_num } ==> after.inflight == peer.inflight.insert(
                (id, seq_num),
                InflightRequest::Complete,
            )
        }),
{
}

/// What a peer sends, byte by byte: an IPv4 header without options from this host to the other, then the message
/// header, then the bytes of the packet, in the headroom of its buffer.
#[verifier::rlimit(50)]
pub proof fn law_datagram_of_message(peer: PeerView, message: Icmpv4Type2, dst_ip: Ipv4Addr, packet: BufferView)
    requires
        packet.wf(),
        packet.head.len() >= 28,
    ensures
        ({
            let sent = peer.datagram(message, dst_ip, packet);
            let wire = sent.data;
            &&& wire.len() == 28 + packet.data.len()
            &&& wire[0] == 0x45 && wire[1] == 0
            &&& 256 * wire[2] + wire[3] == wire.len()
            &&& wire[4] == 0 && wire[5] == 0
            &&& wire[6] == 0x40 && wire[7] == 0
            &&& wire[8] == 255 && wire[9] == 1
            &&& wire.subrange(12, 16) == peer.local_ipv4_addr.bytes()
            &&& wire.subrange(16, 20) == dst_ip.bytes()
            &&& peer.ipv4_checksum_offload ==> wire[10] == 0 && wire[11] == 0
            &&& !peer.ipv4_checksum_offload ==> word_sum(wire.take(20)) % 65535 == 0
            &&& wire[20] == message.type_number()
            &&& wire[21] == 0
            &&& wire.subrange(24, 28) == message.rest_of_header()
            &&& word_sum(wire.skip(20)) % 65535 == 0
            &&& wire.skip(28) == packet.data
            &&& sent.head == packet.head.take(packet.head.len() - 28)
            &&& sent.tail == packet.tail
            &&& sent.dpdk == packet.dpdk
        }),
{
    let icmp = Icmpv4Header { protocol: message, code: 0 };
    let inner = icmp.wire_header(packet.data);
    law_written_header_of_message(icmp, packet.data);
    let offload = peer.ipv4_checksum_offload;
    law_new_datagram(peer.local_ipv4_addr, dst_ip, IpProtocol::ICMPv4, inner + packet.data, offload);
    let ip = Ipv4Header::spec_new(peer.local_ipv4_addr, dst_ip, IpProtocol::ICMPv4);
    let outer = ip.wire_header(inner + packet.data, offload);
    lemma_layers(outer, inner, packet);
    let wire = packet.attach(inner).attach(outer).data;
    assert(peer.datagram(message, dst_ip, packet) == packet.attach(inner).attach(outer));
    assert(wire.subrange(12, 16) =~= peer.local_ipv4_addr.bytes());
    assert(wire.subrange(16, 20) =~= dst_ip.bytes());
}

/// Two headers in front of a packet, one after the other.
proof fn lemma_layers(outer: Seq<u8>, inner: Seq<u8>, packet: BufferView)
    requires
        outer.len() == 20,
        inner.len() == 8,
        packet.head.len() >= 28,
    ensures
        ({
            let sent = packet.attach(inner).attach(outer);
            &&& sent.data.len() == 28 + packet.data.len()
            &&& forall|i: int| 0 <= i < 20 ==> sent.data[i] == outer[i]
            &&& forall|i: int| 0 <= i < 8 ==> #[trigger] sent.data[20 + i] == inner[i]
            &&& sent.data[20] == inner[0]
            &&& sent.data[21] == inner[1]
            &&& sent.data.take(20) == outer
            &&& sent.data.skip(20) == inner + packet.data
            &&& sent.data.skip(28) == packet.data
            &&& sent.data.subrange(24, 28) == inner.subrange(4, 8)
            &&& sent.head == packet.head.take(packet.head.len() - 28)
            &&& sent.tail == packet.tail
            &&& sent.dpdk == packet.dpdk
        }),
{
    let sent = packet.attach(inner).attach(outer);
    assert(sent.data.take(20) =~= outer);
    assert(sent.data.skip(20) =~= inner + packet.data);
    assert(sent.data.skip(28) =~= packet.data);
    assert(sent.data.subrange(24, 28) =~= inner.subrange(4, 8));
    assert(sent.head =~= packet.head.take(packet.head.len() - 28));
}

} // verus!
