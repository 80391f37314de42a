//! What the network layer promises of addresses, frames and datagrams.

use crate::inetstack::protocols::layer3::icmpv4::peer::PeerView;
use crate::inetstack::protocols::layer3::ip::IpProtocol;
use crate::inetstack::protocols::layer3::ipv4::header::{parse_error, Ipv4Header};
use crate::inetstack::protocols::layer3::ipv4::laws::{
    law_accepted_exactly, law_fields_of_header, law_new_datagram, law_strip_keeps_every_byte,
};
use crate::inetstack::protocols::layer3::{
    datagram_views, disposition, dispositions, dropped, spec_bad_src, spec_is_for_us, spec_is_local_address,
    spec_next_hop, spec_segment_size, to_arp, to_icmpv4, to_transport, Disposition, EndpointView, EtherType2,
    OffloadFrame,
};
use crate::inetstack::protocols::word_sum;
use crate::runtime::memory::{BufferView, DemiBuffer};
use crate::runtime::network::{law_special_addresses, Ipv4Addr, MacAddress};
use vstd::arithmetic::power2::pow2;
use vstd::bits::lemma_u32_shr_is_div;
use vstd::prelude::*;

verus! {

proof fn lemma_masked_bits(x: u32, y: u32, mask: u32)
    ensures
        x & mask == y & mask <==> forall|k: u32|
            k < 32 && (mask >> k) & 1 == 1 ==> #[trigger] ((x >> k) & 1) == (y >> k) & 1,
{
    if x & mask == y & mask {
        assert forall|k: u32| k < 32 && (mask >> k) & 1 == 1 implies #[trigger] ((x >> k) & 1) == (y >> k) & 1 by {
            assert(x & mask == y & mask && k < 32 && (mask >> k) & 1 == 1 ==> (x >> k) & 1 == (y >> k) & 1)
                by (bit_vector);
        }
    } else {
        let k = lemma_differing_bit(x & mask, y & mask);
        assert(((x & mask) >> k) & 1 != ((y & mask) >> k) & 1 && k < 32 ==> (mask >> k) & 1 == 1 && (x >> k) & 1 != (y
            >> k) & 1) by (bit_vector);
    }
}

/// Two numbers that differ, differ in a bit.
proof fn lemma_differing_bit(x: u32, y: u32) -> (k: u32)
    requires
        x != y,
    ensures
        k < 32,
        (x >> k) & 1 != (y >> k) & 1,
{
    lemma_low_bits(x, y, 32)
}

proof fn lemma_low_bits(x: u32, y: u32, n: u32) -> (k: u32)
    requires
        n <= 32,
        x != y,
        n < 32 ==> x >> n == y >> n,
    ensures
        k < 32,
        (x >> k) & 1 != (y >> k) & 1,
    decreases n,
{
    if n == 0 {
        assert(x >> 0 == x && y >> 0 == y) by (bit_vector);
        0
    } else {
        let m = (n - 1) as u32;
        if x >> m == y >> m {
            lemma_low_bits(x, y, m)
        } else {
            assert(n <= 32 && n > 0 && m == n - 1 && x >> m != y >> m && (n < 32 ==> x >> n == y >> n) ==> (x >> m) & 1
                != (y >> m) & 1) by (bit_vector);
            m
        }
    }
}

/// An address is local exactly if it agrees with the local address in every bit that is set in the mask.
pub proof fn law_local_addresses_agree_under_mask(addr: Ipv4Addr, local_addr: Ipv4Addr, mask: Ipv4Addr)
    ensures
        spec_is_local_address(addr, local_addr, Some(mask)) <==> forall|k: u32|
            k < 32 && (mask.number() >> k) & 1 == 1 ==> #[trigger] ((addr.number() >> k) & 1) == (local_addr.number()
                >> k) & 1,
        spec_is_local_address(addr, local_addr, None),
{
    lemma_masked_bits(addr.number(), local_addr.number(), mask.number());
}

/// Under a mask of leading ones, an address is local exactly if it has the same leading bits, that is the same network
/// number. Under a mask of zeros every address is.
pub proof fn law_local_addresses_share_prefix(addr: Ipv4Addr, local_addr: Ipv4Addr, mask: Ipv4Addr, host_bits: u32)
    requires
        host_bits < 32,
        mask.number() == 0xffff_ffffu32 << host_bits,
    ensures
        spec_is_local_address(addr, local_addr, Some(mask)) <==> addr.number() as nat / pow2(host_bits as nat)
            == local_addr.number() as nat / pow2(host_bits as nat),
        spec_is_local_address(addr, local_addr, Some(Ipv4Addr::spec_unspecified())),
{
    let (x, y, m) = (addr.number(), local_addr.number(), mask.number());
    assert(host_bits < 32 && m == 0xffff_ffffu32 << host_bits ==> (x & m == y & m <==> x >> host_bits == y
        >> host_bits)) by (bit_vector);
    lemma_u32_shr_is_div(x, host_bits);
    lemma_u32_shr_is_div(y, host_bits);
    law_special_addresses(Ipv4Addr::spec_unspecified());
    assert(x & 0 == 0 && y & 0 == 0) by (bit_vector);
}

/// Being in the same network is mutual, and a host is in its own.
pub proof fn law_local_is_mutual(x: Ipv4Addr, y: Ipv4Addr, mask: Option<Ipv4Addr>)
    ensures
        spec_is_local_address(x, x, mask),
        spec_is_local_address(x, y, mask) == spec_is_local_address(y, x, mask),
{
}

/// The next hop is the host itself or the gateway. It is the gateway exactly for a host of another network, where there
/// is a gateway to go through.
pub proof fn law_gateway_is_for_other_networks(
    remote: Ipv4Addr,
    local_addr: Ipv4Addr,
    mask: Option<Ipv4Addr>,
    gateway: Option<Ipv4Addr>,
)
    ensures
        ({
            let hop = spec_next_hop(remote, local_addr, mask, gateway);
            let local = spec_is_local_address(remote, local_addr, mask);
            let through = !local && gateway is Some && gateway->0.number() != 0;
            &&& through ==> Some(hop) == gateway
            &&& !through ==> hop == remote
        }),
{
    if gateway is Some {
        law_special_addresses(gateway->0);
    }
}

/// Endpoint and peer send by the mask and the gateway of this host.
pub proof fn law_routes_follow_settings(endpoint: EndpointView, peer: PeerView, remote: Ipv4Addr)
    ensures
        endpoint.local_netmask is None ==> endpoint.next_hop(remote) == remote,
        peer.local_netmask is None ==> peer.next_hop(remote) == remote,
        endpoint.local_netmask matches Some(mask) ==> {
            let local = spec_is_local_address(remote, endpoint.local_ip, Some(mask));
            let gateway = endpoint.gateway_ipv4_addr;
            &&& local || gateway is None || gateway->0.number() == 0 ==> endpoint.next_hop(remote) == remote
            &&& !local && gateway is Some && gateway->0.number() != 0 ==> endpoint.next_hop(remote) == gateway->0
        },
        peer.local_netmask matches Some(mask) ==> {
            let local = spec_is_local_address(remote, peer.local_ipv4_addr, Some(mask));
            let gateway = peer.gateway_ipv4_addr;
            &&& local || gateway is None || gateway->0.number() == 0 ==> peer.next_hop(remote) == remote
            &&& !local && gateway is Some && gateway->0.number() != 0 ==> peer.next_hop(remote) == gateway->0
        },
{
    if endpoint.gateway_ipv4_addr is Some {
        law_special_addresses(endpoint.gateway_ipv4_addr->0);
    }
    if peer.gateway_ipv4_addr is Some {
        law_special_addresses(peer.gateway_ipv4_addr->0);
    }
}

/// A datagram is for a host if it names the host or all hosts. No host has one of the addresses that stand for none,
/// for all or for a group.
pub proof fn law_addresses_of_hosts(local_ip: Ipv4Addr, addr: Ipv4Addr)
    ensures
        spec_is_for_us(local_ip, addr) <==> addr == local_ip || addr.number() == 0xffff_ffff,
        spec_bad_src(addr) <==> addr.number() == 0 || addr.number() == 0xffff_ffff || 0xe000_0000 <= addr.number()
            <= 0xefff_ffff,
{
    law_special_addresses(addr);
}

/// Where a frame goes, by its type and its bytes. Of the IPv4 datagrams, those that are accepted, name this host or all
/// hosts, and come from an address that a host can have are handed on, with their payload and nothing else.
#[verifier::rlimit(100)]
pub proof fn law_where_frames_go(local_ip: Ipv4Addr, eth2_type: EtherType2, packet: BufferView)
    ensures
        ({
            let went = disposition(local_ip, eth2_type, packet);
            let bytes = packet.data;
            let src = Ipv4Addr { a: bytes[12], b: bytes[13], c: bytes[14], d: bytes[15] };
            let dst = Ipv4Addr { a: bytes[16], b: bytes[17], c: bytes[18], d: bytes[19] };
            let payload = bytes.subrange(4 * (bytes[0] % 16), 256 * bytes[2] + bytes[3]);
            let sound = eth2_type == EtherType2::Ipv4 && parse_error(bytes) is None && (dst == local_ip || dst.number()
                == 0xffff_ffff) && src.number() != 0 && src.number() != 0xffff_ffff && !(224 <= src.a <= 239);
            &&& eth2_type == EtherType2::Arp <==> went == Disposition::Arp(packet)
            &&& eth2_type == EtherType2::Arp <==> went is Arp
            &&& went is Icmpv4 <==> sound && bytes[9] == 1
            &&& went is Up <==> sound && bytes[9] != 1
            &&& went matches Disposition::Icmpv4(header, message) ==> {
                &&& header.src_addr == src
                &&& message.data == payload
                &&& message.head.len() == packet.head.len() + 4 * (bytes[0] % 16)
            }
            &&& went matches Disposition::Up(from, protocol, datagram) ==> {
                &&& from == src
                &&& bytes[9] == 6 ==> protocol == IpProtocol::TCP
                &&& bytes[9] == 17 ==> protocol == IpProtocol::UDP
                &&& datagram.data == payload
            }
        }),
{
    let bytes = packet.data;
    let src = Ipv4Addr { a: bytes[12], b: bytes[13], c: bytes[14], d: bytes[15] };
    let dst = Ipv4Addr { a: bytes[16], b: bytes[17], c: bytes[18], d: bytes[19] };
    law_special_addresses(src);
    law_special_addresses(dst);
    if parse_error(bytes) is None {
        law_fields_of_header(bytes);
        law_strip_keeps_every_byte(packet);
        law_accepted_exactly(bytes);
    }
}

/// Frames are sorted one by one: those of two batches that come one after the other go where those of each would, in
/// the same order.
pub proof fn law_batches_are_sorted_one_by_one(first: Seq<Disposition>, second: Seq<Disposition>)
    ensures
        to_arp(first + second) == to_arp(first) + to_arp(second),
        to_icmpv4(first + second) == to_icmpv4(first) + to_icmpv4(second),
        to_transport(first + second) == to_transport(first) + to_transport(second),
        dropped(first + second) == dropped(first) + dropped(second),
    decreases second.len(),
{
    let all = first + second;
    if second.len() == 0 {
        assert(all =~= first);
        assert(to_arp(first) + to_arp(second) =~= to_arp(first));
        assert(to_icmpv4(first) + to_icmpv4(second) =~= to_icmpv4(first));
        assert(to_transport(first) + to_transport(second) =~= to_transport(first));
    } else {
        law_batches_are_sorted_one_by_one(first, second.drop_last());
        assert(all.drop_last() =~= first + second.drop_last());
        assert(all.last() == second.last());
        assert(to_arp(all) =~= to_arp(first) + to_arp(second));
        assert(to_icmpv4(all) =~= to_icmpv4(first) + to_icmpv4(second));
        assert(to_transport(all) =~= to_transport(first) + to_transport(second));
    }
}

/// One frame goes where it belongs and nowhere else.
pub proof fn law_one_frame(went: Disposition)
    ensures
        to_arp(seq![went]) == match went {
            Disposition::Arp(packet) => seq![packet],
            _ => Seq::empty(),
        },
        to_icmpv4(seq![went]) == match went {
            Disposition::Icmpv4(header, packet) => seq![(header, packet)],
            _ => Seq::empty(),
        },
        to_transport(seq![went]) == match went {
            Disposition::Up(src, protocol, packet) => seq![(src, protocol, packet)],
            _ => Seq::empty(),
        },
{
    let one = seq![went];
    let none = Seq::<Disposition>::empty();
    assert(one.drop_last() =~= none);
    assert(one.last() == went);
    assert(to_arp(none) =~= Seq::empty());
    assert(to_icmpv4(none) =~= Seq::empty());
    assert(to_transport(none) =~= Seq::empty());
    assert(to_arp(one) =~= match went {
        Disposition::Arp(packet) => seq![packet],
        _ => Seq::empty(),
    });
    assert(to_icmpv4(one) =~= match went {
        Disposition::Icmpv4(header, packet) => seq![(header, packet)],
        _ => Seq::empty(),
    });
    assert(to_transport(one) =~= match went {
        Disposition::Up(src, protocol, packet) => seq![(src, protocol, packet)],
        _ => Seq::empty(),
    });
}

/// Each frame of a batch goes where it would go alone, and each datagram that is handed up is told by its source, its
/// protocol and its packet.
pub proof fn law_views_of_batches(
    local_ip: Ipv4Addr,
    frames: Seq<(EtherType2, DemiBuffer)>,
    datagrams: Seq<(Ipv4Addr, IpProtocol, DemiBuffer)>,
)
    ensures
        dispositions(local_ip, frames).len() == frames.len(),
        forall|i: int|
            0 <= i < frames.len() ==> #[trigger] dispositions(local_ip, frames)[i] == disposition(
                local_ip,
                frames[i].0,
                frames[i].1@,
            ),
        datagram_views(datagrams).len() == datagrams.len(),
        forall|i: int|
            0 <= i < datagrams.len() ==> #[trigger] datagram_views(datagrams)[i] == (
                datagrams[i].0,
                datagrams[i].1,
                datagrams[i].2@,
            ),
{
}

/// What the link layer gets: the packet behind an IPv4 header without options, from this host to the other, for the
/// neighbour that was named, with the lengths of the headers that the network card is told.
#[verifier::rlimit(100)]
pub proof fn law_transmitted_frame(
    sender: EndpointView,
    frame: OffloadFrame,
    remote_ip: Ipv4Addr,
    mac: MacAddress,
    protocol: IpProtocol,
    l4_header_len: usize,
    packet: BufferView,
)
    requires
        packet.wf(),
        packet.head.len() >= 20,
        sender.is_transmission(frame, remote_ip, mac, protocol, l4_header_len, packet),
    ensures
        ({
            let wire = frame.packet@.data;
            &&& frame.dst_mac == mac
            &&& frame.protocol == protocol
            &&& frame.l3_header_len == 4 * (wire[0] % 16) == 20
            &&& (l4_header_len - frame.l4_header_len) % 256 == 0
            &&& wire.len() == 20 + packet.data.len()
            &&& wire.skip(20) == packet.data
            &&& wire[0] == 0x45 && wire[1] == 0
            &&& 256 * wire[2] + wire[3] == wire.len()
            &&& wire[4] == 0 && wire[5] == 0 && wire[6] == 0x40 && wire[7] == 0 && wire[8] == 255
            &&& wire[9] == match protocol {
                IpProtocol::ICMPv4 => 1,
                IpProtocol::TCP => 6,
                IpProtocol::UDP => 17int,
            }
            &&& wire.subrange(12, 16) == sender.local_ip.bytes()
            &&& wire.subrange(16, 20) == remote_ip.bytes()
            &&& sender.icmpv4.ipv4_checksum_offload ==> wire[10] == 0 && wire[11] == 0
            &&& !sender.icmpv4.ipv4_checksum_offload ==> word_sum(wire.take(20)) % 65535 == 0
            &&& frame.packet@.head == packet.head.take(packet.head.len() - 20)
            &&& frame.packet@.tail == packet.tail
            &&& frame.packet@.dpdk == packet.dpdk
        }),
{
    let offload = sender.icmpv4.ipv4_checksum_offload;
    let header = Ipv4Header::spec_new(sender.local_ip, remote_ip, protocol).wire_header(packet.data, offload);
    law_new_datagram(sender.local_ip, remote_ip, protocol, packet.data, offload);
    lemma_one_layer(header, packet, sender.local_ip, remote_ip);
    assert(frame.packet@ == packet.attach(header));
}

/// A header in front of a packet, with addresses in its last eight bytes.
proof fn lemma_one_layer(header: Seq<u8>, packet: BufferView, src: Ipv4Addr, dst: Ipv4Addr)
    requires
        header.len() == 20,
        packet.head.len() >= 20,
        header[12] == src.a && header[13] == src.b && header[14] == src.c && header[15] == src.d,
        header[16] == dst.a && header[17] == dst.b && header[18] == dst.c && header[19] == dst.d,
    ensures
        ({
            let sent = packet.attach(header);
            &&& sent.data.len() == 20 + packet.data.len()
            &&& forall|i: int| 0 <= i < 20 ==> sent.data[i] == header[i]
            &&& sent.data.take(20) == header
            &&& sent.data.skip(20) == packet.data
            &&& sent.data.subrange(12, 16) == src.bytes()
            &&& sent.data.subrange(16, 20) == dst.bytes()
            &&& sent.head == packet.head.take(packet.head.len() - 20)
            &&& sent.tail == packet.tail
            &&& sent.dpdk == packet.dpdk
        }),
{
    let sent = packet.attach(header);
    assert(sent.data.take(20) =~= header);
    assert(sent.data.skip(20) =~= packet.data);
    assert(sent.data.subrange(12, 16) =~= src.bytes());
    assert(sent.data.subrange(16, 20) =~= dst.bytes());
}

/// The maximum segment size is what the settings say, or else what fits into a frame of the usual size.
pub proof fn law_segment_size(mss: Option<u16>)
    ensures
        mss matches Some(size) ==> spec_segment_size(mss) == size,
        mss is None ==> spec_segment_size(mss) == 1500 - 20 - 20,
{
}

} // verus!
