//! The network layer.

pub mod icmpv4;
pub mod ip;
pub mod ipv4;
pub mod laws;

use crate::demikernel::config::Config;
use crate::inetstack::consts::MAX_BATCH_SIZE_NUM_PACKETS;
pub use crate::inetstack::protocols::layer3::icmpv4::peer::SharedIcmpv4Peer;
use crate::inetstack::protocols::layer3::icmpv4::header as icmpv4_header;
use crate::inetstack::protocols::layer3::icmpv4::peer::{
    fresh_packet, law_datagram_is_understood, next_seq_num, spec_compute_id, PeerView, Ping, PollActionView,
    PING_HEADROOM, PING_TIMEOUT,
};
use crate::inetstack::protocols::layer3::icmpv4::protocol::{Icmpv4Type2, ICMPV4_ECHO_REQUEST_MESSAGE_SIZE};
pub use crate::inetstack::protocols::layer3::ip::IpProtocol;
pub use crate::inetstack::protocols::layer3::ipv4::header::Ipv4Header;
use crate::inetstack::protocols::layer3::ipv4::header::{
    law_accepted_is_whole, law_parse_of_serialized, parse_error, parsed_header, stripped, IPV4_HEADER_MIN_SIZE,
};
use crate::runtime::errno::{eagain, EAGAIN};
use crate::runtime::fail::{fail_view, Fail};
use crate::runtime::memory::{BufferView, DemiBuffer};
use crate::runtime::network::{Ipv4Addr, MacAddress};
use arrayvec::ArrayVec;
use std::collections::VecDeque;
use vstd::prelude::*;

verus! {

/// Whether `addr` lies in the network of `local_addr`, as far as `mask` tells. Without a mask every address counts as
/// local.
pub open spec fn spec_is_local_address(addr: Ipv4Addr, local_addr: Ipv4Addr, mask: Option<Ipv4Addr>) -> bool {
    match mask {
        Some(mask) => addr.number() & mask.number() == local_addr.number() & mask.number(),
        None => true,
    }
}

/// The neighbour to which a datagram for `remote` goes first: the host itself if it is local, else the gateway, or
/// the host itself after all where no gateway is set up.
pub open spec fn spec_next_hop(
    remote: Ipv4Addr,
    local_addr: Ipv4Addr,
    mask: Option<Ipv4Addr>,
    gateway: Option<Ipv4Addr>,
) -> Ipv4Addr {
    if spec_is_local_address(remote, local_addr, mask) {
        remote
    } else {
        match gateway {
            Some(gw) => if gw == Ipv4Addr::spec_unspecified() { remote } else { gw },
            None => remote,
        }
    }
}

/// Whether `addr` lies in the network of `local_addr`, as far as `mask` tells.
pub fn is_local_address(addr: Ipv4Addr, local_addr: Ipv4Addr, mask: Option<Ipv4Addr>) -> (local: bool)
    ensures
        local == spec_is_local_address(addr, local_addr, mask),
{
    match mask {
        Some(mask_addr) => {
            let dest_bits: u32 = addr.to_bits();
            let local_bits: u32 = local_addr.to_bits();
            let mask_bits: u32 = mask_addr.to_bits();
            (dest_bits & mask_bits) == (local_bits & mask_bits)
        },
        // Without a mask networks cannot be told apart: deliver directly.
        None => true,
    }
}

/// The neighbour to which a datagram for `remote` goes first.
pub fn next_hop(
    remote: Ipv4Addr,
    local_addr: Ipv4Addr,
    mask: Option<Ipv4Addr>,
    gateway: Option<Ipv4Addr>,
) -> (hop: Ipv4Addr)
    ensures
        hop == spec_next_hop(remote, local_addr, mask, gateway),
{
    if is_local_address(remote, local_addr, mask) {
        remote
    } else {
        match gateway {
            Some(gw) => if gw.is_unspecified() {
                remote
            } else {
                gw
            },
            None => remote,
        }
    }
}

/// What a link layer frame carries.
#[derive(Clone, Copy, Debug, PartialEq, Eq, Structural)]
pub enum EtherType2 {
    /// Address Resolution Protocol.
    Arp,
    /// Internet Protocol version 4.
    Ipv4,
    /// Internet Protocol version 6.
    Ipv6,
}

/// The datagrams of a batch, in order.
pub uninterp spec fn batch_datagrams(
    batch: ArrayVec<(Ipv4Addr, IpProtocol, DemiBuffer), MAX_BATCH_SIZE_NUM_PACKETS>,
) -> Seq<(Ipv4Addr, IpProtocol, DemiBuffer)>;

/// `arrayvec::ArrayVec::new`: makes an empty batch.
#[verifier::external_body]
fn new_datagram_batch() -> (batch: ArrayVec<(Ipv4Addr, IpProtocol, DemiBuffer), MAX_BATCH_SIZE_NUM_PACKETS>)
    ensures
        batch_datagrams(batch) == Seq::<(Ipv4Addr, IpProtocol, DemiBuffer)>::empty(),
{
    ArrayVec::new()
}

/// `arrayvec::ArrayVec::push`: puts a datagram behind the others. It panics on a full batch, so there must be room.
#[verifier::external_body]
fn push_datagram(
    batch: &mut ArrayVec<(Ipv4Addr, IpProtocol, DemiBuffer), MAX_BATCH_SIZE_NUM_PACKETS>,
    datagram: (Ipv4Addr, IpProtocol, DemiBuffer),
)
    requires
        batch_datagrams(*old(batch)).len() < MAX_BATCH_SIZE_NUM_PACKETS,
    ensures
        batch_datagrams(*final(batch)) == batch_datagrams(*old(batch)).push(datagram),
{
    batch.push(datagram)
}

/// Where a frame goes.
pub enum Disposition {
    /// To the address resolution.
    Arp(BufferView),
    /// To the ICMPv4 peer.
    Icmpv4(Ipv4Header, BufferView),
    /// Up, to the transport layer.
    Up(Ipv4Addr, IpProtocol, BufferView),
    /// Nowhere.
    Dropped,
}

/// Whether a datagram with this destination is for the host `local_ip`.
pub open spec fn spec_is_for_us(local_ip: Ipv4Addr, dst: Ipv4Addr) -> bool {
    dst == local_ip || dst == Ipv4Addr::spec_broadcast()
}

/// Whether no host can have sent a datagram from this address.
pub open spec fn spec_bad_src(src: Ipv4Addr) -> bool {
    src == Ipv4Addr::spec_broadcast() || src.spec_is_multicast() || src == Ipv4Addr::spec_unspecified()
}

/// Where a frame that carries `packet` goes at the host `local_ip`.
pub open spec fn disposition(local_ip: Ipv4Addr, eth2_type: EtherType2, packet: BufferView) -> Disposition {
    let header = parsed_header(packet.data);
    match eth2_type {
        EtherType2::Arp => Disposition::Arp(packet),
        EtherType2::Ipv6 => Disposition::Dropped,
        EtherType2::Ipv4 => if parse_error(packet.data) is Some {
            Disposition::Dropped
        } else if !spec_is_for_us(local_ip, header.dst_addr) || spec_bad_src(header.src_addr) {
            Disposition::Dropped
        } else if header.protocol == IpProtocol::ICMPv4 {
            Disposition::Icmpv4(header, stripped(packet))
        } else {
            Disposition::Up(header.src_addr, header.protocol, stripped(packet))
        },
    }
}

/// Where each of some frames goes.
pub open spec fn dispositions(local_ip: Ipv4Addr, frames: Seq<(EtherType2, DemiBuffer)>) -> Seq<Disposition> {
    frames.map_values(|frame: (EtherType2, DemiBuffer)| disposition(local_ip, frame.0, frame.1@))
}

/// The packets that go to the address resolution, in order.
pub open spec fn to_arp(frames: Seq<Disposition>) -> Seq<BufferView>
    decreases frames.len(),
{
    if frames.len() == 0 {
        Seq::empty()
    } else {
        match frames.last() {
            Disposition::Arp(packet) => to_arp(frames.drop_last()).push(packet),
            _ => to_arp(frames.drop_last()),
        }
    }
}

/// The messages that go to the ICMPv4 peer, in order.
pub open spec fn to_icmpv4(frames: Seq<Disposition>) -> Seq<(Ipv4Header, BufferView)>
    decreases frames.len(),
{
    if frames.len() == 0 {
        Seq::empty()
    } else {
        match frames.last() {
            Disposition::Icmpv4(header, packet) => to_icmpv4(frames.drop_last()).push((header, packet)),
            _ => to_icmpv4(frames.drop_last()),
        }
    }
}

/// The datagrams that go up, in order.
pub open spec fn to_transport(frames: Seq<Disposition>) -> Seq<(Ipv4Addr, IpProtocol, BufferView)>
    decreases frames.len(),
{
    if frames.len() == 0 {
        Seq::empty()
    } else {
        match frames.last() {
            Disposition::Up(src, protocol, packet) => to_transport(frames.drop_last()).push((src, protocol, packet)),
            _ => to_transport(frames.drop_last()),
        }
    }
}

/// How many frames go nowhere.
pub open spec fn dropped(frames: Seq<Disposition>) -> nat
    decreases frames.len(),
{
    if frames.len() == 0 {
        0
    } else {
        dropped(frames.drop_last()) + match frames.last() {
            Disposition::Dropped => 1nat,
            _ => 0nat,
        }
    }
}

/// Datagrams, with the packets taken by their views.
pub open spec fn datagram_views(datagrams: Seq<(Ipv4Addr, IpProtocol, DemiBuffer)>) -> Seq<
    (Ipv4Addr, IpProtocol, BufferView),
> {
    datagrams.map_values(|datagram: (Ipv4Addr, IpProtocol, DemiBuffer)| (datagram.0, datagram.1, datagram.2@))
}

/// The state of a network layer endpoint.
#[verifier::ext_equal]
pub struct EndpointView {
    pub local_ip: Ipv4Addr,
    pub gateway_ipv4_addr: Option<Ipv4Addr>,
    pub local_netmask: Option<Ipv4Addr>,
    pub send_config_mss: usize,
    pub icmpv4: PeerView,
    /// Packets for the address resolution, oldest first.
    pub arp_queue: Seq<BufferView>,
}

/// One host's end of the network layer.
pub struct Layer3Endpoint {
    arp_queue: VecDeque<DemiBuffer>,
    /// The ICMPv4 peer.
    pub icmpv4: SharedIcmpv4Peer,
    local_ip: Ipv4Addr,
    gateway_ipv4_addr: Option<Ipv4Addr>,
    local_netmask: Option<Ipv4Addr>,
    send_config_mss: usize,
}

impl View for Layer3Endpoint {
    type V = EndpointView;

    closed spec fn view(&self) -> EndpointView {
        EndpointView {
            local_ip: self.local_ip,
            gateway_ipv4_addr: self.gateway_ipv4_addr,
            local_netmask: self.local_netmask,
            send_config_mss: self.send_config_mss,
            icmpv4: self.icmpv4@,
            arp_queue: self.arp_queue@.map_values(|packet: DemiBuffer| packet@),
        }
    }
}

/// The network layer endpoint of this host.
pub struct SharedLayer3Endpoint(pub Layer3Endpoint);

impl View for SharedLayer3Endpoint {
    type V = EndpointView;

    open spec fn view(&self) -> EndpointView {
        self.0@
    }
}

/// An IPv4 packet for the link layer, with what the network card needs to know to compute its checksums.
pub struct OffloadFrame {
    /// Link layer address of the neighbour.
    pub dst_mac: MacAddress,
    /// The packet.
    pub packet: DemiBuffer,
    /// Size of the IPv4 header (in bytes).
    pub l3_header_len: u8,
    /// Size of the transport layer header (in bytes).
    pub l4_header_len: u8,
    /// Protocol of the payload.
    pub protocol: IpProtocol,
}

impl EndpointView {
    /// The neighbour to which a datagram for `remote_ip` goes first.
    pub open spec fn next_hop(self, remote_ip: Ipv4Addr) -> Ipv4Addr {
        spec_next_hop(remote_ip, self.local_ip, self.local_netmask, self.gateway_ipv4_addr)
    }

    /// The datagram that carries `packet` to `remote_ip`.
    pub open spec fn datagram(self, remote_ip: Ipv4Addr, protocol: IpProtocol, packet: BufferView) -> BufferView {
        let header = Ipv4Header::spec_new(self.local_ip, remote_ip, protocol);
        packet.attach(header.wire_header(packet.data, self.icmpv4.ipv4_checksum_offload))
    }

    /// Whether `frame` is what the link layer gets when `packet` is sent to `remote_ip` through the neighbour with
    /// the link layer address `mac`.
    pub open spec fn is_transmission(
        self,
        frame: OffloadFrame,
        remote_ip: Ipv4Addr,
        mac: MacAddress,
        protocol: IpProtocol,
        l4_header_len: usize,
        packet: BufferView,
    ) -> bool {
        &&& frame.dst_mac == mac
        &&& frame.packet@ == self.datagram(remote_ip, protocol, packet)
        &&& frame.l3_header_len == 20
        &&& frame.l4_header_len == l4_header_len % 256
        &&& frame.protocol == protocol
    }
}

/// The maximum segment size that a setting stands for.
pub open spec fn spec_segment_size(mss: Option<u16>) -> usize {
    match mss {
        Some(size) => size as usize,
        None => 1460,
    }
}

fn segment_size(mss: Option<u16>) -> (size: usize)
    ensures
        size == spec_segment_size(mss),
{
    match mss {
        Some(size) => size as usize,
        None => 1460,
    }
}

impl SharedLayer3Endpoint {
    /// Sets up the endpoint. The settings must hold the address of this host and say whether checksums are
    /// offloaded. The maximum segment size is 1460 unless the settings say otherwise.
    pub fn new(config: &Config, rng_seed: [u8; 32]) -> (endpoint: Result<SharedLayer3Endpoint, Fail>)
        ensures
            match (config.local_ipv4_addr, config.tcp_checksum_offload) {
                (Err(fail), _) => endpoint is Err && endpoint->Err_0@ == fail@,
                (Ok(_), Err(fail)) => endpoint is Err && endpoint->Err_0@ == fail@,
                (Ok(addr), Ok(offload)) => endpoint is Ok && endpoint->Ok_0@ == (EndpointView {
                    local_ip: addr,
                    gateway_ipv4_addr: config.gateway_ipv4_addr,
                    local_netmask: config.local_netmask,
                    send_config_mss: spec_segment_size(config.mss),
                    icmpv4: PeerView {
                        local_ipv4_addr: addr,
                        gateway_ipv4_addr: config.gateway_ipv4_addr,
                        local_netmask: config.local_netmask,
                        ipv4_checksum_offload: offload,
                        recv_queue: Seq::empty(),
                        seq: 0,
                        inflight: Map::empty(),
                    },
                    arp_queue: Seq::empty(),
                }),
            },
    {
        let send_config_mss: usize = segment_size(config.mss());
        let icmpv4 = match SharedIcmpv4Peer::new(config, rng_seed) {
            Ok(peer) => peer,
            Err(fail) => return Err(fail),
        };
        let local_ip = match config.local_ipv4_addr() {
            Ok(addr) => addr,
            Err(fail) => return Err(fail),
        };
        let endpoint = Layer3Endpoint {
            arp_queue: VecDeque::new(),
            icmpv4,
            local_ip,
            gateway_ipv4_addr: config.gateway_ipv4_addr(),
            local_netmask: config.local_netmask(),
            send_config_mss,
        };
        assert(endpoint@.arp_queue =~= Seq::empty());
        Ok(SharedLayer3Endpoint(endpoint))
    }

    /// The neighbour whose link layer address is needed to send to `remote_ip`.
    pub fn get_next_hop(&self, remote_ip: Ipv4Addr) -> (hop: Ipv4Addr)
        ensures
            hop == self@.next_hop(remote_ip),
    {
        next_hop(remote_ip, self.0.local_ip, self.0.local_netmask, self.0.gateway_ipv4_addr)
    }

    /// Maximum segment size.
    pub fn send_config_mss(&self) -> (mss: usize)
        ensures
            mss == self@.send_config_mss,
    {
        self.0.send_config_mss
    }

    /// Sorts the frames that the link layer received: address resolution and ICMPv4 get theirs, and the datagrams for
    /// the transport layer are returned. A frame that is damaged, not for this host or from nowhere is dropped.
    pub fn receive(&mut self, frames: Result<Vec<(EtherType2, DemiBuffer)>, Fail>) -> (result: Result<
        ArrayVec<(Ipv4Addr, IpProtocol, DemiBuffer), MAX_BATCH_SIZE_NUM_PACKETS>,
        Fail,
    >)
        requires
            frames is Ok ==> frames->Ok_0@.len() <= MAX_BATCH_SIZE_NUM_PACKETS,
        ensures
            match frames {
                Err(fail) => result is Err && result->Err_0@ == fail@ && final(self)@ == old(self)@,
                Ok(frames) => {
                    let sorted = dispositions(old(self)@.local_ip, frames@);
                    let queue = old(self)@.icmpv4.recv_queue;
                    &&& result is Ok
                    &&& datagram_views(batch_datagrams(result->Ok_0)) == to_transport(sorted)
                    &&& final(self)@ == (EndpointView {
                        arp_queue: old(self)@.arp_queue + to_arp(sorted),
                        icmpv4: PeerView { recv_queue: queue + to_icmpv4(sorted), ..old(self)@.icmpv4 },
                        ..old(self)@
                    })
                },
            },
    {
        let mut pending = match frames {
            Ok(frames) => frames,
            Err(fail) => return Err(fail),
        };
        let ghost all = pending@;
        let ghost before = self@;
        let ghost sorted = dispositions(before.local_ip, all);
        let mut batch = new_datagram_batch();
        assert(datagram_views(batch_datagrams(batch)) =~= to_transport(sorted.take(0)));
        assert(self@.arp_queue =~= before.arp_queue + to_arp(sorted.take(0)));
        assert(self@.icmpv4.recv_queue =~= before.icmpv4.recv_queue + to_icmpv4(sorted.take(0)));
        let ghost mut done: int = 0;
        assert(pending@ =~= all.skip(0));
        while pending.len() > 0
            invariant
                0 <= done <= all.len() <= MAX_BATCH_SIZE_NUM_PACKETS,
                pending@ == all.skip(done),
                sorted == dispositions(before.local_ip, all),
                batch_datagrams(batch).len() <= done,
                datagram_views(batch_datagrams(batch)) == to_transport(sorted.take(done)),
                self@ == (EndpointView {
                    arp_queue: before.arp_queue + to_arp(sorted.take(done)),
                    icmpv4: PeerView {
                        recv_queue: before.icmpv4.recv_queue + to_icmpv4(sorted.take(done)),
                        ..before.icmpv4
                    },
                    ..before
                }),
            decreases pending.len(),
        {
            let (eth2_type, mut packet) = pending.remove(0);
            proof {
                assert(pending@ =~= all.skip(done + 1));
                assert(sorted.take(done + 1).drop_last() =~= sorted.take(done));
                assert(sorted.take(done + 1).last() == disposition(before.local_ip, eth2_type, packet@));
                done = done + 1;
            }
            match eth2_type {
                EtherType2::Arp => {
                    let ghost queue = self@.arp_queue;
                    self.0.arp_queue.push_back(packet);
                    assert(self@.arp_queue =~= queue.push(packet@));
                    assert(self@.arp_queue =~= before.arp_queue + to_arp(sorted.take(done)));
                },
                EtherType2::Ipv6 => {},
                EtherType2::Ipv4 => {
                    match Ipv4Header::parse_and_strip(&mut packet) {
                        Err(_) => {},
                        Ok(header) => {
                            if self.is_for_us(header) && !bad_src(header) {
                                let protocol = header.protocol();
                                match protocol {
                                    IpProtocol::ICMPv4 => {
                                        self.0.icmpv4.receive(header, packet);
                                        assert(self@.icmpv4.recv_queue =~= before.icmpv4.recv_queue + to_icmpv4(
                                            sorted.take(done),
                                        ));
                                    },
                                    _ => {
                                        let ghost up = batch_datagrams(batch);
                                        push_datagram(&mut batch, (header.src_addr(), protocol, packet));
                                        assert(datagram_views(batch_datagrams(batch)) =~= datagram_views(up).push(
                                            (header.src_addr, protocol, packet@),
                                        ));
                                    },
                                }
                            }
                        },
                    }
                },
            }
        }
        assert(sorted.take(done) =~= sorted);
        Ok(batch)
    }

    /// Hands over the oldest packet for the address resolution, if there is one.
    pub fn next_arp_packet(&mut self) -> (packet: Option<DemiBuffer>)
        ensures
            match packet {
                None => old(self)@.arp_queue.len() == 0 && final(self)@ == old(self)@,
                Some(packet) => {
                    &&& old(self)@.arp_queue.len() > 0
                    &&& packet@ == old(self)@.arp_queue[0]
                    &&& final(self)@ == (EndpointView { arp_queue: old(self)@.arp_queue.skip(1), ..old(self)@ })
                },
            },
    {
        let packet = self.0.arp_queue.pop_front();
        proof {
            if packet is Some {
                assert(self@.arp_queue =~= old(self)@.arp_queue.skip(1));
            }
        }
        packet
    }

    /// Whether a datagram is for this host.
    pub fn is_for_us(&self, header: Ipv4Header) -> (yes: bool)
        ensures
            yes == spec_is_for_us(self@.local_ip, header.dst_addr),
    {
        let dst = header.dst_addr();
        dst == self.0.local_ip || dst.is_broadcast()
    }

    /// Sends a TCP segment, if the link layer address of the next hop is known: `remote_mac` is what the address
    /// resolution knows of [`SharedLayer3Endpoint::get_next_hop`]. The packet must have headroom for the header.
    pub fn transmit_tcp_packet_nonblocking(
        &self,
        remote_ip: Ipv4Addr,
        l4_header_len: usize,
        pkt: DemiBuffer,
        remote_mac: Option<MacAddress>,
    ) -> (frame: Result<OffloadFrame, Fail>)
        requires
            remote_mac is Some ==> pkt@.head.len() >= IPV4_HEADER_MIN_SIZE,
        ensures
            match remote_mac {
                Some(mac) => {
                    &&& frame is Ok
                    &&& self@.is_transmission(frame->Ok_0, remote_ip, mac, IpProtocol::TCP, l4_header_len, pkt@)
                },
                None => frame is Err && frame->Err_0@ == fail_view(EAGAIN, "destination not in ARP cache"@),
            },
    {
        match remote_mac {
            Some(mac) => Ok(self.transmit_packet(remote_ip, mac, IpProtocol::TCP, l4_header_len, pkt)),
            None => Err(Fail::new(eagain(), "destination not in ARP cache")),
        }
    }

    /// Sends a TCP segment once the query for the link layer address of [`SharedLayer3Endpoint::get_next_hop`] brought
    /// `remote_mac`. The packet must have headroom for the header.
    pub fn transmit_tcp_packet_blocking(
        &self,
        remote_ip: Ipv4Addr,
        l4_header_len: usize,
        pkt: DemiBuffer,
        remote_mac: Result<MacAddress, Fail>,
    ) -> (frame: Result<OffloadFrame, Fail>)
        requires
            remote_mac is Ok ==> pkt@.head.len() >= IPV4_HEADER_MIN_SIZE,
        ensures
            match remote_mac {
                Ok(mac) => {
                    &&& frame is Ok
                    &&& self@.is_transmission(frame->Ok_0, remote_ip, mac, IpProtocol::TCP, l4_header_len, pkt@)
                },
                Err(fail) => frame is Err && frame->Err_0@ == fail@,
            },
    {
        match remote_mac {
            Ok(mac) => Ok(self.transmit_packet(remote_ip, mac, IpProtocol::TCP, l4_header_len, pkt)),
            Err(fail) => Err(fail),
        }
    }

    /// Sends a UDP datagram once the query for the link layer address of [`SharedLayer3Endpoint::get_next_hop`]
    /// brought `remote_mac`. The packet must have headroom for the header.
    pub fn transmit_udp_packet_blocking(
        &self,
        remote_ip: Ipv4Addr,
        l4_header_len: usize,
        pkt: DemiBuffer,
        remote_mac: Result<MacAddress, Fail>,
    ) -> (frame: Result<OffloadFrame, Fail>)
        requires
            remote_mac is Ok ==> pkt@.head.len() >= IPV4_HEADER_MIN_SIZE,
        ensures
            match remote_mac {
                Ok(mac) => {
                    &&& frame is Ok
                    &&& self@.is_transmission(frame->Ok_0, remote_ip, mac, IpProtocol::UDP, l4_header_len, pkt@)
                },
                Err(fail) => frame is Err && frame->Err_0@ == fail@,
            },
    {
        match remote_mac {
            Ok(mac) => Ok(self.transmit_packet(remote_ip, mac, IpProtocol::UDP, l4_header_len, pkt)),
            Err(fail) => Err(fail),
        }
    }

    /// Puts the IPv4 header in front of a packet, which must have the headroom, and makes it up for the link layer.
    /// `remote_ip` is the host that the packet is for, and `remote_mac` the neighbour that it goes to first.
    pub fn transmit_packet(
        &self,
        remote_ip: Ipv4Addr,
        remote_mac: MacAddress,
        ip_protocol: IpProtocol,
        l4_header_len: usize,
        pkt: DemiBuffer,
    ) -> (frame: OffloadFrame)
        requires
            pkt@.head.len() >= IPV4_HEADER_MIN_SIZE,
        ensures
            self@.is_transmission(frame, remote_ip, remote_mac, ip_protocol, l4_header_len, pkt@),
    {
        let header = Ipv4Header::new(self.0.local_ip, remote_ip, ip_protocol);
        let ihl: usize = header.compute_size();
        let mut packet = pkt;
        header.serialize_and_attach(&mut packet, self.checksum_offload());
        OffloadFrame {
            dst_mac: remote_mac,
            packet,
            l3_header_len: low_bits(ihl),
            l4_header_len: low_bits(l4_header_len),
            protocol: ip_protocol,
        }
    }

    /// Whether the network card computes the checksums of IPv4 headers.
    fn checksum_offload(&self) -> (offload: bool)
        ensures
            offload == self@.icmpv4.ipv4_checksum_offload,
    {
        self.0.icmpv4.checksum_offload()
    }

    /// Starts a ping from this host.
    pub fn ping(&mut self, timeout: Option<u64>, pid: u32, now: u64) -> (start: (Ping, Icmpv4Type2, DemiBuffer))
        ensures
            ({
                let (ping, request, packet) = start;
                &&& exists|nonce: Seq<u8>|
                    nonce.len() == 2 && ping.id == #[trigger] spec_compute_id(
                        old(self)@.icmpv4.local_ipv4_addr,
                        pid,
                        nonce,
                    )
                &&& ping.seq_num == old(self)@.icmpv4.seq
                &&& ping.t0 == now
                &&& ping.timeout == timeout.unwrap_or(PING_TIMEOUT)
                &&& request == (Icmpv4Type2::EchoRequest { id: ping.id, seq_num: ping.seq_num })
                &&& packet@ == fresh_packet(PING_HEADROOM, ICMPV4_ECHO_REQUEST_MESSAGE_SIZE)
            }),
            final(self)@ == (EndpointView {
                icmpv4: PeerView { seq: next_seq_num(old(self)@.icmpv4.seq), ..old(self)@.icmpv4 },
                ..old(self)@
            }),
    {
        self.0.icmpv4.ping(timeout, pid, now)
    }

    /// Address of this host.
    pub fn get_local_addr(&self) -> (addr: Ipv4Addr)
        ensures
            addr == self@.local_ip,
    {
        self.0.local_ip
    }
}

/// The low eight bits of a size.
fn low_bits(size: usize) -> (bits: u8)
    ensures
        bits == size % 256,
{
    (size % 256) as u8
}

/// Whether no host can have sent a datagram with this header.
pub fn bad_src(hdr: Ipv4Header) -> (bad: bool)
    ensures
        bad == spec_bad_src(hdr.src_addr),
{
    let src = hdr.src_addr();
    src.is_broadcast() || src.is_multicast() || src.is_unspecified()
}

/// Every frame goes to exactly one place.
pub proof fn law_frames_are_accounted_for(local_ip: Ipv4Addr, frames: Seq<(EtherType2, DemiBuffer)>)
    ensures
        ({
            let sorted = dispositions(local_ip, frames);
            to_arp(sorted).len() + to_icmpv4(sorted).len() + to_transport(sorted).len() + dropped(sorted)
                == frames.len()
        }),
    decreases frames.len(),
{
    if frames.len() > 0 {
        law_frames_are_accounted_for(local_ip, frames.drop_last());
        assert(dispositions(local_ip, frames).drop_last() =~= dispositions(local_ip, frames.drop_last()));
    }
}

/// A datagram that goes up came in a frame whose datagram is whole, is for this host, and is from an address that a
/// host can have.
pub proof fn law_only_sound_datagrams_go_up(local_ip: Ipv4Addr, eth2_type: EtherType2, packet: BufferView)
    requires
        disposition(local_ip, eth2_type, packet) is Up || disposition(local_ip, eth2_type, packet) is Icmpv4,
    ensures
        eth2_type == EtherType2::Ipv4,
        parse_error(packet.data) is None,
        spec_is_for_us(local_ip, parsed_header(packet.data).dst_addr),
        !spec_bad_src(parsed_header(packet.data).src_addr),
{
}

/// A message for the ICMPv4 peer leaves the headroom that the header in front of it took up, so that an answer fits
/// into its buffer.
pub proof fn law_messages_have_headroom(local_ip: Ipv4Addr, eth2_type: EtherType2, packet: BufferView)
    ensures
        match disposition(local_ip, eth2_type, packet) {
            Disposition::Icmpv4(_, message) => message.head.len() >= packet.head.len() + 20,
            _ => true,
        },
{
    if parse_error(packet.data) is None {
        law_accepted_is_whole(packet);
    }
}

/// What one host sends to another goes up there, as it was sent: the host `remote_ip` takes the datagram that
/// `sender` makes up, with padding or without, for a packet of that protocol from the sender's address.
pub proof fn law_transmission_arrives(
    sender: EndpointView,
    remote_ip: Ipv4Addr,
    protocol: IpProtocol,
    packet: BufferView,
    arrived: BufferView,
    padding: Seq<u8>,
)
    requires
        packet.wf(),
        packet.head.len() >= 20,
        protocol != IpProtocol::ICMPv4,
        !sender.icmpv4.ipv4_checksum_offload,
        !spec_bad_src(sender.local_ip),
        arrived.data == sender.datagram(remote_ip, protocol, packet).data + padding,
    ensures
        match disposition(remote_ip, EtherType2::Ipv4, arrived) {
            Disposition::Up(src, kind, payload) => {
                &&& src == sender.local_ip
                &&& kind == protocol
                &&& payload.data == packet.data
            },
            _ => false,
        },
{
    let header = Ipv4Header::spec_new(sender.local_ip, remote_ip, protocol);
    law_parse_of_serialized(header, packet.data, padding);
    law_accepted_is_whole(arrived);
}

/// A message that one host sends to another goes to the ICMPv4 peer there, which finds in it what was sent.
#[verifier::rlimit(50)]
proof fn lemma_message_arrives(
    sender: PeerView,
    message: Icmpv4Type2,
    dst_ip: Ipv4Addr,
    packet: BufferView,
    arrived: BufferView,
    padding: Seq<u8>,
)
    requires
        packet.wf(),
        packet.head.len() >= 28,
        !sender.ipv4_checksum_offload,
        !spec_bad_src(sender.local_ipv4_addr),
        arrived.wf(),
        arrived.data == sender.datagram(message, dst_ip, packet).data + padding,
    ensures
        ({
            let header = parsed_header(arrived.data);
            let received = stripped(arrived);
            &&& disposition(dst_ip, EtherType2::Ipv4, arrived) == Disposition::Icmpv4(header, received)
            &&& header.src_addr == sender.local_ipv4_addr
            &&& icmpv4_header::parse_error(received.data) is None
            &&& icmpv4_header::parsed_header(received.data).protocol == message
            &&& received.data.skip(8) == packet.data
            &&& received.data.len() >= 8
            &&& received.wf()
            &&& received.head.len() >= 20
        }),
{
    law_datagram_is_understood(sender, message, dst_ip, packet, padding);
    law_accepted_is_whole(arrived);
}

/// A ping that gets through is answered: the host that it reaches sends back a reply with the same bytes, and the
/// reply, when it gets through, wakes the ping.
#[verifier::rlimit(50)]
pub proof fn law_ping_round_trip(
    sender: PeerView,
    host: PeerView,
    id: u16,
    seq_num: u16,
    packet: BufferView,
    request: BufferView,
    request_padding: Seq<u8>,
    reply: BufferView,
    reply_padding: Seq<u8>,
)
    requires
        sender.awaits(id, seq_num),
        !sender.ipv4_checksum_offload,
        !host.ipv4_checksum_offload,
        !spec_bad_src(sender.local_ipv4_addr),
        !spec_bad_src(host.local_ipv4_addr),
        packet.wf(),
        packet.head.len() >= 28,
        request.wf(),
        request.data == sender.datagram(
            Icmpv4Type2::EchoRequest { id, seq_num },
            host.local_ipv4_addr,
            packet,
        ).data + request_padding,
    ensures
        match disposition(host.local_ipv4_addr, EtherType2::Ipv4, request) {
            Disposition::Icmpv4(header, message) => match host.action_for(header, message) {
                PollActionView::Reply { message: answer, dst_ip, packet: rest } => {
                    &&& answer == (Icmpv4Type2::EchoReply { id, seq_num })
                    &&& dst_ip == sender.local_ipv4_addr
                    &&& rest.data == packet.data
                    &&& reply.wf() && reply.data == host.datagram(answer, dst_ip, rest).data + reply_padding ==> {
                        match disposition(sender.local_ipv4_addr, EtherType2::Ipv4, reply) {
                            Disposition::Icmpv4(header, message) => {
                                sender.action_for(header, message) == (PollActionView::Signal { id, seq_num })
                            },
                            _ => false,
                        }
                    }
                },
                _ => false,
            },
            _ => false,
        },
{
    let ask = Icmpv4Type2::EchoRequest { id, seq_num };
    let answer = Icmpv4Type2::EchoReply { id, seq_num };
    lemma_message_arrives(sender, ask, host.local_ipv4_addr, packet, request, request_padding);
    let rest = stripped(request).adjust(8);
    if reply.wf() && reply.data == host.datagram(answer, sender.local_ipv4_addr, rest).data + reply_padding {
        lemma_message_arrives(host, answer, sender.local_ipv4_addr, rest, reply, reply_padding);
    }
}

/// Datagrams for hosts of the local network go to these hosts themselves, and datagrams for others go to the gateway
/// if there is one.
pub proof fn law_next_hop(remote: Ipv4Addr, local_addr: Ipv4Addr, mask: Option<Ipv4Addr>, gateway: Ipv4Addr)
    requires
        gateway != Ipv4Addr::spec_unspecified(),
    ensures
        spec_next_hop(remote, local_addr, None, Some(gateway)) == remote,
        spec_next_hop(local_addr, local_addr, mask, Some(gateway)) == local_addr,
        spec_next_hop(remote, local_addr, mask, None) == remote,
        spec_next_hop(remote, local_addr, mask, Some(Ipv4Addr::spec_unspecified())) == remote,
        spec_next_hop(remote, local_addr, mask, Some(gateway)) == (if spec_is_local_address(remote, local_addr, mask) {
            remote
        } else {
            gateway
        }),
{
}

} // verus!
