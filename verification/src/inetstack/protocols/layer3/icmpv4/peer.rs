//! The ICMPv4 peer: it answers echo requests, and pings other hosts.

use crate::demikernel::config::Config;
use crate::inetstack::protocols::layer3::icmpv4::header as icmpv4_header;
use crate::inetstack::protocols::layer3::icmpv4::header::{Icmpv4Header, ICMPV4_HEADER_SIZE};
use crate::inetstack::protocols::layer3::icmpv4::protocol::{Icmpv4Type2, ICMPV4_ECHO_REQUEST_MESSAGE_SIZE};
use crate::inetstack::protocols::layer3::ip::IpProtocol;
use crate::inetstack::protocols::layer3::ipv4::header as ipv4_header;
use crate::inetstack::protocols::layer3::ipv4::header::{Ipv4Header, IPV4_HEADER_MIN_SIZE};
pub use crate::inetstack::protocols::layer3::is_local_address;
use crate::inetstack::protocols::layer3::{next_hop, spec_next_hop};
use crate::inetstack::protocols::{be16, decode_be16, fold16, ones_complement};
use crate::runtime::errno::{eagain, etimedout, EAGAIN, ETIMEDOUT};
use crate::runtime::fail::{fail_view, Fail};
use crate::runtime::memory::{zeros, BufferView, DemiBuffer};
use crate::runtime::network::{Ipv4Addr, MacAddress};
use rand::rngs::SmallRng;
use rand::{Rng, SeedableRng};
use std::collections::{HashMap, VecDeque};
use vstd::prelude::*;
use vstd::std_specs::hash::group_hash_axioms;

verus! {

broadcast use group_hash_axioms;

/// How long to wait for the answer to a ping unless the caller says otherwise (in nanoseconds).
pub const PING_TIMEOUT: u64 = 5_000_000_000;

/// Room for the headers of an echo request: 8 bytes for ICMPv4, 20 for IPv4 and 14 for Ethernet II.
pub const PING_HEADROOM: u16 = 42;

/// Declares `rand::rngs::SmallRng`, a random number generator.
#[verifier::external_type_specification]
#[verifier::external_body]
pub struct ExSmallRng(rand::rngs::SmallRng);

/// `rand::SeedableRng::from_seed`: makes a generator that starts from `seed`. Nothing is said of the generator; the
/// numbers that come out of it may differ from machine to machine.
#[verifier::external_body]
fn seed_rng(seed: [u8; 32]) -> (rng: SmallRng) {
    SmallRng::from_seed(seed)
}

/// `rand::Rng::gen`: draws two random bytes. Any two bytes may come out.
#[verifier::external_body]
fn draw_nonce(rng: &mut SmallRng) -> (nonce: [u8; 2]) {
    rng.gen()
}

/// Where an echo request that was sent stands.
#[derive(Clone, Copy, Debug, PartialEq, Eq, Structural)]
pub enum InflightRequest {
    /// The answer is awaited.
    Inflight,
    /// The answer has come.
    Complete,
}

/// The number under which the request with this identifier and sequence number is kept.
spec fn spec_request_key(id: u16, seq_num: u16) -> u32 {
    (id * 0x1_0000 + seq_num) as u32
}

fn request_key(id: u16, seq_num: u16) -> (key: u32)
    ensures
        key == spec_request_key(id, seq_num),
{
    id as u32 * 0x1_0000 + seq_num as u32
}

/// The state of a peer.
#[verifier::ext_equal]
pub struct PeerView {
    pub local_ipv4_addr: Ipv4Addr,
    pub gateway_ipv4_addr: Option<Ipv4Addr>,
    pub local_netmask: Option<Ipv4Addr>,
    pub ipv4_checksum_offload: bool,
    /// Messages received and not yet looked at, oldest first.
    pub recv_queue: Seq<(Ipv4Header, BufferView)>,
    /// Sequence number of the next request.
    pub seq: u16,
    /// Requests that were sent, by identifier and sequence number.
    pub inflight: Map<(u16, u16), InflightRequest>,
}

/// The Internet Control Message Protocol (RFC 792) as one host takes part in it.
pub struct Icmpv4Peer {
    local_ipv4_addr: Ipv4Addr,
    gateway_ipv4_addr: Option<Ipv4Addr>,
    local_netmask: Option<Ipv4Addr>,
    /// Whether the network card computes the checksums of IPv4 headers.
    pub ipv4_checksum_offload: bool,
    recv_queue: VecDeque<(Ipv4Header, DemiBuffer)>,
    seq: u16,
    rng: SmallRng,
    inflight: HashMap<u32, InflightRequest>,
}

/// A message that waits to be looked at.
pub open spec fn queued(entry: (Ipv4Header, DemiBuffer)) -> (Ipv4Header, BufferView) {
    (entry.0, entry.1@)
}

impl View for Icmpv4Peer {
    type V = PeerView;

    closed spec fn view(&self) -> PeerView {
        PeerView {
            local_ipv4_addr: self.local_ipv4_addr,
            gateway_ipv4_addr: self.gateway_ipv4_addr,
            local_netmask: self.local_netmask,
            ipv4_checksum_offload: self.ipv4_checksum_offload,
            recv_queue: self.recv_queue@.map_values(|entry: (Ipv4Header, DemiBuffer)| queued(entry)),
            seq: self.seq,
            inflight: Map::new(
                |key: (u16, u16)| self.inflight@.contains_key(spec_request_key(key.0, key.1)),
                |key: (u16, u16)| self.inflight@[spec_request_key(key.0, key.1)],
            ),
        }
    }
}

/// The peer of this host.
pub struct SharedIcmpv4Peer(pub Icmpv4Peer);

impl View for SharedIcmpv4Peer {
    type V = PeerView;

    open spec fn view(&self) -> PeerView {
        self.0@
    }
}

/// The identifier that is made of an address, a process number and two random bytes: the checksum over them.
pub open spec fn spec_compute_id(addr: Ipv4Addr, pid: u32, nonce: Seq<u8>) -> u16 {
    let sum = 0xffff + be16(addr.a, addr.b) + be16(addr.c, addr.d) + pid / 0x1_0000 + pid % 0x1_0000 + be16(
        nonce[0],
        nonce[1],
    );
    (0xffff - ones_complement(sum as nat)) as u16
}

/// Computes the identifier for an ICMP message.
pub fn compute_id(addr: Ipv4Addr, pid: u32, nonce: [u8; 2]) -> (id: u16)
    ensures
        id == spec_compute_id(addr, pid, nonce@),
{
    let mut state: u32 = 0xffff;
    state = state + decode_be16(addr.a, addr.b) as u32;
    state = state + decode_be16(addr.c, addr.d) as u32;
    state = state + pid / 0x1_0000;
    state = state + pid % 0x1_0000;
    state = state + decode_be16(nonce[0], nonce[1]) as u32;
    fold16(state)
}

/// A zeroed packet of `size` bytes behind `headroom` bytes of headroom.
pub open spec fn fresh_packet(headroom: u16, size: u16) -> BufferView {
    BufferView { head: zeros(headroom as nat), data: zeros(size as nat), tail: Seq::empty(), dpdk: false }
}

/// The sequence number that follows `seq`.
pub open spec fn next_seq_num(seq: u16) -> u16 {
    ((seq + 1) % 0x1_0000) as u16
}

/// What the background task does about one message.
pub enum PollAction {
    /// Send a message to a host.
    Reply { message: Icmpv4Type2, dst_ip: Ipv4Addr, packet: DemiBuffer },
    /// Wake the ping that sent this request.
    Signal { id: u16, seq_num: u16 },
    /// Nothing.
    Ignore,
}

/// How the background task goes on.
pub enum PollStep {
    /// It does this about the message and waits for the next one.
    GoOn(PollAction),
    /// It ends.
    End,
}

/// A [`PollAction`], with the packet taken by its view.
pub enum PollActionView {
    Reply { message: Icmpv4Type2, dst_ip: Ipv4Addr, packet: BufferView },
    Signal { id: u16, seq_num: u16 },
    Ignore,
}

impl View for PollAction {
    type V = PollActionView;

    open spec fn view(&self) -> PollActionView {
        match *self {
            PollAction::Reply { message, dst_ip, packet } => PollActionView::Reply { message, dst_ip, packet: packet@ },
            PollAction::Signal { id, seq_num } => PollActionView::Signal { id, seq_num },
            PollAction::Ignore => PollActionView::Ignore,
        }
    }
}

impl PeerView {
    /// Whether an answer to this request is awaited.
    pub open spec fn awaits(self, id: u16, seq_num: u16) -> bool {
        &&& self.inflight.contains_key((id, seq_num))
        &&& self.inflight[(id, seq_num)] == InflightRequest::Inflight
    }

    /// What is done about the message `packet` that came with the IPv4 header `header`.
    pub open spec fn action_for(self, header: Ipv4Header, packet: BufferView) -> PollActionView {
        if icmpv4_header::parse_error(packet.data) is Some {
            PollActionView::Ignore
        } else {
            match icmpv4_header::parsed_header(packet.data).protocol {
                Icmpv4Type2::EchoRequest { id, seq_num } => PollActionView::Reply {
                    message: Icmpv4Type2::EchoReply { id, seq_num },
                    dst_ip: header.src_addr,
                    packet: packet.adjust(8),
                },
                Icmpv4Type2::EchoReply { id, seq_num } => if self.awaits(id, seq_num) {
                    PollActionView::Signal { id, seq_num }
                } else {
                    PollActionView::Ignore
                },
                _ => PollActionView::Ignore,
            }
        }
    }

    /// The peer after the action `action` was taken: a request whose ping is woken is complete.
    pub open spec fn after(self, action: PollActionView) -> PeerView {
        match action {
            PollActionView::Signal { id, seq_num } => PeerView {
                inflight: self.inflight.insert((id, seq_num), InflightRequest::Complete),
                ..self
            },
            _ => self,
        }
    }

    /// The packet that carries `message`, with the bytes of `packet` behind it, to `dst_ip`.
    pub open spec fn datagram(self, message: Icmpv4Type2, dst_ip: Ipv4Addr, packet: BufferView) -> BufferView {
        let with_icmp = packet.attach((Icmpv4Header { protocol: message, code: 0 }).wire_header(packet.data));
        let ip = Ipv4Header::spec_new(self.local_ipv4_addr, dst_ip, IpProtocol::ICMPv4);
        with_icmp.attach(ip.wire_header(with_icmp.data, self.ipv4_checksum_offload))
    }

    /// The neighbour to which a datagram for `dst_ip` goes first.
    pub open spec fn next_hop(self, dst_ip: Ipv4Addr) -> Ipv4Addr {
        spec_next_hop(dst_ip, self.local_ipv4_addr, self.local_netmask, self.gateway_ipv4_addr)
    }
}

/// An IPv4 packet for the link layer.
pub struct Ipv4Frame {
    /// Link layer address of the neighbour.
    pub dst_mac: MacAddress,
    /// The packet.
    pub packet: DemiBuffer,
}

/// A ping under way.
#[derive(Clone, Copy, Debug)]
pub struct Ping {
    /// Identifier of the request.
    pub id: u16,
    /// Sequence number of the request.
    pub seq_num: u16,
    /// When it was started (in nanoseconds).
    pub t0: u64,
    /// How long to wait for the answer (in nanoseconds).
    pub timeout: u64,
}

impl SharedIcmpv4Peer {
    /// Sets up the peer. The settings must hold the address of this host and say whether checksums are offloaded.
    pub fn new(config: &Config, rng_seed: [u8; 32]) -> (peer: Result<SharedIcmpv4Peer, Fail>)
        ensures
            match (config.local_ipv4_addr, config.tcp_checksum_offload) {
                (Err(fail), _) => peer is Err && peer->Err_0@ == fail@,
                (Ok(_), Err(fail)) => peer is Err && peer->Err_0@ == fail@,
                (Ok(addr), Ok(offload)) => peer is Ok && peer->Ok_0@ == (PeerView {
                    local_ipv4_addr: addr,
                    gateway_ipv4_addr: config.gateway_ipv4_addr,
                    local_netmask: config.local_netmask,
                    ipv4_checksum_offload: offload,
                    recv_queue: Seq::empty(),
                    seq: 0,
                    inflight: Map::empty(),
                }),
            },
    {
        let rng = seed_rng(rng_seed);
        let local_ipv4_addr = match config.local_ipv4_addr() {
            Ok(addr) => addr,
            Err(fail) => return Err(fail),
        };
        let ipv4_checksum_offload = match config.tcp_checksum_offload() {
            Ok(offload) => offload,
            Err(fail) => return Err(fail),
        };
        let peer = Icmpv4Peer {
            local_ipv4_addr,
            gateway_ipv4_addr: config.gateway_ipv4_addr(),
            local_netmask: config.local_netmask(),
            ipv4_checksum_offload,
            recv_queue: VecDeque::new(),
            seq: 0,
            rng,
            inflight: HashMap::new(),
        };
        assert(peer@.recv_queue =~= Seq::empty());
        assert(peer@.inflight =~= Map::empty());
        Ok(SharedIcmpv4Peer(peer))
    }

    /// Whether the network card computes the checksums of IPv4 headers.
    pub fn checksum_offload(&self) -> (offload: bool)
        ensures
            offload == self@.ipv4_checksum_offload,
    {
        self.0.ipv4_checksum_offload
    }

    /// Puts a message behind those that wait to be looked at.
    pub fn receive(&mut self, header: Ipv4Header, buffer: DemiBuffer)
        ensures
            final(self)@ == (PeerView { recv_queue: old(self)@.recv_queue.push((header, buffer@)), ..old(self)@ }),
    {
        self.0.recv_queue.push_back((header, buffer));
        assert(self@.recv_queue =~= old(self)@.recv_queue.push((header, buffer@)));
    }

    /// How long the background task waits for a message before it ends (in nanoseconds).
    pub fn poll_timeout(&self) -> (timeout: u64)
        ensures
            timeout == PING_TIMEOUT,
    {
        PING_TIMEOUT
    }

    /// Takes the oldest message that waits to be looked at, if there is one.
    pub fn next_message(&mut self) -> (message: Option<(Ipv4Header, DemiBuffer)>)
        ensures
            match message {
                None => old(self)@.recv_queue.len() == 0 && final(self)@ == old(self)@,
                Some(message) => {
                    let queue = old(self)@.recv_queue;
                    &&& queue.len() > 0
                    &&& queued(message) == queue[0]
                    &&& final(self)@ == (PeerView { recv_queue: queue.skip(1), ..old(self)@ })
                },
            },
    {
        let message = self.0.recv_queue.pop_front();
        proof {
            if message is Some {
                assert(self@.recv_queue =~= old(self)@.recv_queue.skip(1));
            }
        }
        message
    }

    /// One round of the background task, which waited for a message: goes on with the message that came in time, and
    /// ends if none did.
    pub fn poll(&mut self, popped: Result<(Ipv4Header, DemiBuffer), Fail>) -> (step: PollStep)
        ensures
            match popped {
                Ok((header, buffer)) => {
                    &&& step matches PollStep::GoOn(action)
                    &&& action@ == old(self)@.action_for(header, buffer@)
                    &&& final(self)@ == old(self)@.after(action@)
                },
                Err(_) => step is End && final(self)@ == old(self)@,
            },
    {
        match popped {
            Ok((header, buffer)) => PollStep::GoOn(self.process(header, buffer)),
            Err(_) => PollStep::End,
        }
    }

    /// Decides what to do about one message, and marks the request that it answers as complete.
    pub fn process(&mut self, header: Ipv4Header, buffer: DemiBuffer) -> (action: PollAction)
        ensures
            action@ == old(self)@.action_for(header, buffer@),
            final(self)@ == old(self)@.after(action@),
    {
        let mut packet = buffer;
        let icmpv4_hdr = match Icmpv4Header::parse_and_strip(&mut packet) {
            Ok(hdr) => hdr,
            Err(_) => return PollAction::Ignore,
        };
        match icmpv4_hdr.get_protocol() {
            Icmpv4Type2::EchoRequest { id, seq_num } => {
                PollAction::Reply {
                    message: Icmpv4Type2::EchoReply { id, seq_num },
                    dst_ip: header.src_addr(),
                    packet,
                }
            },
            Icmpv4Type2::EchoReply { id, seq_num } => {
                if self.is_awaited(id, seq_num) {
                    self.record(id, seq_num, InflightRequest::Complete);
                    PollAction::Signal { id, seq_num }
                } else {
                    PollAction::Ignore
                }
            },
            _ => PollAction::Ignore,
        }
    }

    /// Whether an answer to this request is awaited.
    pub fn is_awaited(&self, id: u16, seq_num: u16) -> (awaited: bool)
        ensures
            awaited == self@.awaits(id, seq_num),
    {
        match self.0.inflight.get(&request_key(id, seq_num)) {
            Some(request) => *request == InflightRequest::Inflight,
            None => false,
        }
    }

    /// Records where a request stands.
    fn record(&mut self, id: u16, seq_num: u16, request: InflightRequest)
        ensures
            final(self)@ == (PeerView { inflight: old(self)@.inflight.insert((id, seq_num), request), ..old(self)@ }),
    {
        self.0.inflight.insert(request_key(id, seq_num), request);
        assert(self@.inflight =~= old(self)@.inflight.insert((id, seq_num), request));
    }

    /// Forgets a request.
    fn forget(&mut self, id: u16, seq_num: u16)
        ensures
            final(self)@ == (PeerView { inflight: old(self)@.inflight.remove((id, seq_num)), ..old(self)@ }),
    {
        self.0.inflight.remove(&request_key(id, seq_num));
        assert(self@.inflight =~= old(self)@.inflight.remove((id, seq_num)));
    }

    /// Makes an identifier for an ICMP message, out of the address of this host, the number of this process and two
    /// random bytes.
    pub fn make_id(&mut self, pid: u32) -> (id: u16)
        ensures
            final(self)@ == old(self)@,
            exists|nonce: Seq<u8>|
                nonce.len() == 2 && id == #[trigger] spec_compute_id(old(self)@.local_ipv4_addr, pid, nonce),
    {
        let nonce: [u8; 2] = draw_nonce(&mut self.0.rng);
        let id: u16 = compute_id(self.0.local_ipv4_addr, pid, nonce);
        assert(id == spec_compute_id(self@.local_ipv4_addr, pid, nonce@));
        id
    }

    /// Makes a sequence number for an ICMP message.
    pub fn make_seq_num(&mut self) -> (seq_num: u16)
        ensures
            seq_num == old(self)@.seq,
            final(self)@ == (PeerView { seq: next_seq_num(old(self)@.seq), ..old(self)@ }),
    {
        let seq_num: u16 = self.0.seq;
        self.0.seq = seq_num.wrapping_add(1);
        seq_num
    }

    /// Starts a ping: makes up an echo request, which [`SharedIcmpv4Peer::send_packet`] is to send in front of the
    /// packet that is returned with it.
    pub fn ping(&mut self, timeout: Option<u64>, pid: u32, now: u64) -> (start: (Ping, Icmpv4Type2, DemiBuffer))
        ensures
            ({
                let (ping, request, packet) = start;
                &&& exists|nonce: Seq<u8>|
                    nonce.len() == 2 && ping.id == #[trigger] spec_compute_id(old(self)@.local_ipv4_addr, pid, nonce)
                &&& ping.seq_num == old(self)@.seq
                &&& ping.t0 == now
                &&& ping.timeout == timeout.unwrap_or(PING_TIMEOUT)
                &&& request == (Icmpv4Type2::EchoRequest { id: ping.id, seq_num: ping.seq_num })
                &&& packet@ == fresh_packet(PING_HEADROOM, ICMPV4_ECHO_REQUEST_MESSAGE_SIZE)
            }),
            final(self)@ == (PeerView { seq: next_seq_num(old(self)@.seq), ..old(self)@ }),
    {
        let id: u16 = self.make_id(pid);
        let seq_num: u16 = self.make_seq_num();
        let packet = DemiBuffer::new_with_headroom(ICMPV4_ECHO_REQUEST_MESSAGE_SIZE, PING_HEADROOM);
        let wait: u64 = match timeout {
            Some(nanoseconds) => nanoseconds,
            None => PING_TIMEOUT,
        };
        let ping = Ping { id, seq_num, t0: now, timeout: wait };
        (ping, Icmpv4Type2::EchoRequest { id, seq_num }, packet)
    }

    /// Goes on with a ping once its request was sent, or could not be: from now on the answer is awaited.
    pub fn ping_sent(&mut self, ping: &Ping, sent: Result<(), Fail>) -> (result: Result<(), Fail>)
        ensures
            match sent {
                Ok(_) => {
                    &&& result is Ok
                    &&& final(self)@ == (PeerView {
                        inflight: old(self)@.inflight.insert((ping.id, ping.seq_num), InflightRequest::Inflight),
                        ..old(self)@
                    })
                },
                Err(fail) => {
                    &&& result is Err
                    &&& result->Err_0@ == fail_view(
                        EAGAIN,
                        "Could not send response to ping: "@ + fail@.description(),
                    )
                    &&& final(self)@ == old(self)@
                },
            },
    {
        match sent {
            Ok(_) => {
                self.record(ping.id, ping.seq_num, InflightRequest::Inflight);
                Ok(())
            },
            Err(fail) => {
                let prefix = "Could not send response to ping: ".to_owned();
                let cause = prefix.concat(fail.describe().as_str());
                Err(Fail { errno: eagain(), cause })
            },
        }
    }

    /// Ends a ping, which was answered or whose time is up, and says how long the answer took.
    pub fn ping_finished(&mut self, ping: &Ping, answered: bool, now: u64) -> (result: Result<u64, Fail>)
        ensures
            final(self)@ == (PeerView { inflight: old(self)@.inflight.remove((ping.id, ping.seq_num)), ..old(self)@ }),
            match result {
                Ok(elapsed) => answered && elapsed == (if now < ping.t0 { 0 } else { now - ping.t0 }),
                Err(fail) => !answered && fail@ == fail_view(ETIMEDOUT, "timer expired"@),
            },
    {
        self.forget(ping.id, ping.seq_num);
        if answered {
            Ok(now.saturating_sub(ping.t0))
        } else {
            Err(Fail::new(etimedout(), "timer expired"))
        }
    }

    /// The neighbour whose link layer address [`SharedIcmpv4Peer::send_packet`] needs.
    pub fn next_hop(&self, dst_ip: Ipv4Addr) -> (hop: Ipv4Addr)
        ensures
            hop == self@.next_hop(dst_ip),
    {
        next_hop(dst_ip, self.0.local_ipv4_addr, self.0.local_netmask, self.0.gateway_ipv4_addr)
    }

    /// Puts the headers of a message for `dst_ip` in front of `buffer`, which must have the headroom, and addresses
    /// the packet to the neighbour whose address the query for it, `dst_mac`, brought. Through a gateway, too, the
    /// packet names the host that it is for.
    pub fn send_packet(
        &self,
        request: Icmpv4Type2,
        dst_ip: Ipv4Addr,
        buffer: DemiBuffer,
        dst_mac: Result<MacAddress, Fail>,
    ) -> (frame: Result<Ipv4Frame, Fail>)
        requires
            dst_mac is Ok ==> buffer@.head.len() >= ICMPV4_HEADER_SIZE + IPV4_HEADER_MIN_SIZE,
        ensures
            match dst_mac {
                Ok(mac) => {
                    &&& frame is Ok
                    &&& frame->Ok_0.dst_mac == mac
                    &&& frame->Ok_0.packet@ == self@.datagram(request, dst_ip, buffer@)
                },
                Err(fail) => frame is Err && frame->Err_0@ == fail@,
            },
    {
        let dst_mac = match dst_mac {
            Ok(mac) => mac,
            Err(fail) => return Err(fail),
        };
        let mut packet = buffer;
        let icmp_header = Icmpv4Header::new(request, 0);
        icmp_header.serialize_and_attach(&mut packet);
        let ip_header = Ipv4Header::new(self.0.local_ipv4_addr, dst_ip, IpProtocol::ICMPv4);
        ip_header.serialize_and_attach(&mut packet, self.0.ipv4_checksum_offload);
        Ok(Ipv4Frame { dst_mac, packet })
    }
}

/// A message that this host sends reaches its destination as it was meant: the host there accepts the datagram, which
/// comes from this host and is for that one, and finds in it the message, with the same bytes behind it.
pub proof fn law_datagram_is_understood(
    peer: PeerView,
    message: Icmpv4Type2,
    dst_ip: Ipv4Addr,
    packet: BufferView,
    padding: Seq<u8>,
)
    requires
        packet.wf(),
        packet.head.len() >= 28,
        !peer.ipv4_checksum_offload,
    ensures
        ({
            let wire = peer.datagram(message, dst_ip, packet).data + padding;
            let payload = ipv4_header::payload_of(wire);
            &&& ipv4_header::parse_error(wire) is None
            &&& ipv4_header::parsed_header(wire).src_addr == peer.local_ipv4_addr
            &&& ipv4_header::parsed_header(wire).dst_addr == dst_ip
            &&& ipv4_header::parsed_header(wire).protocol == IpProtocol::ICMPv4
            &&& icmpv4_header::parse_error(payload) is None
            &&& icmpv4_header::parsed_header(payload) == (Icmpv4Header { protocol: message, code: 0 })
            &&& payload.skip(8) == packet.data
        }),
{
    lemma_message_on_the_wire(message, packet);
    lemma_datagram_on_the_wire(peer, message, dst_ip, packet, padding);
}

/// A message with a header in front of it.
spec fn with_header(message: Icmpv4Type2, packet: BufferView) -> BufferView {
    packet.attach((Icmpv4Header { protocol: message, code: 0 }).wire_header(packet.data))
}

proof fn lemma_message_on_the_wire(message: Icmpv4Type2, packet: BufferView)
    ensures
        ({
            let payload = with_header(message, packet).data;
            &&& payload.len() == packet.data.len() + 8
            &&& icmpv4_header::parse_error(payload) is None
            &&& icmpv4_header::parsed_header(payload) == (Icmpv4Header { protocol: message, code: 0 })
            &&& payload.skip(8) == packet.data
        }),
{
    let icmp = Icmpv4Header { protocol: message, code: 0 };
    icmpv4_header::law_parse_of_serialized(icmp, packet.data);
    assert(with_header(message, packet).data.skip(8) =~= packet.data);
}

proof fn lemma_datagram_on_the_wire(
    peer: PeerView,
    message: Icmpv4Type2,
    dst_ip: Ipv4Addr,
    packet: BufferView,
    padding: Seq<u8>,
)
    requires
        with_header(message, packet).data.len() <= 65515,
        !peer.ipv4_checksum_offload,
    ensures
        ({
            let wire = peer.datagram(message, dst_ip, packet).data + padding;
            &&& ipv4_header::parse_error(wire) is None
            &&& ipv4_header::parsed_header(wire).src_addr == peer.local_ipv4_addr
            &&& ipv4_header::parsed_header(wire).dst_addr == dst_ip
            &&& ipv4_header::parsed_header(wire).protocol == IpProtocol::ICMPv4
            &&& ipv4_header::payload_of(wire) == with_header(message, packet).data
        }),
{
    let ip = Ipv4Header::spec_new(peer.local_ipv4_addr, dst_ip, IpProtocol::ICMPv4);
    ipv4_header::law_new_is_plain(peer.local_ipv4_addr, dst_ip, IpProtocol::ICMPv4);
    ipv4_header::law_parse_of_serialized(ip, with_header(message, packet).data, padding);
}

/// An echo request is answered with what it carried: the host that sent it gets back an echo reply with the
/// identifier, the sequence number and the bytes of the request. The request came in an IPv4 datagram, whose header
/// left the headroom that the answer needs.
pub proof fn law_echo(peer: PeerView, header: Ipv4Header, packet: BufferView, id: u16, seq_num: u16, padding: Seq<u8>)
    requires
        packet.wf(),
        packet.head.len() >= 20,
        !peer.ipv4_checksum_offload,
        icmpv4_header::parse_error(packet.data) is None,
        icmpv4_header::parsed_header(packet.data).protocol == (Icmpv4Type2::EchoRequest { id, seq_num }),
    ensures
        match peer.action_for(header, packet) {
            PollActionView::Reply { message, dst_ip, packet: rest } => {
                let wire = peer.datagram(message, dst_ip, rest).data + padding;
                let payload = ipv4_header::payload_of(wire);
                &&& rest.head.len() >= 28
                &&& ipv4_header::parse_error(wire) is None
                &&& ipv4_header::parsed_header(wire).src_addr == peer.local_ipv4_addr
                &&& ipv4_header::parsed_header(wire).dst_addr == header.src_addr
                &&& icmpv4_header::parse_error(payload) is None
                &&& icmpv4_header::parsed_header(payload).protocol == (Icmpv4Type2::EchoReply { id, seq_num })
                &&& payload.skip(8) == packet.data.skip(8)
            },
            _ => false,
        },
{
    law_datagram_is_understood(
        peer,
        Icmpv4Type2::EchoReply { id, seq_num },
        header.src_addr,
        packet.adjust(8),
        padding,
    );
}

/// A ping that was sent ends with the first answer that names it: the answer wakes it, it is then no longer awaited,
/// and forgetting it leaves the other requests as they were. A further answer to it is ignored.
pub proof fn law_ping_is_answered(peer: PeerView, header: Ipv4Header, packet: BufferView, id: u16, seq_num: u16)
    requires
        icmpv4_header::parse_error(packet.data) is None,
        icmpv4_header::parsed_header(packet.data).protocol == (Icmpv4Type2::EchoReply { id, seq_num }),
    ensures
        ({
            let sent = PeerView {
                inflight: peer.inflight.insert((id, seq_num), InflightRequest::Inflight),
                ..peer
            };
            let action = sent.action_for(header, packet);
            let woken = sent.after(action);
            &&& sent.awaits(id, seq_num)
            &&& action == (PollActionView::Signal { id, seq_num })
            &&& !woken.awaits(id, seq_num)
            &&& woken.action_for(header, packet) == PollActionView::Ignore
            &&& woken.inflight.remove((id, seq_num)) == peer.inflight.remove((id, seq_num))
        }),
{
    let sent = PeerView { inflight: peer.inflight.insert((id, seq_num), InflightRequest::Inflight), ..peer };
    let woken = sent.after(PollActionView::Signal { id, seq_num });
    assert(woken.inflight.remove((id, seq_num)) =~= peer.inflight.remove((id, seq_num)));
}

/// A message touches no request but the awaited one that it answers.
pub proof fn law_other_requests_stay(
    peer: PeerView,
    header: Ipv4Header,
    packet: BufferView,
    id: u16,
    seq_num: u16,
)
    requires
        icmpv4_header::parse_error(packet.data) is Some || icmpv4_header::parsed_header(packet.data).protocol != (
        Icmpv4Type2::EchoReply { id, seq_num }),
    ensures
        ({
            let after = peer.after(peer.action_for(header, packet));
            &&& after.inflight.contains_key((id, seq_num)) == peer.inflight.contains_key((id, seq_num))
            &&& peer.inflight.contains_key((id, seq_num)) ==> after.inflight[(id, seq_num)] == peer.inflight[(
                id,
                seq_num,
            )]
        }),
{
}

/// The sequence number that is drawn after `n` others, if `seq` is the first.
pub open spec fn nth_seq_num(seq: u16, n: nat) -> u16
    decreases n,
{
    if n == 0 {
        seq
    } else {
        nth_seq_num(next_seq_num(seq), (n - 1) as nat)
    }
}

/// Two sequence numbers that are drawn fewer than 65536 draws apart differ.
pub proof fn law_seq_nums_differ(seq: u16, m: nat, n: nat)
    requires
        m < n < m + 0x1_0000,
    ensures
        nth_seq_num(seq, m) != nth_seq_num(seq, n),
{
    lemma_nth_seq_num(seq, m);
    lemma_nth_seq_num(seq, n);
    assert((seq + m) % 0x1_0000 != (seq + n) % 0x1_0000);
}

proof fn lemma_nth_seq_num(seq: u16, n: nat)
    ensures
        nth_seq_num(seq, n) == (seq + n) % 0x1_0000,
    decreases n,
{
    if n > 0 {
        let next = next_seq_num(seq);
        lemma_nth_seq_num(next, (n - 1) as nat);
        assert((next + (n - 1)) % 0x1_0000 == (seq + n) % 0x1_0000);
    }
}

/// No identifier is all ones, the number that an empty sum would give.
pub proof fn law_id_is_not_all_ones(addr: Ipv4Addr, pid: u32, nonce: Seq<u8>)
    ensures
        spec_compute_id(addr, pid, nonce) != 0xffff,
{
}

} // verus!
