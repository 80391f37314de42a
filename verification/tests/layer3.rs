use demikernel::demikernel::config::Config;
use demikernel::inetstack::protocols::layer3::icmpv4::header::Icmpv4Header;
use demikernel::inetstack::protocols::layer3::icmpv4::peer::{PollAction, PollStep};
use demikernel::inetstack::protocols::layer3::icmpv4::protocol::Icmpv4Type2;
use demikernel::inetstack::protocols::layer3::{
    bad_src, is_local_address, next_hop, EtherType2, IpProtocol, Ipv4Header, SharedLayer3Endpoint,
};
use demikernel::runtime::fail::Fail;
use demikernel::runtime::memory::DemiBuffer;
use demikernel::runtime::network::{Ipv4Addr, MacAddress};

const ALICE: Ipv4Addr = Ipv4Addr { a: 192, b: 168, c: 1, d: 1 };
const BOB: Ipv4Addr = Ipv4Addr { a: 192, b: 168, c: 1, d: 2 };
const REMOTE: Ipv4Addr = Ipv4Addr { a: 1, b: 1, c: 1, d: 1 };
const GATEWAY: Ipv4Addr = Ipv4Addr { a: 192, b: 168, c: 1, d: 254 };
const MASK: Ipv4Addr = Ipv4Addr { a: 255, b: 255, c: 255, d: 0 };
const MAC: MacAddress = MacAddress { octets: [2, 0, 0, 0, 0, 7] };

fn config(local: Ipv4Addr) -> Config {
    Config {
        eal_init_args: Ok(vec![]),
        enable_jumbo_frames: Ok(false),
        tcp_checksum_offload: Ok(false),
        udp_checksum_offload: Ok(false),
        mtu: Ok(1500),
        mss: None,
        local_ipv4_addr: Ok(local),
        gateway_ipv4_addr: Some(GATEWAY),
        local_netmask: Some(MASK),
    }
}

fn endpoint(local: Ipv4Addr) -> SharedLayer3Endpoint {
    SharedLayer3Endpoint::new(&config(local), [3; 32]).ok().unwrap()
}

fn packet(payload: &[u8]) -> DemiBuffer {
    let mut buf = DemiBuffer::new_with_headroom(payload.len() as u16, 64);
    buf.copy_from_slice(payload);
    buf
}

fn datagram(src: Ipv4Addr, dst: Ipv4Addr, protocol: IpProtocol, payload: &[u8]) -> DemiBuffer {
    let mut buf = packet(payload);
    Ipv4Header::new(src, dst, protocol).serialize_and_attach(&mut buf, false);
    buf
}

/// Lets the background task look at the oldest message, if there is one.
fn poll(e: &mut SharedLayer3Endpoint) -> Option<PollAction> {
    let message = e.0.icmpv4.next_message()?;
    match e.0.icmpv4.poll(Ok(message)) {
        PollStep::GoOn(action) => Some(action),
        PollStep::End => panic!("the task ends"),
    }
}

#[test]
fn hops() {
    assert_eq!(next_hop(BOB, ALICE, Some(MASK), Some(GATEWAY)), BOB);
    assert_eq!(next_hop(REMOTE, ALICE, Some(MASK), Some(GATEWAY)), GATEWAY);
    assert_eq!(next_hop(REMOTE, ALICE, None, Some(GATEWAY)), REMOTE);
    assert_eq!(next_hop(REMOTE, ALICE, Some(MASK), None), REMOTE);
    assert_eq!(next_hop(REMOTE, ALICE, Some(MASK), Some(Ipv4Addr::unspecified())), REMOTE);
    assert_eq!(endpoint(ALICE).get_next_hop(REMOTE), GATEWAY);
    assert!(is_local_address(BOB, ALICE, Some(MASK)));
    assert!(!is_local_address(REMOTE, ALICE, Some(MASK)));
}

#[test]
fn segment_sizes() {
    assert_eq!(endpoint(ALICE).send_config_mss(), 1460);
    let mut c = config(ALICE);
    c.mss = Some(536);
    assert_eq!(SharedLayer3Endpoint::new(&c, [0; 32]).ok().unwrap().send_config_mss(), 536);
    assert_eq!(endpoint(ALICE).get_local_addr(), ALICE);
}

#[test]
fn an_endpoint_needs_its_settings() {
    let mut c = config(ALICE);
    c.tcp_checksum_offload = Err(Fail::new(libc::EINVAL, "no offload"));
    assert_eq!(SharedLayer3Endpoint::new(&c, [0; 32]).err().unwrap().cause, "no offload");
    c.local_ipv4_addr = Err(Fail::new(libc::EINVAL, "no address"));
    assert_eq!(SharedLayer3Endpoint::new(&c, [0; 32]).err().unwrap().cause, "no address");
}

#[test]
fn frames_are_sorted() {
    let mut e = endpoint(ALICE);
    let mut ping = packet(b"ping");
    Icmpv4Header::new(Icmpv4Type2::EchoRequest { id: 1, seq_num: 2 }, 0).serialize_and_attach(&mut ping);
    Ipv4Header::new(BOB, ALICE, IpProtocol::ICMPv4).serialize_and_attach(&mut ping, false);
    let frames = vec![
        (EtherType2::Arp, packet(b"who has")),
        (EtherType2::Ipv4, datagram(BOB, ALICE, IpProtocol::TCP, b"segment")),
        (EtherType2::Ipv4, ping),
        (EtherType2::Ipv4, datagram(BOB, Ipv4Addr::new(255, 255, 255, 255), IpProtocol::UDP, b"all")),
    ];
    let up = e.receive(Ok(frames)).ok().unwrap();
    assert_eq!(up.len(), 2);
    assert_eq!((up[0].0, up[0].1, up[0].2.as_slice()), (BOB, IpProtocol::TCP, &b"segment"[..]));
    assert_eq!((up[1].0, up[1].1, up[1].2.as_slice()), (BOB, IpProtocol::UDP, &b"all"[..]));
    assert_eq!(e.next_arp_packet().unwrap().as_slice(), b"who has");
    assert!(e.next_arp_packet().is_none());
    match poll(&mut e) {
        Some(PollAction::Reply { message, dst_ip, packet }) => {
            assert_eq!(message, Icmpv4Type2::EchoReply { id: 1, seq_num: 2 });
            assert_eq!(dst_ip, BOB);
            assert_eq!(packet.as_slice(), b"ping");
            assert!(packet.headroom() >= 28);
        },
        _ => panic!("no reply"),
    }
}

#[test]
fn unsound_frames_are_dropped() {
    let mut e = endpoint(ALICE);
    let mut damaged = datagram(BOB, ALICE, IpProtocol::TCP, b"x");
    damaged.set(8, 1);
    let frames = vec![
        (EtherType2::Ipv4, damaged),
        (EtherType2::Ipv4, datagram(BOB, REMOTE, IpProtocol::TCP, b"not for us")),
        (EtherType2::Ipv4, datagram(Ipv4Addr::new(224, 0, 0, 1), ALICE, IpProtocol::TCP, b"multicast")),
        (EtherType2::Ipv6, packet(b"six")),
    ];
    assert_eq!(e.receive(Ok(frames)).ok().unwrap().len(), 0);
    let frames = vec![
        (EtherType2::Ipv4, datagram(Ipv4Addr::new(255, 255, 255, 255), ALICE, IpProtocol::TCP, b"broadcast")),
        (EtherType2::Ipv4, datagram(Ipv4Addr::new(0, 0, 0, 0), ALICE, IpProtocol::TCP, b"nobody")),
    ];
    assert_eq!(e.receive(Ok(frames)).ok().unwrap().len(), 0);
    assert!(poll(&mut e).is_none());
    assert!(e.next_arp_packet().is_none());
}

#[test]
fn a_failure_to_receive_is_passed_on() {
    let fail = endpoint(ALICE).receive(Err(Fail::new(libc::EIO, "down"))).err().unwrap();
    assert_eq!((fail.errno, fail.cause.as_str()), (libc::EIO, "down"));
}

#[test]
fn what_is_sent_arrives() {
    let sender = endpoint(ALICE);
    let mut receiver = endpoint(BOB);
    let sent = sender.transmit_tcp_packet_blocking(BOB, 20, packet(b"data"), Ok(MAC)).ok().unwrap();
    assert_eq!(sent.dst_mac, MAC);
    assert_eq!((sent.l3_header_len, sent.l4_header_len, sent.protocol), (20, 20, IpProtocol::TCP));
    let up = receiver.receive(Ok(vec![(EtherType2::Ipv4, sent.packet)])).ok().unwrap();
    assert_eq!((up[0].0, up[0].1, up[0].2.as_slice()), (ALICE, IpProtocol::TCP, &b"data"[..]));
    let sent = sender.transmit_udp_packet_blocking(BOB, 8, packet(b"data"), Ok(MAC)).ok().unwrap();
    assert_eq!((sent.l4_header_len, sent.protocol), (8, IpProtocol::UDP));
}

#[test]
fn a_packet_waits_for_address_resolution() {
    let sender = endpoint(ALICE);
    let sent = sender.transmit_tcp_packet_nonblocking(BOB, 256 + 32, packet(b"data"), Some(MAC)).ok().unwrap();
    assert_eq!(sent.l4_header_len, 32);
    let fail = sender.transmit_tcp_packet_nonblocking(BOB, 20, packet(b"data"), None).err().unwrap();
    assert_eq!((fail.errno, fail.cause.as_str()), (libc::EAGAIN, "destination not in ARP cache"));
    let late = || Err(Fail::new(libc::ETIMEDOUT, "no answer"));
    assert_eq!(
        sender.transmit_tcp_packet_blocking(BOB, 20, packet(b"data"), late()).err().unwrap().errno,
        libc::ETIMEDOUT
    );
    assert_eq!(
        sender.transmit_udp_packet_blocking(BOB, 8, packet(b"data"), late()).err().unwrap().cause,
        "no answer"
    );
}

#[test]
fn an_offloaded_datagram_has_no_checksum_yet() {
    let mut c = config(ALICE);
    c.tcp_checksum_offload = Ok(true);
    let sender = SharedLayer3Endpoint::new(&c, [0; 32]).ok().unwrap();
    let sent = sender.transmit_packet(BOB, MAC, IpProtocol::TCP, 20, packet(b"data"));
    assert_eq!(&sent.packet.as_slice()[10..12], &[0, 0]);
}

#[test]
fn sources_that_no_host_has() {
    let from = |src: Ipv4Addr| bad_src(Ipv4Header::new(src, ALICE, IpProtocol::TCP));
    assert!(from(Ipv4Addr::new(255, 255, 255, 255)));
    assert!(from(Ipv4Addr::new(224, 0, 0, 0)));
    assert!(from(Ipv4Addr::new(239, 255, 255, 255)));
    assert!(from(Ipv4Addr::new(0, 0, 0, 0)));
    assert!(!from(Ipv4Addr::new(240, 0, 0, 0)));
    assert!(!from(BOB));
}

#[test]
fn an_endpoint_pings() {
    let mut e = endpoint(ALICE);
    let (ping, request, packet) = e.ping(Some(5), 1, 2);
    assert_eq!((ping.seq_num, ping.t0, ping.timeout), (0, 2, 5));
    assert_eq!(request, Icmpv4Type2::EchoRequest { id: ping.id, seq_num: 0 });
    assert_eq!(packet.len(), 4);
    assert_eq!(e.ping(None, 1, 2).0.seq_num, 1);
}

#[test]
fn a_ping_comes_back() {
    let mut alice = endpoint(ALICE);
    let mut bob = endpoint(BOB);
    let (ping, request, body) = alice.ping(None, 1, 0);
    let frame = alice.0.icmpv4.send_packet(request, BOB, body, Ok(MAC)).ok().unwrap();
    assert!(alice.0.icmpv4.ping_sent(&ping, Ok(())).is_ok());
    assert_eq!(bob.receive(Ok(vec![(EtherType2::Ipv4, frame.packet)])).ok().unwrap().len(), 0);
    let frame = match poll(&mut bob) {
        Some(PollAction::Reply { message, dst_ip, packet }) => {
            assert_eq!(dst_ip, ALICE);
            bob.0.icmpv4.send_packet(message, dst_ip, packet, Ok(MAC)).ok().unwrap()
        },
        _ => panic!("no reply"),
    };
    assert_eq!(alice.receive(Ok(vec![(EtherType2::Ipv4, frame.packet)])).ok().unwrap().len(), 0);
    match poll(&mut alice) {
        Some(PollAction::Signal { id, seq_num }) => assert_eq!((id, seq_num), (ping.id, ping.seq_num)),
        _ => panic!("no signal"),
    }
    assert_eq!(alice.0.icmpv4.ping_finished(&ping, true, 7).ok(), Some(7));
}
