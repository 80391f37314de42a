use demikernel::demikernel::config::Config;
use demikernel::inetstack::protocols::layer3::icmpv4::header::Icmpv4Header;
use demikernel::inetstack::protocols::layer3::icmpv4::peer::{
    compute_id, is_local_address, PollAction, PollStep, PING_HEADROOM, PING_TIMEOUT,
};
use demikernel::inetstack::protocols::layer3::icmpv4::protocol::{Icmpv4Type2, ICMPV4_ECHO_REQUEST_MESSAGE_SIZE};
use demikernel::inetstack::protocols::layer3::{IpProtocol, Ipv4Header, SharedIcmpv4Peer};
use demikernel::runtime::fail::Fail;
use demikernel::runtime::memory::DemiBuffer;
use demikernel::runtime::network::{Ipv4Addr, MacAddress};

const ALICE: Ipv4Addr = Ipv4Addr { a: 10, b: 0, c: 0, d: 1 };
const BOB: Ipv4Addr = Ipv4Addr { a: 10, b: 0, c: 0, d: 2 };
const GATEWAY: Ipv4Addr = Ipv4Addr { a: 10, b: 0, c: 0, d: 254 };
const MAC: MacAddress = MacAddress { octets: [2, 0, 0, 0, 0, 7] };

fn config(local: Ipv4Addr) -> Config {
    Config {
        eal_init_args: Ok(vec![]),
        enable_jumbo_frames: Ok(false),
        tcp_checksum_offload: Ok(false),
        udp_checksum_offload: Ok(false),
        mtu: Ok(1500),
        mss: None,
        local_ipv4_addr: Ok(local),
        gateway_ipv4_addr: Some(GATEWAY),
        local_netmask: Some(Ipv4Addr::new(255, 255, 255, 0)),
    }
}

fn peer(local: Ipv4Addr) -> SharedIcmpv4Peer {
    SharedIcmpv4Peer::new(&config(local), [7; 32]).ok().unwrap()
}

fn buffer(bytes: &[u8]) -> DemiBuffer {
    DemiBuffer::from_storage(bytes.to_vec(), 0, bytes.len(), false)
}

fn message(kind: Icmpv4Type2, body: &[u8]) -> DemiBuffer {
    let mut buf = DemiBuffer::new_with_headroom(body.len() as u16, PING_HEADROOM);
    buf.copy_from_slice(body);
    Icmpv4Header::new(kind, 0).serialize_and_attach(&mut buf);
    buf
}

/// Lets the background task look at the oldest message, if there is one.
fn poll(p: &mut SharedIcmpv4Peer) -> Option<PollAction> {
    let message = p.next_message()?;
    match p.poll(Ok(message)) {
        PollStep::GoOn(action) => Some(action),
        PollStep::End => panic!("the task ends"),
    }
}

#[test]
fn a_known_message() {
    let mut buf = DemiBuffer::new_with_headroom(4, 8);
    Icmpv4Header::new(Icmpv4Type2::EchoRequest { id: 0x1234, seq_num: 0x0001 }, 0).serialize_and_attach(&mut buf);
    assert_eq!(buf.as_slice(), &[8, 0, 0xe5, 0xca, 0x12, 0x34, 0, 1, 0, 0, 0, 0]);
    assert_eq!(buf.headroom(), 0);
    assert_eq!(Icmpv4Header::compute_checksum(&buf.as_slice()[..8], &buf.as_slice()[8..]), 0);
}

#[test]
fn parsing_a_message_undoes_writing_it() {
    let kinds = [
        Icmpv4Type2::EchoReply { id: 1, seq_num: 0xffff },
        Icmpv4Type2::DestinationUnreachable,
        Icmpv4Type2::SourceQuench,
        Icmpv4Type2::RedirectMessage,
        Icmpv4Type2::EchoRequest { id: 0xabcd, seq_num: 2 },
        Icmpv4Type2::RouterAdvertisement,
        Icmpv4Type2::RouterSolicitation,
        Icmpv4Type2::TimeExceeded,
        Icmpv4Type2::BadIpHeader,
        Icmpv4Type2::Timestamp,
        Icmpv4Type2::TimestampReply,
    ];
    for kind in kinds {
        let mut buf = message(kind, b"odd");
        let header = Icmpv4Header::parse_and_strip(&mut buf).unwrap();
        assert_eq!(header, Icmpv4Header::new(kind, 0));
        assert_eq!(header.get_protocol(), kind);
        assert_eq!(buf.as_slice(), b"odd");
    }
}

#[test]
fn damaged_messages_are_refused() {
    let fail = Icmpv4Header::parse_and_strip(&mut buffer(&[8, 0, 0, 0, 0, 0, 0])).unwrap_err();
    assert_eq!((fail.errno, fail.cause.as_str()), (libc::EBADMSG, "ICMPv4 datagram too small for header"));
    let mut buf = message(Icmpv4Type2::SourceQuench, b"");
    buf.set(1, 1);
    let fail = Icmpv4Header::parse_and_strip(&mut buf).unwrap_err();
    assert_eq!((fail.errno, fail.cause.as_str()), (libc::EBADMSG, "ICMPv4 checksum mismatch"));
    // Type 42 is not assigned.
    let fail = Icmpv4Header::parse_and_strip(&mut buffer(&[42, 0, 0xd5, 0xff, 0, 0, 0, 0])).unwrap_err();
    assert_eq!((fail.errno, fail.cause.as_str()), (libc::EBADMSG, "Invalid type byte"));
}

#[test]
fn local_addresses() {
    let mask = Some(Ipv4Addr::new(255, 255, 255, 0));
    assert!(is_local_address(BOB, ALICE, mask));
    assert!(!is_local_address(Ipv4Addr::new(10, 0, 1, 2), ALICE, mask));
    assert!(is_local_address(Ipv4Addr::new(8, 8, 8, 8), ALICE, None));
    assert!(is_local_address(Ipv4Addr::new(8, 8, 8, 8), ALICE, Some(Ipv4Addr::new(0, 0, 0, 0))));
}

#[test]
fn identifiers() {
    // 0xffff + 0x0a00 + 0x0001 + 0x0001 + 0x0002 + 0x0304 folds to 0x0d08.
    assert_eq!(compute_id(ALICE, 0x0001_0002, [3, 4]), !0x0d08);
    assert_eq!(compute_id(Ipv4Addr::new(0, 0, 0, 0), 0, [0, 0]), 0);
}

#[test]
fn identifiers_come_from_the_generator() {
    // The same seed gives the same identifiers, which are not all alike.
    let draw = |seed: u8| {
        let mut p = SharedIcmpv4Peer::new(&config(ALICE), [seed; 32]).ok().unwrap();
        (0..8).map(|_| p.make_id(99)).collect::<Vec<u16>>()
    };
    assert_eq!(draw(1), draw(1));
    assert_ne!(draw(1), draw(2));
    assert!(draw(1).iter().any(|id| *id != draw(1)[0]));
    assert!(draw(1).iter().all(|id| *id != 0xffff));
}

#[test]
fn sequence_numbers_wrap() {
    let mut p = peer(ALICE);
    for expected in 0..=0xffffu16 {
        assert_eq!(p.make_seq_num(), expected);
    }
    assert_eq!(p.make_seq_num(), 0);
}

#[test]
fn settings_that_are_missing_are_reported() {
    let mut c = config(ALICE);
    c.tcp_checksum_offload = Err(Fail::new(libc::EINVAL, "no offload"));
    assert_eq!(SharedIcmpv4Peer::new(&c, [0; 32]).err().unwrap().cause, "no offload");
    c.local_ipv4_addr = Err(Fail::new(libc::EINVAL, "no address"));
    assert_eq!(SharedIcmpv4Peer::new(&c, [0; 32]).err().unwrap().cause, "no address");
}

#[test]
fn an_echo_request_is_answered() {
    let mut p = peer(ALICE);
    assert!(poll(&mut p).is_none());
    let header = Ipv4Header::new(BOB, ALICE, IpProtocol::ICMPv4);
    p.receive(header, message(Icmpv4Type2::EchoRequest { id: 5, seq_num: 6 }, b"payload"));
    let (kind, dst_ip, packet) = match poll(&mut p) {
        Some(PollAction::Reply { message, dst_ip, packet }) => (message, dst_ip, packet),
        _ => panic!("no reply"),
    };
    assert_eq!(kind, Icmpv4Type2::EchoReply { id: 5, seq_num: 6 });
    assert_eq!(dst_ip, BOB);
    assert_eq!(packet.as_slice(), b"payload");
    let mut frame = p.send_packet(kind, dst_ip, packet, Ok(MAC)).ok().unwrap();
    assert_eq!(frame.dst_mac, MAC);
    let ip = Ipv4Header::parse_and_strip(&mut frame.packet).unwrap();
    assert_eq!((ip.src_addr(), ip.dst_addr(), ip.protocol()), (ALICE, BOB, IpProtocol::ICMPv4));
    let icmp = Icmpv4Header::parse_and_strip(&mut frame.packet).unwrap();
    assert_eq!(icmp.get_protocol(), Icmpv4Type2::EchoReply { id: 5, seq_num: 6 });
    assert_eq!(frame.packet.as_slice(), b"payload");
    assert!(poll(&mut p).is_none());
}

#[test]
fn a_ping_is_answered_once() {
    let mut p = peer(ALICE);
    let (ping, request, packet) = p.ping(None, 1234, 1_000);
    assert_eq!(ping.timeout, PING_TIMEOUT);
    assert_eq!(ping.timeout, 5_000_000_000);
    assert_eq!((ping.t0, ping.seq_num), (1_000, 0));
    assert_eq!(request, Icmpv4Type2::EchoRequest { id: ping.id, seq_num: 0 });
    assert_eq!(packet.len(), ICMPV4_ECHO_REQUEST_MESSAGE_SIZE as usize);
    assert_eq!(packet.headroom(), 42);
    assert_eq!(p.next_hop(BOB), BOB);
    assert!(p.send_packet(request, BOB, packet, Ok(MAC)).is_ok());
    assert!(!p.is_awaited(ping.id, 0));
    assert!(p.ping_sent(&ping, Ok(())).is_ok());
    assert!(p.is_awaited(ping.id, 0));
    let (other, _, _) = p.ping(Some(9), 1234, 1_000);
    assert_eq!((other.timeout, other.seq_num), (9, 1));
    assert!(p.ping_sent(&other, Ok(())).is_ok());

    let header = Ipv4Header::new(BOB, ALICE, IpProtocol::ICMPv4);
    let reply = Icmpv4Type2::EchoReply { id: ping.id, seq_num: 0 };
    p.receive(header, message(reply, b""));
    p.receive(header, message(reply, b""));
    match poll(&mut p) {
        Some(PollAction::Signal { id, seq_num }) => assert_eq!((id, seq_num), (ping.id, 0)),
        _ => panic!("no signal"),
    }
    assert!(!p.is_awaited(ping.id, 0));
    assert!(p.is_awaited(other.id, 1));
    assert!(matches!(poll(&mut p), Some(PollAction::Ignore)));
    assert_eq!(p.ping_finished(&ping, true, 3_500).ok(), Some(2_500));
    let fail = p.ping_finished(&other, false, 3_500).unwrap_err();
    assert_eq!((fail.errno, fail.cause.as_str()), (libc::ETIMEDOUT, "timer expired"));
    assert!(!p.is_awaited(other.id, 1));
}

#[test]
fn a_clock_that_goes_back_shows_no_time() {
    let mut p = peer(ALICE);
    let (ping, _, _) = p.ping(None, 1, 1_000);
    assert_eq!(p.ping_finished(&ping, true, 900).ok(), Some(0));
}

#[test]
fn a_ping_that_cannot_be_sent_fails() {
    let mut p = peer(ALICE);
    let (ping, request, packet) = p.ping(None, 1, 0);
    let fail = p.send_packet(request, BOB, packet, Err(Fail::new(libc::ETIMEDOUT, "no answer"))).err().unwrap();
    assert_eq!((fail.errno, fail.cause.as_str()), (libc::ETIMEDOUT, "no answer"));
    let fail = p.ping_sent(&ping, Err(fail)).unwrap_err();
    assert_eq!(fail.errno, libc::EAGAIN);
    assert_eq!(fail.cause, "Could not send response to ping: Error 110: no answer");
    assert!(!p.is_awaited(ping.id, ping.seq_num));
}

#[test]
fn other_messages_are_ignored() {
    let mut p = peer(ALICE);
    let header = Ipv4Header::new(BOB, ALICE, IpProtocol::ICMPv4);
    p.receive(header, message(Icmpv4Type2::Timestamp, b""));
    p.receive(header, message(Icmpv4Type2::EchoReply { id: 1, seq_num: 2 }, b""));
    p.receive(header, buffer(&[1, 2, 3]));
    for _ in 0..3 {
        assert!(matches!(poll(&mut p), Some(PollAction::Ignore)));
    }
    assert!(poll(&mut p).is_none());
}

#[test]
fn remote_hosts_are_reached_through_the_gateway() {
    let p = peer(ALICE);
    let remote = Ipv4Addr::new(8, 8, 8, 8);
    assert_eq!(p.next_hop(remote), GATEWAY);
    let packet = DemiBuffer::new_with_headroom(4, PING_HEADROOM);
    let request = Icmpv4Type2::EchoRequest { id: 1, seq_num: 1 };
    let mut frame = p.send_packet(request, remote, packet, Ok(MAC)).ok().unwrap();
    let ip = Ipv4Header::parse_and_strip(&mut frame.packet).unwrap();
    assert_eq!(ip.dst_addr(), remote);
}

#[test]
fn the_background_task_ends_when_no_message_comes() {
    let mut p = peer(ALICE);
    assert_eq!(p.poll_timeout(), 5_000_000_000);
    let (ping, _, _) = p.ping(None, 1, 0);
    assert!(p.ping_sent(&ping, Ok(())).is_ok());
    let header = Ipv4Header::new(BOB, ALICE, IpProtocol::ICMPv4);
    assert!(matches!(p.poll(Ok((header, buffer(&[1, 2, 3])))), PollStep::GoOn(PollAction::Ignore)));
    assert!(matches!(p.poll(Err(Fail::new(libc::ETIMEDOUT, "timer expired"))), PollStep::End));
    assert!(p.is_awaited(ping.id, ping.seq_num));
}

#[test]
fn messages_are_looked_at_in_order() {
    let mut p = peer(ALICE);
    let header = Ipv4Header::new(BOB, ALICE, IpProtocol::ICMPv4);
    p.receive(header, buffer(b"first"));
    p.receive(header, buffer(b"second"));
    assert_eq!(p.next_message().unwrap().1.as_slice(), b"first");
    assert_eq!(p.next_message().unwrap().1.as_slice(), b"second");
    assert!(p.next_message().is_none());
}
