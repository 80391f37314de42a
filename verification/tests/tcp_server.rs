use demikernel::runtime::fail::Fail;
use demikernel::runtime::network::{Ipv4Addr, Ipv6Addr, SocketAddr, SocketAddrV4, SocketAddrV6};
use demikernel::tcp_server::connection::{
    is_closed, QResult, QValue, ServerError, SetupAction, SetupReply, SetupStep, TcpServer,
};
use demikernel::tcp_server::event_loop::{Phase, ServerAction, ServerReply};
use demikernel::tcp_server::sgarray::{Segment, SgArray};

const ADDR: SocketAddr = SocketAddr::V4(SocketAddrV4 { ip: Ipv4Addr { a: 10, b: 0, c: 0, d: 1 }, port: 80 });

fn fail(errno: i32) -> Fail {
    Fail::new(errno, "failed")
}

fn segment(bytes: &[u8]) -> Segment {
    Segment { data_len_bytes: bytes.len() as u32, data: Some(bytes.to_vec()) }
}

fn sga(segments: &[&[u8]]) -> SgArray {
    SgArray { segments: segments.iter().map(|bytes| segment(bytes)).collect() }
}

fn next(step: Result<SetupStep, ServerError>) -> demikernel::tcp_server::connection::ServerSetup {
    match step {
        Ok(SetupStep::Continue(setup)) => setup,
        _ => panic!("the server does not go on"),
    }
}

fn server() -> TcpServer {
    let setup = next(TcpServer::new(ADDR).resume(SetupReply::Socket(Ok(100))));
    let setup = next(setup.resume(SetupReply::Done(Ok(()))));
    match setup.resume(SetupReply::Done(Ok(()))) {
        Ok(SetupStep::Ready(server)) => server,
        _ => panic!("the server is not ready"),
    }
}

#[test]
fn a_server_is_set_up() {
    let setup = TcpServer::new(ADDR);
    assert_eq!(
        setup.action(),
        SetupAction::Socket { domain: libc::AF_INET, kind: libc::SOCK_STREAM, protocol: 0 }
    );
    let setup = next(setup.resume(SetupReply::Socket(Ok(100))));
    assert_eq!(setup.action(), SetupAction::Bind { qd: 100, local_addr: ADDR });
    let setup = next(setup.resume(SetupReply::Done(Ok(()))));
    assert_eq!(setup.action(), SetupAction::Listen { qd: 100, backlog: 1024 });
    let s = server();
    assert_eq!(s.local_addr(), ADDR);
    assert_eq!(s.listening_sockqd, 100);
    assert_eq!(s.connected_count(), 0);
    assert!(s.pending_qtokens.is_empty());
}

#[test]
fn a_server_may_get_no_socket() {
    match TcpServer::new(ADDR).resume(SetupReply::Socket(Err(fail(libc::EINVAL)))) {
        Err(ServerError::LibOS(e)) => assert_eq!(e.errno, libc::EINVAL),
        _ => panic!("there is no socket"),
    }
}

#[test]
fn a_socket_that_is_refused_is_closed() {
    let bind = || next(TcpServer::new(ADDR).resume(SetupReply::Socket(Ok(7))));
    let setup = next(bind().resume(SetupReply::Done(Err(fail(libc::EINVAL)))));
    assert_eq!(setup.action(), SetupAction::Close { qd: 7 });
    match setup.resume(SetupReply::Done(Ok(()))) {
        Err(ServerError::Bind(e)) => assert_eq!(e.errno, libc::EINVAL),
        _ => panic!("the address is not bound"),
    }
    let listen = next(bind().resume(SetupReply::Done(Ok(()))));
    let setup = next(listen.resume(SetupReply::Done(Err(fail(libc::EINVAL)))));
    assert_eq!(setup.action(), SetupAction::Close { qd: 7 });
    match setup.resume(SetupReply::Done(Ok(()))) {
        Err(ServerError::Listen(e)) => assert_eq!(e.errno, libc::EINVAL),
        _ => panic!("the socket does not listen"),
    }
    let setup = next(bind().resume(SetupReply::Done(Err(fail(libc::EINVAL)))));
    match setup.resume(SetupReply::Done(Err(fail(libc::EBADF)))) {
        Err(ServerError::LibOS(e)) => assert_eq!(e.errno, libc::EBADF),
        _ => panic!("the socket is not closed"),
    }
}

#[test]
fn what_is_scattered_is_gathered() {
    let filled = TcpServer::make_sgarray(b"hello world", Ok(sga(&[b"xxxx", b"yyyyyyy"]))).ok().unwrap();
    assert_eq!(filled.segments[0].data.as_deref(), Some(&b"hell"[..]));
    assert_eq!(filled.segments[1].data.as_deref(), Some(&b"o world"[..]));
    assert_eq!(filled.gather(), b"hello world");
    let larger = TcpServer::make_sgarray(b"hi", Ok(sga(&[b"abcd", b"ef"]))).ok().unwrap();
    assert_eq!(larger.gather(), b"hicdef");
    let nothing = TcpServer::make_sgarray(b"", Ok(sga(&[b"abcd"]))).ok().unwrap();
    assert_eq!(nothing.gather(), b"abcd");
}

#[test]
fn memory_can_be_too_small() {
    match TcpServer::make_sgarray(b"hello", Err(fail(libc::ENOMEM))) {
        Err(ServerError::LibOS(e)) => assert_eq!(e.errno, libc::ENOMEM),
        _ => panic!("there is no memory"),
    }
    assert!(matches!(TcpServer::make_sgarray(b"hello", Ok(sga(&[]))), Err(ServerError::EmptySgArray)));
    assert!(matches!(
        TcpServer::make_sgarray(b"hello", Ok(sga(&[b"ab", b"c"]))),
        Err(ServerError::ShortCopy { copied: 3, total: 5 })
    ));
    // Nothing behind an empty segment is used.
    assert!(matches!(
        TcpServer::make_sgarray(b"hello", Ok(sga(&[b"ab", b"", b"cdefg"]))),
        Err(ServerError::ShortCopy { copied: 2, total: 5 })
    ));
}

#[test]
fn segments_without_memory_are_skipped() {
    let mut array = sga(&[b"ab", b"", b"cd"]);
    array.segments.push(Segment { data_len_bytes: 9, data: None });
    assert_eq!(array.gather(), b"abcd");
    let qr = QResult { qr_qd: 5, qr_value: QValue::Pop { sga: array } };
    assert_eq!(server().handle_pop(&qr, Ok(())).ok().unwrap(), (5, b"abcd".to_vec()));
    assert!(matches!(server().handle_pop(&qr, Err(fail(libc::EINVAL))), Err(ServerError::LibOS(_))));
}

#[test]
fn operations_are_noted() {
    let mut s = server();
    s.issue_accept(Ok(1)).ok().unwrap();
    s.issue_push(Ok(2)).ok().unwrap();
    assert_eq!(s.issue_pop(Ok(3)).ok(), Some(3));
    assert!(matches!(s.issue_accept(Err(fail(libc::EINVAL))), Err(ServerError::LibOS(_))));
    assert!(matches!(s.issue_push(Err(fail(libc::EINVAL))), Err(ServerError::LibOS(_))));
    assert!(matches!(s.issue_pop(Err(fail(libc::EINVAL))), Err(ServerError::LibOS(_))));
    assert!(s.handle_push().is_ok());
    assert_eq!(s.pending_qtokens, vec![1, 2]);
}

#[test]
fn a_token_is_cleared() {
    let mut s = server();
    s.pending_qtokens = vec![1, 2, 3, 2, 4];
    assert!(s.try_clear_token(2));
    assert_eq!(s.pending_qtokens, vec![1, 4, 3, 2]);
    assert!(s.try_clear_token(2));
    assert_eq!(s.pending_qtokens, vec![1, 4, 3]);
    assert!(!s.try_clear_token(2));
    assert_eq!(s.pending_qtokens, vec![1, 4, 3]);
}

#[test]
fn clients_come_and_go() {
    let mut s = server();
    let qr = QResult { qr_qd: 100, qr_value: QValue::Accept { qd: 9, addr: [0; 14] } };
    assert_eq!(s.handle_accept(&qr).ok(), Some(9));
    assert_eq!(s.connected_count(), 1);
    assert_eq!(s.send_async(9, b"data").ok(), Some(4));
    assert!(s.close_connection(9));
    assert!(!s.close_connection(9));
    assert!(matches!(s.send_async(9, b"data"), Err(ServerError::NotConnected { qd: 9 })));
    s.connected_clients.insert(4);
    assert!(!s.handle_fail(4, libc::EINVAL as i64));
    assert!(s.handle_fail(4, libc::ECONNRESET as i64));
    assert!(!s.handle_fail(4, libc::ECONNRESET as i64));
    assert_eq!(s.connected_count(), 0);
}

#[test]
fn return_values_that_say_closed() {
    for errno in [libc::ECONNRESET, libc::ENOTCONN, libc::ECANCELED, libc::EBADF] {
        assert!(is_closed(errno as i64));
        assert!(is_closed(errno as i64 + (1 << 32)));
        assert!(is_closed(errno as i64 - (1 << 32)));
        assert!(!is_closed(-(errno as i64)));
    }
    assert!(!is_closed(0));
    assert!(!is_closed(libc::ETIMEDOUT as i64));
    assert!(!is_closed(i64::MIN));
    assert!(!is_closed(i64::MAX));
}

#[test]
fn the_address_of_a_client() {
    let mut addr = [0u8; 14];
    addr[..6].copy_from_slice(&[0x1f, 0x90, 192, 168, 0, 7]);
    let expected = SocketAddr::V4(SocketAddrV4 { ip: Ipv4Addr::new(192, 168, 0, 7), port: 8080 });
    assert_eq!(server().extract_remote_addr(&addr), expected);
}

#[test]
fn everything_is_closed_in_the_end() {
    let mut s = server();
    for qd in [3, 1, 2] {
        s.connected_clients.insert(qd);
    }
    let mut qds = s.close_all();
    assert_eq!(qds.pop(), Some(100));
    qds.sort();
    assert_eq!(qds, vec![1, 2, 3]);
    assert_eq!(s.connected_count(), 0);
}

fn go(s: &mut TcpServer, phase: Phase, reply: ServerReply) -> Phase {
    match s.resume(phase, reply) {
        Ok(phase) => phase,
        Err(_) => panic!("the server ends"),
    }
}

fn completed(index: usize, qd: u32, value: QValue) -> ServerReply {
    ServerReply::Waited(Ok((index, QResult { qr_qd: qd, qr_value: value })))
}

#[test]
fn a_client_is_accepted_and_the_next_one_awaited() {
    let mut s = server();
    let phase = s.run();
    assert!(matches!(s.action(&phase), ServerAction::Accept { qd: 100 }));
    let phase = go(&mut s, phase, ServerReply::Issued(Ok(11)));
    match s.action(&phase) {
        ServerAction::WaitAny { qtokens, timeout_ms } => assert_eq!((qtokens, timeout_ms), (&vec![11], 10)),
        _ => panic!("the server waits"),
    }
    let mut addr = [0u8; 14];
    addr[..6].copy_from_slice(&[0, 80, 1, 2, 3, 4]);
    let phase = go(&mut s, phase, completed(0, 100, QValue::Accept { qd: 5, addr }));
    assert!(s.pending_qtokens.is_empty());
    match &phase {
        Phase::PoppingNew { qd, remote_addr } => {
            assert_eq!(*qd, 5);
            assert_eq!(*remote_addr, SocketAddr::V4(SocketAddrV4 { ip: Ipv4Addr::new(1, 2, 3, 4), port: 80 }));
        },
        _ => panic!("the client is to be received from"),
    }
    assert!(matches!(s.action(&phase), ServerAction::Pop { qd: 5 }));
    let phase = go(&mut s, phase, ServerReply::Issued(Ok(12)));
    assert!(matches!(s.action(&phase), ServerAction::Accept { qd: 100 }));
    let phase = go(&mut s, phase, ServerReply::Issued(Ok(13)));
    assert!(matches!(phase, Phase::Waiting));
    assert_eq!(s.pending_qtokens, vec![12, 13]);
    assert_eq!(s.connected_count(), 1);
}

/// Runs the server until it waits again, with memory that is handed out in two pieces, and lists what it sends and
/// does otherwise.
fn run_until_waiting(s: &mut TcpServer, phase: Phase) -> (Vec<u8>, Vec<&'static str>) {
    let mut phase = phase;
    let mut sent = vec![];
    let mut done = vec![];
    let mut qt = 1000;
    loop {
        let reply = match s.action(&phase) {
            ServerAction::WaitAny { .. } => return (sent, done),
            ServerAction::Accept { .. } => panic!("nothing was accepted"),
            ServerAction::Pop { .. } => {
                done.push("pop");
                ServerReply::Issued(Ok(500))
            },
            ServerAction::Allocate { size } => {
                let first = vec![0; size / 2];
                let second = vec![0; size - size / 2];
                let pieces = if first.is_empty() { sga(&[&second]) } else { sga(&[&first, &second]) };
                ServerReply::Allocated(Ok(pieces))
            },
            ServerAction::Push { qd, sga } => {
                assert_eq!(qd, 5);
                sent.extend(sga.gather());
                done.push("push");
                qt += 1;
                ServerReply::Issued(Ok(qt))
            },
            ServerAction::Free { sga } => {
                done.push(if sga.segments.is_empty() { "free nothing" } else { "free" });
                ServerReply::Done(Ok(()))
            },
            ServerAction::Close { qd } => {
                assert_eq!(qd, 5);
                done.push("close");
                ServerReply::Done(Ok(()))
            },
        };
        phase = go(s, phase, reply);
    }
}

fn with_client() -> TcpServer {
    let mut s = server();
    s.connected_clients.insert(5);
    s.pending_qtokens = vec![20, 21, 22];
    s
}

#[test]
fn bytes_go_back_to_the_client() {
    let mut s = with_client();
    let value = QValue::Pop { sga: sga(&[b"hello", b"", b" ", b"world"]) };
    let phase = go(&mut s, Phase::Waiting, completed(1, 5, value));
    assert_eq!(s.pending_qtokens, vec![20, 22]);
    let (sent, done) = run_until_waiting(&mut s, phase);
    assert_eq!(sent, b"hello world");
    assert_eq!(done, vec!["push", "push", "push", "free", "pop"]);
    assert_eq!(s.pending_qtokens, vec![20, 22, 1001, 1002, 1003, 500]);
    assert_eq!(s.connected_count(), 1);
}

#[test]
fn a_client_that_closes_is_closed() {
    let mut s = with_client();
    let phase = go(&mut s, Phase::Waiting, completed(0, 5, QValue::Pop { sga: sga(&[b"bye", b""]) }));
    let (sent, done) = run_until_waiting(&mut s, phase);
    assert_eq!(sent, b"bye");
    assert_eq!(done, vec!["push", "free", "close"]);
    assert_eq!(s.connected_count(), 0);
    let mut s = with_client();
    let phase = go(&mut s, Phase::Waiting, completed(0, 5, QValue::Pop { sga: sga(&[b""]) }));
    assert_eq!(run_until_waiting(&mut s, phase), (vec![], vec!["free nothing", "close"]));
    // Without a segment nothing says that the client closed its side.
    let mut s = with_client();
    let phase = go(&mut s, Phase::Waiting, completed(0, 5, QValue::Pop { sga: sga(&[]) }));
    assert_eq!(run_until_waiting(&mut s, phase), (vec![], vec!["free nothing", "pop"]));
}

#[test]
fn failures_drop_clients_that_are_gone() {
    let mut s = with_client();
    let reset = QValue::Failed { ret: libc::ECONNRESET as i64 };
    let phase = go(&mut s, Phase::Waiting, completed(2, 5, reset));
    assert_eq!(s.pending_qtokens, vec![20, 21]);
    assert_eq!(run_until_waiting(&mut s, phase), (vec![], vec!["close"]));
    assert_eq!(s.connected_count(), 0);
    let phase = go(&mut s, Phase::Waiting, completed(0, 5, QValue::Failed { ret: libc::EBADF as i64 }));
    assert!(matches!(phase, Phase::Waiting));
    let mut s = with_client();
    let phase = go(&mut s, Phase::Waiting, completed(0, 5, QValue::Failed { ret: libc::EIO as i64 }));
    assert!(matches!(phase, Phase::Waiting));
    assert_eq!(s.connected_count(), 1);
}

#[test]
fn other_operations_change_nothing_else() {
    let mut s = with_client();
    let phase = go(&mut s, Phase::Waiting, completed(0, 5, QValue::Push));
    let phase = go(&mut s, phase, completed(0, 5, QValue::Other));
    assert!(matches!(phase, Phase::Waiting));
    assert_eq!(s.pending_qtokens, vec![22]);
    let phase = go(&mut s, phase, ServerReply::Waited(Err(fail(libc::ETIMEDOUT))));
    assert!(matches!(phase, Phase::Waiting));
    assert_eq!(s.pending_qtokens, vec![22]);
    assert_eq!(s.connected_count(), 1);
}

#[test]
fn the_server_ends_on_errors() {
    let mut s = with_client();
    match s.resume(Phase::Waiting, ServerReply::Waited(Err(fail(libc::EIO)))) {
        Err(ServerError::Wait(e)) => assert_eq!(e.errno, libc::EIO),
        _ => panic!("the server cannot wait"),
    }
    let stranger = completed(0, 6, QValue::Pop { sga: sga(&[b"hi"]) });
    assert!(matches!(s.resume(Phase::Waiting, stranger), Err(ServerError::NotConnected { qd: 6 })));
    assert!(matches!(
        s.resume(Phase::Accepting, ServerReply::Issued(Err(fail(libc::EIO)))),
        Err(ServerError::LibOS(_))
    ));
    assert!(matches!(
        s.resume(Phase::PoppingNext { qd: 5 }, ServerReply::Issued(Err(fail(libc::EIO)))),
        Err(ServerError::LibOS(_))
    ));
    assert!(matches!(
        s.resume(Phase::Closing { qd: 5 }, ServerReply::Done(Err(fail(libc::EIO)))),
        Err(ServerError::LibOS(_))
    ));
    assert!(matches!(
        s.resume(Phase::Freeing { qd: 5, sga: sga(&[]), closing: true }, ServerReply::Done(Err(fail(libc::EIO)))),
        Err(ServerError::LibOS(_))
    ));
    assert_eq!(s.connected_count(), 1);
}

#[test]
fn memory_for_an_answer_can_be_too_small() {
    for (memory, short) in [(sga(&[]), false), (sga(&[b"x"]), true)] {
        let mut s = with_client();
        let phase = go(&mut s, Phase::Waiting, completed(0, 5, QValue::Pop { sga: sga(&[b"hi"]) }));
        match s.resume(phase, ServerReply::Allocated(Ok(memory))) {
            Err(ServerError::ShortCopy { copied: 1, total: 2 }) => assert!(short),
            Err(ServerError::EmptySgArray) => assert!(!short),
            _ => panic!("the memory is too small"),
        }
    }
}

#[test]
fn a_stranger_without_bytes_is_let_be() {
    let mut s = with_client();
    let phase = go(&mut s, Phase::Waiting, completed(0, 6, QValue::Pop { sga: sga(&[b"", b""]) }));
    assert!(matches!(s.action(&phase), ServerAction::Free { .. }));
    let phase = go(&mut s, phase, ServerReply::Done(Ok(())));
    assert!(matches!(phase, Phase::Waiting));
    assert_eq!(s.connected_count(), 1);
}

#[test]
fn a_client_is_served_from_its_arrival_to_its_end() {
    let mut s = server();
    let phase = s.run();
    let phase = go(&mut s, phase, ServerReply::Issued(Ok(11)));
    let phase = go(&mut s, phase, completed(0, 100, QValue::Accept { qd: 5, addr: [0; 14] }));
    let phase = go(&mut s, phase, ServerReply::Issued(Ok(12)));
    let phase = go(&mut s, phase, ServerReply::Issued(Ok(13)));
    match s.action(&phase) {
        ServerAction::WaitAny { qtokens, .. } => assert_eq!(qtokens, &vec![12, 13]),
        _ => panic!("the server waits"),
    }
    let phase = go(&mut s, phase, completed(0, 5, QValue::Pop { sga: sga(&[b"hello"]) }));
    let (sent, done) = run_until_waiting(&mut s, phase);
    assert_eq!((sent, done), (b"hello".to_vec(), vec!["push", "free", "pop"]));
    assert_eq!(s.pending_qtokens, vec![13, 1001, 500]);
    let phase = go(&mut s, Phase::Waiting, completed(1, 5, QValue::Push));
    assert_eq!(s.pending_qtokens, vec![13, 500]);
    let phase = go(&mut s, phase, completed(1, 5, QValue::Pop { sga: sga(&[b""]) }));
    let (sent, done) = run_until_waiting(&mut s, phase);
    assert_eq!((sent, done), (vec![], vec!["free nothing", "close"]));
    assert_eq!(s.pending_qtokens, vec![13]);
    assert_eq!(s.connected_count(), 0);
}

#[test]
fn a_server_may_listen_on_ipv6() {
    let ip = Ipv6Addr { bits: 1 };
    let addr = SocketAddr::V6(SocketAddrV6 { ip, port: 80, flowinfo: 0, scope_id: 3 });
    let setup = next(TcpServer::new(addr).resume(SetupReply::Socket(Ok(7))));
    assert_eq!(setup.action(), SetupAction::Bind { qd: 7, local_addr: addr });
}
