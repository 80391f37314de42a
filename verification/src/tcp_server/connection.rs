//! A TCP server and its connections.

use crate::inetstack::protocols::{be16, decode_be16};
use crate::runtime::errno::{
    af_inet, ebadf, ecanceled, econnreset, enotconn, sock_stream, AF_INET, EBADF, ECANCELED, ECONNRESET, ENOTCONN,
    SOCK_STREAM,
};
use crate::runtime::fail::{Fail, FailView};
use crate::runtime::network::{Ipv4Addr, SocketAddr, SocketAddrV4};
use crate::tcp_server::sgarray::{capacity, gathered, scattered, sga_is_backed, sga_wf, SgArray};
use std::collections::HashSet;
use vstd::prelude::*;
use vstd::std_specs::hash::group_hash_axioms;
use vstd::std_specs::iter::IteratorSpec;

verus! {

broadcast use group_hash_axioms;

/// Number of connections that may wait to be accepted.
pub const BACKLOG: usize = 1024;

/// Why the server could not go on.
pub enum ServerErrorView {
    LibOS(FailView),
    Bind(FailView),
    Listen(FailView),
    EmptySgArray,
    ShortCopy { copied: nat, total: nat },
    NotConnected { qd: u32 },
    Wait(FailView),
}

/// Why the server could not go on.
#[derive(Debug)]
pub enum ServerError {
    /// An operation failed.
    LibOS(Fail),
    /// The local address could not be bound.
    Bind(Fail),
    /// The socket does not listen.
    Listen(Fail),
    /// The memory that was allocated has no segments.
    EmptySgArray,
    /// The memory that was allocated is too small.
    ShortCopy { copied: usize, total: usize },
    /// The descriptor is not that of a connected client.
    NotConnected { qd: u32 },
    /// Waiting for operations failed.
    Wait(Fail),
}

impl View for ServerError {
    type V = ServerErrorView;

    open spec fn view(&self) -> ServerErrorView {
        match *self {
            ServerError::LibOS(fail) => ServerErrorView::LibOS(fail@),
            ServerError::Bind(fail) => ServerErrorView::Bind(fail@),
            ServerError::Listen(fail) => ServerErrorView::Listen(fail@),
            ServerError::EmptySgArray => ServerErrorView::EmptySgArray,
            ServerError::ShortCopy { copied, total } => ServerErrorView::ShortCopy {
                copied: copied as nat,
                total: total as nat,
            },
            ServerError::NotConnected { qd } => ServerErrorView::NotConnected { qd },
            ServerError::Wait(fail) => ServerErrorView::Wait(fail@),
        }
    }
}

/// A result whose error is taken by its view.
pub open spec fn outcome<T>(result: Result<T, ServerError>) -> Result<T, ServerErrorView> {
    match result {
        Ok(value) => Ok(value),
        Err(error) => Err(error@),
    }
}

/// What came of an operation, as the server reports it.
pub open spec fn reported<T>(result: Result<T, Fail>) -> Result<T, ServerErrorView> {
    match result {
        Ok(value) => Ok(value),
        Err(fail) => Err(ServerErrorView::LibOS(fail@)),
    }
}

/// What came of an operation, as the server reports it.
pub fn report<T>(result: Result<T, Fail>) -> (out: Result<T, ServerError>)
    ensures
        outcome(out) == reported(result),
{
    match result {
        Ok(value) => Ok(value),
        Err(fail) => Err(ServerError::LibOS(fail)),
    }
}

/// The result of an operation that completed.
#[derive(Debug)]
pub struct QResult {
    /// The descriptor on which it was issued.
    pub qr_qd: u32,
    /// What it brought.
    pub qr_value: QValue,
}

/// What an operation brought.
#[derive(Debug)]
pub enum QValue {
    /// A connection was accepted: its descriptor, and the part of the peer's socket address that follows the address
    /// family.
    Accept { qd: u32, addr: [u8; 14] },
    /// Bytes came in, or the peer closed its side.
    Pop { sga: SgArray },
    /// Bytes went out.
    Push,
    /// The operation failed.
    Failed { ret: i64 },
    /// Any other operation.
    Other,
}

/// The state of a server.
#[verifier::ext_equal]
pub struct ServerView {
    pub local_addr: SocketAddr,
    pub listening_sockqd: u32,
    pub connected_clients: Set<u32>,
    pub pending_qtokens: Seq<u64>,
}

impl ServerView {
    /// The server, with one more operation pending.
    pub open spec fn pend(self, qt: u64) -> ServerView {
        ServerView { pending_qtokens: self.pending_qtokens.push(qt), ..self }
    }

    /// The server, with one more client.
    pub open spec fn connect(self, qd: u32) -> ServerView {
        ServerView { connected_clients: self.connected_clients.insert(qd), ..self }
    }

    /// The server, without a client.
    pub open spec fn disconnect(self, qd: u32) -> ServerView {
        ServerView { connected_clients: self.connected_clients.remove(qd), ..self }
    }
}

/// A TCP server.
#[derive(Debug)]
pub struct TcpServer {
    /// The address on which it listens.
    pub local_addr: SocketAddr,
    /// The descriptor on which it listens.
    pub listening_sockqd: u32,
    /// The descriptors of its clients.
    pub connected_clients: HashSet<u32>,
    /// The operations that it waits for.
    pub pending_qtokens: Vec<u64>,
}

impl View for TcpServer {
    type V = ServerView;

    open spec fn view(&self) -> ServerView {
        ServerView {
            local_addr: self.local_addr,
            listening_sockqd: self.listening_sockqd,
            connected_clients: self.connected_clients@,
            pending_qtokens: self.pending_qtokens@,
        }
    }
}

/// How far a server has come.
#[derive(Debug)]
pub enum SetupStage {
    /// It needs a socket.
    Socket,
    /// The socket is to be bound.
    Bind { qd: u32 },
    /// The socket is to listen.
    Listen { qd: u32 },
    /// The socket is of no use and is to be closed.
    Close { qd: u32, error: ServerError },
}

/// A server on its way up.
#[derive(Debug)]
pub struct ServerSetup {
    pub local_addr: SocketAddr,
    pub stage: SetupStage,
}

/// What is to be done next.
#[derive(Clone, Copy, Debug, PartialEq, Eq, Structural)]
pub enum SetupAction {
    Socket { domain: i32, kind: i32, protocol: i32 },
    Bind { qd: u32, local_addr: SocketAddr },
    Listen { qd: u32, backlog: usize },
    Close { qd: u32 },
}

/// What came of it.
#[derive(Debug)]
pub enum SetupReply {
    /// The descriptor of a socket.
    Socket(Result<u32, Fail>),
    /// Whether the operation succeeded.
    Done(Result<(), Fail>),
}

/// Where a server stands after a step.
#[derive(Debug)]
pub enum SetupStep {
    /// There is more to be done.
    Continue(ServerSetup),
    /// The server listens.
    Ready(TcpServer),
}

impl ServerSetup {
    /// Whether `reply` can come of the next step.
    pub open spec fn expects(self, reply: SetupReply) -> bool {
        self.stage is Socket <==> reply is Socket
    }

    /// What is to be done next.
    pub open spec fn spec_action(self) -> SetupAction {
        match self.stage {
            SetupStage::Socket => SetupAction::Socket { domain: AF_INET, kind: SOCK_STREAM, protocol: 0 },
            SetupStage::Bind { qd } => SetupAction::Bind { qd, local_addr: self.local_addr },
            SetupStage::Listen { qd } => SetupAction::Listen { qd, backlog: BACKLOG },
            SetupStage::Close { qd, .. } => SetupAction::Close { qd },
        }
    }

    /// Whether `step` is where the server stands after `reply`. A socket that cannot be bound or does not listen is
    /// closed before the failure is reported.
    pub open spec fn goes_on(self, reply: SetupReply, step: Result<SetupStep, ServerError>) -> bool {
        match (self.stage, reply) {
            (SetupStage::Socket, SetupReply::Socket(Ok(qd))) => step == Ok::<SetupStep, ServerError>(
                SetupStep::Continue(ServerSetup { local_addr: self.local_addr, stage: SetupStage::Bind { qd } }),
            ),
            (SetupStage::Socket, SetupReply::Socket(Err(fail))) => {
                outcome(step) == Err::<SetupStep, _>(ServerErrorView::LibOS(fail@))
            },
            (SetupStage::Bind { qd }, SetupReply::Done(Ok(_))) => step == Ok::<SetupStep, ServerError>(
                SetupStep::Continue(ServerSetup { local_addr: self.local_addr, stage: SetupStage::Listen { qd } }),
            ),
            (SetupStage::Bind { qd }, SetupReply::Done(Err(fail))) => {
                &&& step matches Ok(SetupStep::Continue(next))
                &&& next.local_addr == self.local_addr
                &&& next.stage matches SetupStage::Close { qd: closed, error }
                &&& closed == qd
                &&& error@ == ServerErrorView::Bind(fail@)
            },
            (SetupStage::Listen { qd }, SetupReply::Done(Ok(_))) => {
                &&& step matches Ok(SetupStep::Ready(server))
                &&& server@ == (ServerView {
                    local_addr: self.local_addr,
                    listening_sockqd: qd,
                    connected_clients: Set::empty(),
                    pending_qtokens: Seq::empty(),
                })
            },
            (SetupStage::Listen { qd }, SetupReply::Done(Err(fail))) => {
                &&& step matches Ok(SetupStep::Continue(next))
                &&& next.local_addr == self.local_addr
                &&& next.stage matches SetupStage::Close { qd: closed, error }
                &&& closed == qd
                &&& error@ == ServerErrorView::Listen(fail@)
            },
            (SetupStage::Close { error, .. }, SetupReply::Done(Ok(_))) => {
                outcome(step) == Err::<SetupStep, _>(error@)
            },
            (SetupStage::Close { .. }, SetupReply::Done(Err(fail))) => {
                outcome(step) == Err::<SetupStep, _>(ServerErrorView::LibOS(fail@))
            },
            _ => false,
        }
    }

    /// What is to be done next.
    pub fn action(&self) -> (action: SetupAction)
        ensures
            action == self.spec_action(),
    {
        match &self.stage {
            SetupStage::Socket => SetupAction::Socket { domain: af_inet(), kind: sock_stream(), protocol: 0 },
            SetupStage::Bind { qd } => SetupAction::Bind { qd: *qd, local_addr: self.local_addr },
            SetupStage::Listen { qd } => SetupAction::Listen { qd: *qd, backlog: BACKLOG },
            SetupStage::Close { qd, .. } => SetupAction::Close { qd: *qd },
        }
    }

    /// Goes on after what [`ServerSetup::action`] named was done and brought `reply`.
    pub fn resume(self, reply: SetupReply) -> (step: Result<SetupStep, ServerError>)
        requires
            self.expects(reply),
        ensures
            self.goes_on(reply, step),
    {
        let local_addr = self.local_addr;
        let stage = match (self.stage, reply) {
            (SetupStage::Socket, SetupReply::Socket(socket)) => match socket {
                Ok(qd) => SetupStage::Bind { qd },
                Err(fail) => return Err(ServerError::LibOS(fail)),
            },
            (SetupStage::Bind { qd }, SetupReply::Done(bound)) => match bound {
                Ok(_) => SetupStage::Listen { qd },
                Err(fail) => SetupStage::Close { qd, error: ServerError::Bind(fail) },
            },
            (SetupStage::Listen { qd }, SetupReply::Done(listens)) => match listens {
                Ok(_) => {
                    let server = TcpServer {
                        local_addr,
                        listening_sockqd: qd,
                        connected_clients: HashSet::new(),
                        pending_qtokens: Vec::new(),
                    };
                    return Ok(SetupStep::Ready(server));
                },
                Err(fail) => SetupStage::Close { qd, error: ServerError::Listen(fail) },
            },
            (SetupStage::Close { error, .. }, SetupReply::Done(closed)) => match closed {
                Ok(_) => return Err(error),
                Err(fail) => return Err(ServerError::LibOS(fail)),
            },
            (stage, _) => stage,
        };
        Ok(SetupStep::Continue(ServerSetup { local_addr, stage }))
    }
}

/// The last 32 bits of a number, as a signed number.
pub open spec fn low_word(ret: i64) -> int {
    let low = ret as int % 0x1_0000_0000;
    if low < 0x8000_0000 {
        low
    } else {
        low - 0x1_0000_0000
    }
}

/// Whether a return value says that the connection is closed.
pub open spec fn spec_is_closed(ret: i64) -> bool {
    let errno = low_word(ret);
    errno == ECONNRESET || errno == ENOTCONN || errno == ECANCELED || errno == EBADF
}

/// Whether a return value says that the connection is closed.
pub fn is_closed(ret: i64) -> (closed: bool)
    ensures
        closed == spec_is_closed(ret),
{
    let low: i64 = if ret >= 0 {
        ret % 0x1_0000_0000
    } else {
        0xFFFF_FFFF - (-1 - ret) % 0x1_0000_0000
    };
    low == econnreset() as i64 || low == enotconn() as i64 || low == ecanceled() as i64 || low == ebadf() as i64
}

/// The peer's address in the part of a socket address that follows the address family: the port, then the IPv4
/// address, both in network byte order.
pub open spec fn spec_remote_addr(addr: Seq<u8>) -> SocketAddr {
    SocketAddr::V4(
        SocketAddrV4 {
            ip: Ipv4Addr { a: addr[2], b: addr[3], c: addr[4], d: addr[5] },
            port: be16(addr[0], addr[1]),
        },
    )
}

impl TcpServer {
    /// Starts a server: a socket, bound to `local_addr`, that listens.
    pub fn new(local_addr: SocketAddr) -> (setup: ServerSetup)
        ensures
            setup.local_addr == local_addr,
            setup.stage is Socket,
    {
        ServerSetup { local_addr, stage: SetupStage::Socket }
    }

    /// Copies `payload` into memory that was allocated for it.
    pub fn make_sgarray(payload: &[u8], allocated: Result<SgArray, Fail>) -> (result: Result<SgArray, ServerError>)
        requires
            allocated matches Ok(sga) ==> sga_is_backed(sga@),
        ensures
            match allocated {
                Err(fail) => outcome(result) == Err::<SgArray, _>(ServerErrorView::LibOS(fail@)),
                Ok(sga) => match result {
                    Ok(filled) => {
                        &&& sga@.len() > 0
                        &&& payload@.len() <= capacity(sga@)
                        &&& filled@ == scattered(payload@, sga@)
                    },
                    Err(error) => {
                        ||| sga@.len() == 0 && error@ == ServerErrorView::EmptySgArray
                        ||| {
                            &&& sga@.len() > 0
                            &&& payload@.len() > capacity(sga@)
                            &&& error@ == (ServerErrorView::ShortCopy { copied: capacity(sga@), total: payload@.len() })
                        }
                    },
                },
            },
    {
        let mut sga = match allocated {
            Ok(sga) => sga,
            Err(fail) => return Err(ServerError::LibOS(fail)),
        };
        if sga.segments.len() == 0 {
            return Err(ServerError::EmptySgArray);
        }
        let copied: usize = sga.scatter(payload);
        let total: usize = payload.len();
        if copied != total {
            return Err(ServerError::ShortCopy { copied, total });
        }
        assert(payload@.take(copied as int) =~= payload@);
        Ok(sga)
    }

    /// Takes note of the operation that accepts the next connection, once it was issued on the listening descriptor.
    pub fn issue_accept(&mut self, issued: Result<u64, Fail>) -> (result: Result<(), ServerError>)
        ensures
            match issued {
                Ok(qt) => result is Ok && final(self)@ == old(self)@.pend(qt),
                Err(fail) => {
                    &&& outcome(result) == Err::<(), _>(ServerErrorView::LibOS(fail@))
                    &&& *final(self) == *old(self)
                },
            },
    {
        let qt: u64 = match issued {
            Ok(qt) => qt,
            Err(fail) => return Err(ServerError::LibOS(fail)),
        };
        self.pending_qtokens.push(qt);
        Ok(())
    }

    /// Hands out the token of the operation that receives from a client, once it was issued, so that the caller can
    /// keep it with what it knows of the client. The event loop keeps it with the operations that it waits for.
    pub fn issue_pop(&self, issued: Result<u64, Fail>) -> (result: Result<u64, ServerError>)
        ensures
            outcome(result) == reported(issued),
    {
        report(issued)
    }

    /// Takes note of the operation that sends to a client, once it was issued.
    pub fn issue_push(&mut self, issued: Result<u64, Fail>) -> (result: Result<(), ServerError>)
        ensures
            match issued {
                Ok(qt) => result is Ok && final(self)@ == old(self)@.pend(qt),
                Err(fail) => {
                    &&& outcome(result) == Err::<(), _>(ServerErrorView::LibOS(fail@))
                    &&& *final(self) == *old(self)
                },
            },
    {
        let qt: u64 = match issued {
            Ok(qt) => qt,
            Err(fail) => return Err(ServerError::LibOS(fail)),
        };
        self.pending_qtokens.push(qt);
        Ok(())
    }

    /// Takes in a client.
    pub fn handle_accept(&mut self, qr: &QResult) -> (result: Result<u32, ServerError>)
        requires
            qr.qr_value is Accept,
        ensures
            result == Ok::<u32, ServerError>(qr.qr_value->qd),
            final(self)@ == old(self)@.connect(qr.qr_value->qd),
    {
        let new_qd: u32 = match &qr.qr_value {
            QValue::Accept { qd, .. } => *qd,
            _ => qr.qr_qd,
        };
        self.connected_clients.insert(new_qd);
        Ok(new_qd)
    }

    /// The descriptor of a client and the bytes that came from it, once their memory was freed.
    pub fn handle_pop(&self, qr: &QResult, freed: Result<(), Fail>) -> (result: Result<(u32, Vec<u8>), ServerError>)
        requires
            qr.qr_value matches QValue::Pop { sga } && sga_wf(sga@),
        ensures
            match freed {
                Ok(_) => {
                    &&& result matches Ok((qd, data))
                    &&& qd == qr.qr_qd
                    &&& data@ == gathered(qr.qr_value->sga@)
                },
                Err(fail) => outcome(result) == Err::<(u32, Vec<u8>), _>(ServerErrorView::LibOS(fail@)),
            },
    {
        let data = match &qr.qr_value {
            QValue::Pop { sga } => sga.gather(),
            _ => Vec::new(),
        };
        match freed {
            Ok(_) => Ok((qr.qr_qd, data)),
            Err(fail) => Err(ServerError::LibOS(fail)),
        }
    }

    /// Bytes went out: there is nothing to be done.
    pub fn handle_push(&self) -> (result: Result<(), ServerError>)
        ensures
            result is Ok,
    {
        Ok(())
    }

    /// Drops a client if the failure of an operation says that its connection is closed. Tells whether its descriptor
    /// is to be closed.
    pub fn handle_fail(&mut self, qd: u32, ret: i64) -> (close: bool)
        ensures
            close == (spec_is_closed(ret) && old(self)@.connected_clients.contains(qd)),
            final(self)@ == if spec_is_closed(ret) {
                old(self)@.disconnect(qd)
            } else {
                old(self)@
            },
    {
        if is_closed(ret) {
            self.handle_close(qd)
        } else {
            false
        }
    }

    /// Drops a client. Tells whether its descriptor is to be closed, which it is unless there was no such client.
    pub fn handle_close(&mut self, qd: u32) -> (close: bool)
        ensures
            close == old(self)@.connected_clients.contains(qd),
            final(self)@ == old(self)@.disconnect(qd),
    {
        self.connected_clients.remove(&qd)
    }

    /// The address of the client that was accepted.
    pub fn extract_remote_addr(&self, addr: &[u8; 14]) -> (remote_addr: SocketAddr)
        ensures
            remote_addr == spec_remote_addr(addr@),
    {
        let ip = Ipv4Addr::new(addr[2], addr[3], addr[4], addr[5]);
        SocketAddr::V4(SocketAddrV4 { ip, port: decode_be16(addr[0], addr[1]) })
    }

    /// Starts to send `data` to a client. Tells how much memory is to be allocated for it; what
    /// [`TcpServer::make_sgarray`] makes of that memory is pushed, and [`TcpServer::issue_push`] takes note of it.
    pub fn send_async(&self, qd: u32, data: &[u8]) -> (size: Result<usize, ServerError>)
        ensures
            match size {
                Ok(n) => self@.connected_clients.contains(qd) && n == data@.len(),
                Err(error) => {
                    &&& !self@.connected_clients.contains(qd)
                    &&& error@ == (ServerErrorView::NotConnected { qd })
                },
            },
    {
        if !self.connected_clients.contains(&qd) {
            return Err(ServerError::NotConnected { qd });
        }
        Ok(data.len())
    }

    /// Drops a client. Tells whether its descriptor is to be closed.
    pub fn close_connection(&mut self, qd: u32) -> (close: bool)
        ensures
            close == old(self)@.connected_clients.contains(qd),
            final(self)@ == old(self)@.disconnect(qd),
    {
        self.handle_close(qd)
    }

    /// The address on which the server listens.
    pub fn local_addr(&self) -> (local_addr: SocketAddr)
        ensures
            local_addr == self@.local_addr,
    {
        self.local_addr
    }

    /// Number of clients.
    pub fn connected_count(&self) -> (count: usize)
        ensures
            count == self@.connected_clients.len(),
    {
        self.connected_clients.len()
    }

    /// Stops to wait for an operation. Tells whether the server did wait for it.
    pub fn try_clear_token(&mut self, qt: u64) -> (cleared: bool)
        ensures
            cleared == old(self)@.pending_qtokens.contains(qt),
            final(self)@ == if cleared {
                let tokens = old(self)@.pending_qtokens;
                let pos = tokens.index_of_first(qt)->Some_0;
                ServerView { pending_qtokens: tokens.update(pos, tokens.last()).drop_last(), ..old(self)@ }
            } else {
                old(self)@
            },
    {
        let mut pos: usize = 0;
        while pos < self.pending_qtokens.len()
            invariant
                *self == *old(self),
                pos <= self.pending_qtokens@.len(),
                forall|i: int| 0 <= i < pos ==> self.pending_qtokens@[i] != qt,
            decreases self.pending_qtokens@.len() - pos,
        {
            if self.pending_qtokens[pos] == qt {
                let ghost tokens = self.pending_qtokens@;
                proof {
                    tokens.index_of_first_ensures(qt);
                    assert(tokens[pos as int] == qt);
                    assert(tokens.index_of_first(qt) == Some(pos as int));
                }
                self.pending_qtokens.swap_remove(pos);
                return true;
            }
            pos = pos + 1;
        }
        false
    }

    /// Ends the server. Lists the descriptors to close: first those of the clients, each once and in no particular
    /// order, and then the one on which the server listens.
    pub fn close_all(&mut self) -> (qds: Vec<u32>)
        ensures
            qds@.len() == old(self)@.connected_clients.len() + 1,
            qds@.last() == old(self)@.listening_sockqd,
            qds@.drop_last().no_duplicates(),
            qds@.drop_last().to_set() == old(self)@.connected_clients,
            final(self)@ == (ServerView { connected_clients: Set::empty(), ..old(self)@ }),
    {
        let mut qds: Vec<u32> = Vec::new();
        let ghost keys = self.connected_clients.iter().remaining().unref();
        let clients = self.connected_clients.iter();
        for qd in it: clients
            invariant
                qds@.len() == it.index(),
                forall|i: int| 0 <= i < qds@.len() ==> qds@[i] == *it.seq()[i],
        {
            qds.push(*qd);
        }
        let ghost listed = qds@;
        assert(listed =~= keys);
        self.connected_clients.clear();
        qds.push(self.listening_sockqd);
        assert(qds@.drop_last() =~= listed);
        qds
    }
}

/// A socket that cannot be bound, or that does not listen, is closed.
pub proof fn law_refused_socket_is_closed(
    setup: ServerSetup,
    fail: Fail,
    qd: u32,
    step: Result<SetupStep, ServerError>,
)
    requires
        setup.stage == (SetupStage::Bind { qd }) || setup.stage == (SetupStage::Listen { qd }),
        setup.goes_on(SetupReply::Done(Err(fail)), step),
    ensures
        step matches Ok(SetupStep::Continue(next)) && next.spec_action() == (SetupAction::Close { qd }),
{
}

/// A client that was dropped is not dropped again: its descriptor is closed once.
pub proof fn law_client_is_dropped_once(server: ServerView, qd: u32)
    ensures
        !server.disconnect(qd).connected_clients.contains(qd),
        server.disconnect(qd).disconnect(qd) == server.disconnect(qd),
        forall|other: u32| other != qd ==> server.disconnect(qd).connected_clients.contains(other)
            == server.connected_clients.contains(other),
{
    assert(server.disconnect(qd).disconnect(qd) =~= server.disconnect(qd));
}

} // verus!
