//! The event loop of a TCP server.
//!
//! The server accepts connections, sends back whatever a client sends, and drops clients that are gone. Each round
//! alternates between operations on sockets and memory and the server's decisions: a [`Phase`] names the operation that
//! is next, and [`TcpServer::resume`] goes on with what came of it.

use crate::runtime::errno::{etimedout, ETIMEDOUT};
use crate::runtime::fail::{result_view, Fail, FailView};
use crate::runtime::network::SocketAddr;
use crate::tcp_server::connection::{
    spec_is_closed, spec_remote_addr, QResult, QValue, ServerError, ServerErrorView, ServerView, TcpServer,
};
use crate::tcp_server::sgarray::{
    capacity, gathered, law_gather_of_scattered, scattered, sga_is_backed, SegmentView, SgArray,
};
use vstd::prelude::*;

verus! {

/// How long the server waits for operations before it looks around (in milliseconds).
pub const WAIT_TIMEOUT_MS: u64 = 10;

/// Bytes that came from a client and go back to it, segment by segment.
pub struct EchoView {
    /// The client.
    pub qd: u32,
    /// What came from it.
    pub sga: Seq<SegmentView>,
    /// The segment that goes back next.
    pub next: nat,
    /// Whether the client closed its side.
    pub closing: bool,
}

/// Where the event loop stands.
pub enum PhaseView {
    Accepting,
    Waiting,
    PoppingNew { qd: u32, remote_addr: SocketAddr },
    Allocating { echo: EchoView },
    Pushing { echo: EchoView, reply: Seq<SegmentView> },
    Freeing { qd: u32, sga: Seq<SegmentView>, closing: bool },
    Closing { qd: u32 },
    PoppingNext { qd: u32 },
}

/// Bytes that came from a client and go back to it, segment by segment.
#[derive(Debug)]
pub struct Echo {
    /// The client.
    pub qd: u32,
    /// What came from it.
    pub sga: SgArray,
    /// The segment that goes back next.
    pub next: usize,
    /// Whether the client closed its side.
    pub closing: bool,
}

impl View for Echo {
    type V = EchoView;

    open spec fn view(&self) -> EchoView {
        EchoView { qd: self.qd, sga: self.sga@, next: self.next as nat, closing: self.closing }
    }
}

/// Where the event loop stands.
#[derive(Debug)]
pub enum Phase {
    /// The next connection is to be accepted.
    Accepting,
    /// The server waits for operations.
    Waiting,
    /// A client was accepted and its bytes are to be received.
    PoppingNew { qd: u32, remote_addr: SocketAddr },
    /// There is to be memory for a segment that goes back.
    Allocating { echo: Echo },
    /// A segment goes back.
    Pushing { echo: Echo, reply: SgArray },
    /// The memory of what came in is to be freed.
    Freeing { qd: u32, sga: SgArray, closing: bool },
    /// A client was dropped and its descriptor is to be closed.
    Closing { qd: u32 },
    /// More bytes of a client are to be received.
    PoppingNext { qd: u32 },
}

impl View for Phase {
    type V = PhaseView;

    open spec fn view(&self) -> PhaseView {
        match *self {
            Phase::Accepting => PhaseView::Accepting,
            Phase::Waiting => PhaseView::Waiting,
            Phase::PoppingNew { qd, remote_addr } => PhaseView::PoppingNew { qd, remote_addr },
            Phase::Allocating { echo } => PhaseView::Allocating { echo: echo@ },
            Phase::Pushing { echo, reply } => PhaseView::Pushing { echo: echo@, reply: reply@ },
            Phase::Freeing { qd, sga, closing } => PhaseView::Freeing { qd, sga: sga@, closing },
            Phase::Closing { qd } => PhaseView::Closing { qd },
            Phase::PoppingNext { qd } => PhaseView::PoppingNext { qd },
        }
    }
}

impl PhaseView {
    /// Whether the segment that goes back next is one.
    pub open spec fn wf(self) -> bool {
        match self {
            PhaseView::Allocating { echo } | PhaseView::Pushing { echo, .. } => {
                &&& echo.next < echo.sga.len() <= usize::MAX
                &&& echo.sga[echo.next as int].len > 0
                &&& sga_is_backed(echo.sga)
            },
            _ => true,
        }
    }
}

/// An operation on sockets or memory.
#[derive(Debug)]
pub enum ServerAction<'a> {
    /// Accept a connection.
    Accept { qd: u32 },
    /// Wait until one of the operations completes.
    WaitAny { qtokens: &'a Vec<u64>, timeout_ms: u64 },
    /// Receive from a client.
    Pop { qd: u32 },
    /// Allocate memory.
    Allocate { size: usize },
    /// Send to a client.
    Push { qd: u32, sga: &'a SgArray },
    /// Free memory.
    Free { sga: &'a SgArray },
    /// Close a descriptor.
    Close { qd: u32 },
}

/// What came of an operation.
pub enum ReplyView {
    Issued(Result<u64, FailView>),
    Completed { index: nat, qd: u32, value: ValueView },
    WaitFailed(FailView),
    Allocated(Result<Seq<SegmentView>, FailView>),
    Done(Result<(), FailView>),
}

/// What an operation brought.
pub enum ValueView {
    Accept { qd: u32, addr: Seq<u8> },
    Pop { sga: Seq<SegmentView> },
    Push,
    Failed { ret: i64 },
    Other,
}

/// What came of an operation.
#[derive(Debug)]
pub enum ServerReply {
    /// The token of the operation.
    Issued(Result<u64, Fail>),
    /// Which of the operations completed, and its result.
    Waited(Result<(usize, QResult), Fail>),
    /// Memory.
    Allocated(Result<SgArray, Fail>),
    /// Whether the operation succeeded.
    Done(Result<(), Fail>),
}

impl View for QValue {
    type V = ValueView;

    open spec fn view(&self) -> ValueView {
        match *self {
            QValue::Accept { qd, addr } => ValueView::Accept { qd, addr: addr@ },
            QValue::Pop { sga } => ValueView::Pop { sga: sga@ },
            QValue::Push => ValueView::Push,
            QValue::Failed { ret } => ValueView::Failed { ret },
            QValue::Other => ValueView::Other,
        }
    }
}

impl View for ServerReply {
    type V = ReplyView;

    open spec fn view(&self) -> ReplyView {
        match *self {
            ServerReply::Issued(result) => ReplyView::Issued(result_view(result)),
            ServerReply::Waited(Ok((index, qr))) => ReplyView::Completed {
                index: index as nat,
                qd: qr.qr_qd,
                value: qr.qr_value@,
            },
            ServerReply::Waited(Err(fail)) => ReplyView::WaitFailed(fail@),
            ServerReply::Allocated(Ok(sga)) => ReplyView::Allocated(Ok(sga@)),
            ServerReply::Allocated(Err(fail)) => ReplyView::Allocated(Err(fail@)),
            ServerReply::Done(result) => ReplyView::Done(result_view(result)),
        }
    }
}

/// Whether `reply` can come of the operation that `phase` names: an operation that completed is one that the server
/// waits for, and there is memory behind what came in and what was allocated.
pub open spec fn fits(server: ServerView, phase: PhaseView, reply: ReplyView) -> bool {
    match phase {
        PhaseView::Accepting | PhaseView::PoppingNew { .. } | PhaseView::Pushing { .. } | PhaseView::PoppingNext {
            ..
        } => reply is Issued,
        PhaseView::Waiting => match reply {
            ReplyView::Completed { index, value, .. } => {
                &&& index < server.pending_qtokens.len()
                &&& value matches ValueView::Pop { sga } ==> sga_is_backed(sga)
                &&& value matches ValueView::Accept { addr, .. } ==> addr.len() == 14
            },
            ReplyView::WaitFailed(_) => true,
            _ => false,
        },
        PhaseView::Allocating { .. } => reply matches ReplyView::Allocated(allocated) && (allocated matches Ok(sga)
            ==> sga_is_backed(sga)),
        PhaseView::Freeing { .. } | PhaseView::Closing { .. } => reply is Done,
    }
}

/// The server goes on in `phase`.
pub open spec fn go(server: ServerView, phase: PhaseView) -> (ServerView, Result<PhaseView, ServerErrorView>) {
    (server, Ok(phase))
}

/// The server ends.
pub open spec fn end(server: ServerView, error: ServerErrorView) -> (ServerView, Result<
    PhaseView,
    ServerErrorView,
>) {
    (server, Err(error))
}

/// Whether the client closed its side: the last segment of what came in is empty.
pub open spec fn is_last(sga: Seq<SegmentView>) -> bool {
    sga.len() > 0 && sga.last().len == 0
}

/// What came in, without the empty segment that says that the client closed its side.
pub open spec fn without_mark(sga: Seq<SegmentView>) -> Seq<SegmentView> {
    if is_last(sga) {
        sga.drop_last()
    } else {
        sga
    }
}

/// How the server goes on with what came from a client: the first segment from `from` on that is not empty goes back,
/// which only a connected client can be sent; if there is none, the memory is freed.
pub open spec fn echoing(
    server: ServerView,
    qd: u32,
    sga: Seq<SegmentView>,
    from: nat,
    closing: bool,
) -> Result<PhaseView, ServerErrorView>
    decreases sga.len() - from,
{
    if from >= sga.len() {
        Ok(PhaseView::Freeing { qd, sga, closing })
    } else if sga[from as int].len == 0 {
        echoing(server, qd, sga, from + 1, closing)
    } else if server.connected_clients.contains(qd) {
        Ok(PhaseView::Allocating { echo: EchoView { qd, sga, next: from, closing } })
    } else {
        Err(ServerErrorView::NotConnected { qd })
    }
}

/// How the server goes on once a client is gone.
pub open spec fn dropping(server: ServerView, qd: u32) -> (ServerView, Result<PhaseView, ServerErrorView>) {
    if server.connected_clients.contains(qd) {
        go(server.disconnect(qd), PhaseView::Closing { qd })
    } else {
        go(server, PhaseView::Waiting)
    }
}

/// How the server goes on with an operation that completed.
pub open spec fn completing(server: ServerView, qd: u32, value: ValueView) -> (ServerView, Result<
    PhaseView,
    ServerErrorView,
>) {
    match value {
        ValueView::Accept { qd: new_qd, addr } => go(
            server.connect(new_qd),
            PhaseView::PoppingNew { qd: new_qd, remote_addr: spec_remote_addr(addr) },
        ),
        ValueView::Pop { sga } => (server, echoing(server, qd, without_mark(sga), 0, is_last(sga))),
        ValueView::Push => go(server, PhaseView::Waiting),
        ValueView::Failed { ret } => if spec_is_closed(ret) {
            dropping(server, qd)
        } else {
            go(server, PhaseView::Waiting)
        },
        ValueView::Other => go(server, PhaseView::Waiting),
    }
}

/// What the server becomes, and how it goes on or why it ends, after `reply`.
pub open spec fn resumed(server: ServerView, phase: PhaseView, reply: ReplyView) -> (ServerView, Result<
    PhaseView,
    ServerErrorView,
>) {
    match (phase, reply) {
        (_, ReplyView::Issued(Err(fail))) => end(server, ServerErrorView::LibOS(fail)),
        (_, ReplyView::Allocated(Err(fail))) => end(server, ServerErrorView::LibOS(fail)),
        (_, ReplyView::Done(Err(fail))) => end(server, ServerErrorView::LibOS(fail)),
        (PhaseView::Accepting, ReplyView::Issued(Ok(qt))) => go(server.pend(qt), PhaseView::Waiting),
        (PhaseView::Waiting, ReplyView::WaitFailed(fail)) => if fail.errno == ETIMEDOUT {
            go(server, PhaseView::Waiting)
        } else {
            end(server, ServerErrorView::Wait(fail))
        },
        (PhaseView::Waiting, ReplyView::Completed { index, qd, value }) => completing(
            ServerView { pending_qtokens: server.pending_qtokens.remove(index as int), ..server },
            qd,
            value,
        ),
        (PhaseView::PoppingNew { .. }, ReplyView::Issued(Ok(qt))) => go(server.pend(qt), PhaseView::Accepting),
        (PhaseView::Allocating { echo }, ReplyView::Allocated(Ok(memory))) => {
            let payload = echo.sga[echo.next as int].bytes();
            if memory.len() == 0 {
                end(server, ServerErrorView::EmptySgArray)
            } else if capacity(memory) < payload.len() {
                end(server, ServerErrorView::ShortCopy { copied: capacity(memory), total: payload.len() })
            } else {
                go(server, PhaseView::Pushing { echo, reply: scattered(payload, memory) })
            }
        },
        (PhaseView::Pushing { echo, .. }, ReplyView::Issued(Ok(qt))) => (
            server.pend(qt),
            echoing(server.pend(qt), echo.qd, echo.sga, echo.next + 1, echo.closing),
        ),
        (PhaseView::Freeing { qd, closing, .. }, ReplyView::Done(Ok(_))) => if closing {
            dropping(server, qd)
        } else {
            go(server, PhaseView::PoppingNext { qd })
        },
        (PhaseView::Closing { .. }, ReplyView::Done(Ok(_))) => go(server, PhaseView::Waiting),
        (PhaseView::PoppingNext { .. }, ReplyView::Issued(Ok(qt))) => go(server.pend(qt), PhaseView::Waiting),
        _ => go(server, phase),
    }
}

/// Whether `result` goes on, or ends, as `spec` says.
pub open spec fn agrees(result: Result<Phase, ServerError>, spec: Result<PhaseView, ServerErrorView>) -> bool {
    match (result, spec) {
        (Ok(phase), Ok(view)) => phase@ == view && view.wf(),
        (Err(error), Err(view)) => error@ == view,
        _ => false,
    }
}

impl TcpServer {
    /// Starts the event loop.
    pub fn run(&self) -> (phase: Phase)
        ensures
            phase@ is Accepting,
            phase@.wf(),
    {
        Phase::Accepting
    }

    /// The operation that is next.
    pub open spec fn spec_action<'a>(&'a self, phase: &'a Phase) -> ServerAction<'a> {
        match *phase {
            Phase::Accepting => ServerAction::Accept { qd: self.listening_sockqd },
            Phase::Waiting => ServerAction::WaitAny { qtokens: &self.pending_qtokens, timeout_ms: WAIT_TIMEOUT_MS },
            Phase::PoppingNew { qd, .. } => ServerAction::Pop { qd },
            Phase::Allocating { echo } => ServerAction::Allocate {
                size: echo.sga.segments[echo.next as int].data_len_bytes as usize,
            },
            Phase::Pushing { echo, reply } => ServerAction::Push { qd: echo.qd, sga: &reply },
            Phase::Freeing { sga, .. } => ServerAction::Free { sga: &sga },
            Phase::Closing { qd } => ServerAction::Close { qd },
            Phase::PoppingNext { qd } => ServerAction::Pop { qd },
        }
    }

    /// The operation that is next.
    pub fn action<'a>(&'a self, phase: &'a Phase) -> (action: ServerAction<'a>)
        requires
            phase@.wf(),
        ensures
            action == self.spec_action(phase),
    {
        match phase {
            Phase::Accepting => ServerAction::Accept { qd: self.listening_sockqd },
            Phase::Waiting => ServerAction::WaitAny { qtokens: &self.pending_qtokens, timeout_ms: WAIT_TIMEOUT_MS },
            Phase::PoppingNew { qd, .. } => ServerAction::Pop { qd: *qd },
            Phase::Allocating { echo } => ServerAction::Allocate {
                size: echo.sga.segments[echo.next].data_len_bytes as usize,
            },
            Phase::Pushing { echo, reply } => ServerAction::Push { qd: echo.qd, sga: reply },
            Phase::Freeing { sga, .. } => ServerAction::Free { sga },
            Phase::Closing { qd } => ServerAction::Close { qd: *qd },
            Phase::PoppingNext { qd } => ServerAction::Pop { qd: *qd },
        }
    }

    /// Goes on with what came from a client, from the segment `from` on.
    pub fn process_sga(&self, qd: u32, sga: SgArray, from: usize, closing: bool) -> (next: Result<Phase, ServerError>)
        requires
            from <= sga@.len(),
            sga_is_backed(sga@),
        ensures
            agrees(next, echoing(self@, qd, sga@, from as nat, closing)),
    {
        let mut i: usize = from;
        while i < sga.segments.len()
            invariant
                i <= sga@.len(),
                sga_is_backed(sga@),
                echoing(self@, qd, sga@, i as nat, closing) == echoing(self@, qd, sga@, from as nat, closing),
            decreases sga@.len() - i,
        {
            assert(sga@[i as int] == sga.segments@[i as int]@);
            if sga.segments[i].data_len_bytes > 0 {
                if let Some(data) = &sga.segments[i].data {
                    return match self.send_async(qd, data.as_slice()) {
                        Ok(_) => Ok(Phase::Allocating { echo: Echo { qd, sga, next: i, closing } }),
                        Err(error) => Err(error),
                    };
                }
            }
            i = i + 1;
        }
        Ok(Phase::Freeing { qd, sga, closing })
    }

    /// Goes on with an operation that completed.
    fn complete(&mut self, qr: QResult) -> (next: Result<Phase, ServerError>)
        requires
            qr.qr_value@ matches ValueView::Pop { sga } ==> sga_is_backed(sga),
        ensures
            final(self)@ == completing(old(self)@, qr.qr_qd, qr.qr_value@).0,
            agrees(next, completing(old(self)@, qr.qr_qd, qr.qr_value@).1),
    {
        let qd: u32 = qr.qr_qd;
        if let QValue::Accept { addr, .. } = &qr.qr_value {
            let remote_addr = self.extract_remote_addr(addr);
            return match self.handle_accept(&qr) {
                Ok(new_qd) => Ok(Phase::PoppingNew { qd: new_qd, remote_addr }),
                Err(error) => Err(error),
            };
        }
        match qr.qr_value {
            QValue::Pop { sga } => {
                let mut sga = sga;
                let n: usize = sga.segments.len();
                let ghost all = sga@;
                let closing = n > 0 && sga.segments[n - 1].data_len_bytes == 0;
                if closing {
                    let _ = sga.segments.pop();
                    assert(sga@ =~= all.drop_last());
                }
                self.process_sga(qd, sga, 0, closing)
            },
            QValue::Failed { ret } => if self.handle_fail(qd, ret) {
                Ok(Phase::Closing { qd })
            } else {
                Ok(Phase::Waiting)
            },
            _ => Ok(Phase::Waiting),
        }
    }

    /// Goes on after the operation that [`TcpServer::action`] named in `phase` brought `reply`.
    pub fn resume(&mut self, phase: Phase, reply: ServerReply) -> (next: Result<Phase, ServerError>)
        requires
            phase@.wf(),
            fits(old(self)@, phase@, reply@),
        ensures
            final(self)@ == resumed(old(self)@, phase@, reply@).0,
            agrees(next, resumed(old(self)@, phase@, reply@).1),
    {
        match (phase, reply) {
            (Phase::Accepting, ServerReply::Issued(issued)) => match self.issue_accept(issued) {
                Ok(_) => Ok(Phase::Waiting),
                Err(error) => Err(error),
            },
            (Phase::Waiting, ServerReply::Waited(waited)) => match waited {
                Ok((index, qr)) => {
                    let _ = self.pending_qtokens.remove(index);
                    self.complete(qr)
                },
                Err(fail) => if fail.errno == etimedout() {
                    Ok(Phase::Waiting)
                } else {
                    Err(ServerError::Wait(fail))
                },
            },
            (Phase::PoppingNew { .. }, ServerReply::Issued(issued)) => match self.issue_pop(issued) {
                Ok(qt) => {
                    self.pending_qtokens.push(qt);
                    Ok(Phase::Accepting)
                },
                Err(error) => Err(error),
            },
            (Phase::Allocating { echo }, ServerReply::Allocated(allocated)) => {
                assert(echo.sga@[echo.next as int] == echo.sga.segments@[echo.next as int]@);
                match &echo.sga.segments[echo.next].data {
                    Some(payload) => match TcpServer::make_sgarray(payload.as_slice(), allocated) {
                        Ok(reply) => Ok(Phase::Pushing { echo, reply }),
                        Err(error) => Err(error),
                    },
                    None => Ok(Phase::Waiting),
                }
            },
            (Phase::Pushing { echo, .. }, ServerReply::Issued(issued)) => match self.issue_push(issued) {
                Ok(_) => self.process_sga(echo.qd, echo.sga, echo.next + 1, echo.closing),
                Err(error) => Err(error),
            },
            (Phase::Freeing { qd, closing, .. }, ServerReply::Done(freed)) => match freed {
                Ok(_) => if !closing {
                    Ok(Phase::PoppingNext { qd })
                } else if self.close_connection(qd) {
                    Ok(Phase::Closing { qd })
                } else {
                    Ok(Phase::Waiting)
                },
                Err(fail) => Err(ServerError::LibOS(fail)),
            },
            (Phase::Closing { .. }, ServerReply::Done(closed)) => match closed {
                Ok(_) => Ok(Phase::Waiting),
                Err(fail) => Err(ServerError::LibOS(fail)),
            },
            (Phase::PoppingNext { .. }, ServerReply::Issued(issued)) => match self.issue_pop(issued) {
                Ok(qt) => {
                    self.pending_qtokens.push(qt);
                    Ok(Phase::Waiting)
                },
                Err(error) => Err(error),
            },
            (phase, _) => Ok(phase),
        }
    }
}

/// Clients come by being accepted and go by being closed, and in no other way. The server waits for every operation
/// that it issued, less those that completed.
pub proof fn law_clients_and_operations_are_tracked(server: ServerView, phase: PhaseView, reply: ReplyView)
    requires
        fits(server, phase, reply),
    ensures
        ({
            let (after, next) = resumed(server, phase, reply);
            &&& after.local_addr == server.local_addr
            &&& after.listening_sockqd == server.listening_sockqd
            &&& after.connected_clients == match (reply, next) {
                (ReplyView::Completed { value: ValueView::Accept { qd, .. }, .. }, _) => {
                    server.connected_clients.insert(qd)
                },
                (_, Ok(PhaseView::Closing { qd })) => server.connected_clients.remove(qd),
                _ => server.connected_clients,
            }
            &&& after.pending_qtokens == match reply {
                ReplyView::Completed { index, .. } => server.pending_qtokens.remove(index as int),
                ReplyView::Issued(Ok(qt)) => server.pending_qtokens.push(qt),
                _ => server.pending_qtokens,
            }
        }),
{
    let started = ServerView {
        pending_qtokens: match reply {
            ReplyView::Completed { index, .. } => server.pending_qtokens.remove(index as int),
            ReplyView::Issued(Ok(qt)) => server.pending_qtokens.push(qt),
            _ => server.pending_qtokens,
        },
        ..server
    };
    if let PhaseView::Pushing { echo, .. } = phase {
        lemma_echoing_never_closes(started, echo.qd, echo.sga, echo.next + 1, echo.closing);
    }
    if let ReplyView::Completed { qd, value: ValueView::Pop { sga }, .. } = reply {
        lemma_echoing_never_closes(started, qd, without_mark(sga), 0, is_last(sga));
    }
}

proof fn lemma_echoing_never_closes(server: ServerView, qd: u32, sga: Seq<SegmentView>, from: nat, closing: bool)
    ensures
        !(echoing(server, qd, sga, from, closing) matches Ok(PhaseView::Closing { .. })),
    decreases sga.len() - from,
{
    if from < sga.len() {
        lemma_echoing_never_closes(server, qd, sga, from + 1, closing);
    }
}

/// A descriptor is closed when its client is dropped, so it is closed at most once.
pub proof fn law_closed_client_was_connected(server: ServerView, phase: PhaseView, reply: ReplyView, qd: u32)
    requires
        fits(server, phase, reply),
        resumed(server, phase, reply).1 == Ok::<PhaseView, ServerErrorView>(PhaseView::Closing { qd }),
    ensures
        server.connected_clients.contains(qd),
        !resumed(server, phase, reply).0.connected_clients.contains(qd),
{
    if let PhaseView::Pushing { echo, .. } = phase {
        if let ReplyView::Issued(Ok(qt)) = reply {
            lemma_echoing_never_closes(server.pend(qt), echo.qd, echo.sga, echo.next + 1, echo.closing);
        }
    }
    if let ReplyView::Completed { index, qd: from, value: ValueView::Pop { sga } } = reply {
        let started = ServerView { pending_qtokens: server.pending_qtokens.remove(index as int), ..server };
        lemma_echoing_never_closes(started, from, without_mark(sga), 0, is_last(sga));
    }
}

/// Once a client is accepted it is connected, and the server waits both for what the client sends and for the next
/// connection.
pub proof fn law_accepting_goes_on(
    server: ServerView,
    index: nat,
    qd: u32,
    new_qd: u32,
    addr: Seq<u8>,
    pop: u64,
    accept: u64,
)
    requires
        index < server.pending_qtokens.len(),
        addr.len() == 14,
    ensures
        ({
            let reply = ReplyView::Completed { index, qd, value: ValueView::Accept { qd: new_qd, addr } };
            let (first, popping) = resumed(server, PhaseView::Waiting, reply);
            let (second, accepting) = resumed(first, popping->Ok_0, ReplyView::Issued(Ok(pop)));
            let (third, waiting) = resumed(second, accepting->Ok_0, ReplyView::Issued(Ok(accept)));
            &&& popping == Ok::<_, ServerErrorView>(
                PhaseView::PoppingNew { qd: new_qd, remote_addr: spec_remote_addr(addr) },
            )
            &&& accepting == Ok::<_, ServerErrorView>(PhaseView::Accepting)
            &&& waiting == Ok::<_, ServerErrorView>(PhaseView::Waiting)
            &&& third.connected_clients == server.connected_clients.insert(new_qd)
            &&& third.pending_qtokens == server.pending_qtokens.remove(index as int).push(pop).push(accept)
        }),
{
}

/// Once what came from a client went back and its memory was freed, the server waits for what the client sends next,
/// unless the client closed its side.
pub proof fn law_reading_goes_on(server: ServerView, qd: u32, sga: Seq<SegmentView>, pop: u64)
    ensures
        ({
            let freeing = PhaseView::Freeing { qd, sga, closing: false };
            let (first, popping) = resumed(server, freeing, ReplyView::Done(Ok(())));
            let (second, waiting) = resumed(first, popping->Ok_0, ReplyView::Issued(Ok(pop)));
            &&& popping == Ok::<_, ServerErrorView>(PhaseView::PoppingNext { qd })
            &&& waiting == Ok::<_, ServerErrorView>(PhaseView::Waiting)
            &&& second == server.pend(pop)
        }),
{
}

/// What `replies` make the server send, with the client that it goes to.
pub open spec fn pushes(server: ServerView, phase: PhaseView, replies: Seq<ReplyView>) -> Seq<
    (u32, Seq<SegmentView>),
>
    decreases replies.len(),
{
    if replies.len() == 0 {
        Seq::empty()
    } else {
        let sent = match (phase, replies[0]) {
            (PhaseView::Pushing { echo, reply }, ReplyView::Issued(Ok(_))) => seq![(echo.qd, reply)],
            _ => Seq::empty(),
        };
        let (after, next) = resumed(server, phase, replies[0]);
        match next {
            Ok(next) => sent + pushes(after, next, replies.skip(1)),
            Err(_) => sent,
        }
    }
}

/// The bytes that are sent.
pub open spec fn sent_bytes(sent: Seq<(u32, Seq<SegmentView>)>) -> Seq<u8>
    decreases sent.len(),
{
    if sent.len() == 0 {
        Seq::empty()
    } else {
        gathered(sent[0].1) + sent_bytes(sent.skip(1))
    }
}

/// Whether `replies` take the server from `phase` to the point where everything went back. Every operation succeeds,
/// and the memory that is allocated for a segment is as large as the segment.
pub open spec fn all_goes_back(server: ServerView, phase: PhaseView, replies: Seq<ReplyView>) -> bool
    decreases replies.len(),
{
    if replies.len() == 0 {
        phase is Freeing
    } else {
        &&& fits(server, phase, replies[0])
        &&& match (phase, replies[0]) {
            (PhaseView::Allocating { echo }, ReplyView::Allocated(Ok(memory))) => {
                gathered(memory).len() == echo.sga[echo.next as int].len
            },
            (PhaseView::Pushing { .. }, ReplyView::Issued(Ok(_))) => true,
            _ => false,
        }
        &&& resumed(server, phase, replies[0]).1 matches Ok(next) && all_goes_back(
            resumed(server, phase, replies[0]).0,
            next,
            replies.skip(1),
        )
    }
}

/// The bytes that have yet to go back.
pub open spec fn unsent(phase: PhaseView) -> Seq<u8> {
    match phase {
        PhaseView::Allocating { echo } => gathered(echo.sga.skip(echo.next as int)),
        PhaseView::Pushing { echo, reply } => gathered(reply) + gathered(echo.sga.skip(echo.next as int + 1)),
        _ => Seq::empty(),
    }
}

/// The client that bytes go back to.
pub open spec fn peer(phase: PhaseView) -> u32 {
    match phase {
        PhaseView::Allocating { echo } => echo.qd,
        PhaseView::Pushing { echo, .. } => echo.qd,
        PhaseView::Freeing { qd, .. } => qd,
        _ => 0,
    }
}

proof fn lemma_echoing(server: ServerView, qd: u32, sga: Seq<SegmentView>, from: nat, closing: bool)
    requires
        sga_is_backed(sga),
        from <= sga.len() <= usize::MAX,
    ensures
        echoing(server, qd, sga, from, closing) matches Ok(phase) ==> {
            &&& phase.wf()
            &&& unsent(phase) == gathered(sga.skip(from as int))
            &&& peer(phase) == qd
        },
    decreases sga.len() - from,
{
    if from < sga.len() {
        let rest = sga.skip(from as int);
        assert(rest[0] == sga[from as int]);
        assert(rest.skip(1) =~= sga.skip(from as int + 1));
        if sga[from as int].len == 0 {
            assert(sga[from as int].is_backed());
            assert(rest[0].bytes() =~= Seq::<u8>::empty());
            assert(gathered(rest) =~= gathered(rest.skip(1)));
            lemma_echoing(server, qd, sga, from + 1, closing);
        }
    } else {
        assert(sga.skip(from as int) =~= Seq::<SegmentView>::empty());
    }
}

proof fn lemma_everything_goes_back(server: ServerView, phase: PhaseView, replies: Seq<ReplyView>)
    requires
        phase is Allocating || phase is Pushing || phase is Freeing,
        phase.wf(),
        all_goes_back(server, phase, replies),
    ensures
        sent_bytes(pushes(server, phase, replies)) == unsent(phase),
        forall|i: int|
            0 <= i < pushes(server, phase, replies).len() ==> (#[trigger] pushes(server, phase, replies)[i]).0 == peer(
                phase,
            ),
    decreases replies.len(),
{
    if replies.len() > 0 {
        let rest = replies.skip(1);
        let after = resumed(server, phase, replies[0]).0;
        let next = resumed(server, phase, replies[0]).1->Ok_0;
        let later = pushes(after, next, rest);
        match phase {
            PhaseView::Allocating { echo } => {
                let memory = replies[0]->Allocated_0->Ok_0;
                let segments = echo.sga.skip(echo.next as int);
                let payload = segments[0].bytes();
                assert(segments[0] == echo.sga[echo.next as int]);
                assert(segments[0].is_backed());
                law_gather_of_scattered(payload, memory);
                assert(segments.skip(1) =~= echo.sga.skip(echo.next as int + 1));
                lemma_everything_goes_back(after, next, rest);
                assert(pushes(server, phase, replies) =~= later);
            },
            PhaseView::Pushing { echo, reply } => {
                lemma_echoing(after, echo.qd, echo.sga, echo.next + 1, echo.closing);
                lemma_echoing_phase(after, echo.qd, echo.sga, echo.next + 1, echo.closing);
                lemma_everything_goes_back(after, next, rest);
                let sent = pushes(server, phase, replies);
                assert(sent =~= seq![(echo.qd, reply)] + later);
                assert(sent.skip(1) =~= later);
                assert forall|i: int| 0 <= i < sent.len() implies (#[trigger] sent[i]).0 == echo.qd by {
                    if i > 0 {
                        assert(sent[i] == later[i - 1]);
                    }
                }
            },
            _ => {},
        }
    }
}

proof fn lemma_echoing_phase(server: ServerView, qd: u32, sga: Seq<SegmentView>, from: nat, closing: bool)
    ensures
        echoing(server, qd, sga, from, closing) matches Ok(phase) ==> phase is Allocating || phase is Freeing,
    decreases sga.len() - from,
{
    if from < sga.len() {
        lemma_echoing_phase(server, qd, sga, from + 1, closing);
    }
}

proof fn lemma_mark_is_empty(sga: Seq<SegmentView>)
    requires
        sga_is_backed(sga),
    ensures
        gathered(without_mark(sga)) == gathered(sga),
        sga_is_backed(without_mark(sga)),
    decreases sga.len(),
{
    if is_last(sga) {
        let short = sga.drop_last();
        if sga.len() == 1 {
            assert(sga[0].is_backed());
            assert(gathered(sga.skip(1)) =~= Seq::<u8>::empty());
            assert(gathered(sga) =~= gathered(short));
        } else {
            let rest = sga.skip(1);
            assert(rest.last() == sga.last());
            assert forall|i: int| 0 <= i < rest.len() implies (#[trigger] rest[i]).is_backed() by {
                assert(sga[i + 1].is_backed());
            }
            lemma_mark_is_empty(rest);
            assert(rest.drop_last() =~= short.skip(1));
        }
    }
}

/// The server sends back to a client the bytes that came from it, all of them and in order, and sends them to no one
/// else.
pub proof fn law_echo(
    server: ServerView,
    index: nat,
    qd: u32,
    sga: Seq<SegmentView>,
    replies: Seq<ReplyView>,
)
    requires
        sga.len() <= usize::MAX,
        ({
            let reply = ReplyView::Completed { index, qd, value: ValueView::Pop { sga } };
            let (after, next) = resumed(server, PhaseView::Waiting, reply);
            &&& fits(server, PhaseView::Waiting, reply)
            &&& next matches Ok(phase) && all_goes_back(after, phase, replies)
        }),
    ensures
        ({
            let reply = ReplyView::Completed { index, qd, value: ValueView::Pop { sga } };
            let sent = pushes(server, PhaseView::Waiting, seq![reply] + replies);
            &&& sent_bytes(sent) == gathered(sga)
            &&& forall|i: int| 0 <= i < sent.len() ==> (#[trigger] sent[i]).0 == qd
        }),
{
    let reply = ReplyView::Completed { index, qd, value: ValueView::Pop { sga } };
    let after = resumed(server, PhaseView::Waiting, reply).0;
    let phase = resumed(server, PhaseView::Waiting, reply).1->Ok_0;
    let data = without_mark(sga);
    lemma_mark_is_empty(sga);
    lemma_echoing(after, qd, data, 0, is_last(sga));
    lemma_echoing_phase(after, qd, data, 0, is_last(sga));
    assert(data.skip(0) =~= data);
    lemma_everything_goes_back(after, phase, replies);
    let all = seq![reply] + replies;
    assert(all.skip(1) =~= replies);
    assert(all[0] == reply);
    assert(pushes(server, PhaseView::Waiting, all) =~= pushes(after, phase, replies));
}

/// Bytes from a descriptor that is no client's end the server; without bytes, they do not.
pub proof fn law_strangers_are_not_answered(server: ServerView, qd: u32, sga: Seq<SegmentView>, closing: bool)
    requires
        sga_is_backed(sga),
        !server.connected_clients.contains(qd),
    ensures
        echoing(server, qd, sga, 0, closing) == if gathered(sga).len() > 0 {
            Err::<PhaseView, ServerErrorView>(ServerErrorView::NotConnected { qd })
        } else {
            Ok(PhaseView::Freeing { qd, sga, closing })
        },
{
    lemma_stranger(server, qd, sga, 0, closing);
    assert(sga.skip(0) =~= sga);
}

proof fn lemma_stranger(server: ServerView, qd: u32, sga: Seq<SegmentView>, from: nat, closing: bool)
    requires
        sga_is_backed(sga),
        from <= sga.len(),
        !server.connected_clients.contains(qd),
    ensures
        echoing(server, qd, sga, from, closing) == if gathered(sga.skip(from as int)).len() > 0 {
            Err::<PhaseView, ServerErrorView>(ServerErrorView::NotConnected { qd })
        } else {
            Ok(PhaseView::Freeing { qd, sga, closing })
        },
    decreases sga.len() - from,
{
    let rest = sga.skip(from as int);
    if from < sga.len() {
        assert(sga[from as int].is_backed());
        assert(rest[0] == sga[from as int]);
        assert(rest.skip(1) =~= sga.skip(from as int + 1));
        if sga[from as int].len == 0 {
            lemma_stranger(server, qd, sga, from + 1, closing);
        }
    }
}

} // verus!
