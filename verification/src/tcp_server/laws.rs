//! What the server promises of its operations and its clients.

use crate::runtime::fail::{Fail, FailView};
use crate::runtime::network::{SocketAddr, SocketAddrV4};
use crate::tcp_server::connection::{
    outcome, reported, spec_is_closed, spec_remote_addr, ServerError, ServerErrorView, ServerSetup, ServerView,
    SetupAction, SetupReply, SetupStep, TcpServer,
};
use crate::tcp_server::event_loop::{
    all_goes_back, echoing, fits, resumed, EchoView, Phase, PhaseView, ReplyView, ServerAction, ValueView,
};
use crate::tcp_server::sgarray::{
    capacity, gathered, law_gather_of_scattered, law_scatter_keeps_shape, sga_is_backed, SegmentView,
};
use vstd::prelude::*;

verus! {

/// Each operation is on the descriptor that its phase is about: the server accepts on the descriptor on which it
/// listens, receives from and sends to the client in question, and closes that client. It waits for all operations that
/// are pending, asks for as much memory as a segment takes, and sends and frees the bytes in question.
pub proof fn law_operations_are_on_their_descriptors(server: TcpServer, phase: Phase)
    requires
        phase@.wf(),
    ensures
        match (phase@, server.spec_action(&phase)) {
            (PhaseView::Accepting, ServerAction::Accept { qd }) => qd == server@.listening_sockqd,
            (PhaseView::Waiting, ServerAction::WaitAny { qtokens, timeout_ms }) => {
                qtokens@ == server@.pending_qtokens && timeout_ms == 10
            },
            (PhaseView::PoppingNew { qd: client, .. }, ServerAction::Pop { qd }) => qd == client,
            (PhaseView::PoppingNext { qd: client }, ServerAction::Pop { qd }) => qd == client,
            (PhaseView::Allocating { echo }, ServerAction::Allocate { size }) => {
                size == echo.sga[echo.next as int].len == echo.sga[echo.next as int].bytes().len()
            },
            (PhaseView::Pushing { echo, reply }, ServerAction::Push { qd, sga }) => qd == echo.qd && sga@ == reply,
            (PhaseView::Freeing { sga: received, .. }, ServerAction::Free { sga }) => sga@ == received,
            (PhaseView::Closing { qd: client }, ServerAction::Close { qd }) => qd == client,
            _ => false,
        },
{
    if let PhaseView::Allocating { echo } = phase@ {
        assert(echo.sga[echo.next as int].is_backed());
    }
}

/// Once the bytes of a client went back and were freed, without the client closing its side, the next operation is a
/// receive on the descriptor of that client, and the server then waits for it.
pub proof fn law_next_read_is_on_the_client(
    server: TcpServer,
    qd: u32,
    sga: Seq<SegmentView>,
    next: Phase,
    pop: u64,
)
    requires
        resumed(server@, PhaseView::Freeing { qd, sga, closing: false }, ReplyView::Done(Ok(()))).1 == Ok::<
            PhaseView,
            ServerErrorView,
        >(next@),
    ensures
        server.spec_action(&next) == (ServerAction::Pop { qd }),
        resumed(server@, next@, ReplyView::Issued(Ok(pop))) == (
            ServerView { pending_qtokens: server@.pending_qtokens.push(pop), ..server@ },
            Ok::<PhaseView, ServerErrorView>(PhaseView::Waiting),
        ),
{
}

/// A client that was accepted is received from on its own descriptor, and the next connection is accepted on the
/// descriptor on which the server listens.
pub proof fn law_first_read_is_on_the_client(
    server: TcpServer,
    index: nat,
    qd: u32,
    new_qd: u32,
    addr: Seq<u8>,
    accepted: Phase,
    after: TcpServer,
    popped: Phase,
    pop: u64,
)
    requires
        index < server@.pending_qtokens.len(),
        addr.len() == 14,
        resumed(
            server@,
            PhaseView::Waiting,
            ReplyView::Completed { index, qd, value: ValueView::Accept { qd: new_qd, addr } },
        ).1 == Ok::<PhaseView, ServerErrorView>(accepted@),
        resumed(after@, accepted@, ReplyView::Issued(Ok(pop))).1 == Ok::<PhaseView, ServerErrorView>(popped@),
    ensures
        after.spec_action(&accepted) == (ServerAction::Pop { qd: new_qd }),
        after.spec_action(&popped) == (ServerAction::Accept { qd: after@.listening_sockqd }),
{
}

/// What happens to a server: an operation more to wait for, a client more, a client less.
pub proof fn law_changes_of_server(server: ServerView, qt: u64, qd: u32, other: u32)
    ensures
        server.pend(qt) == (ServerView { pending_qtokens: server.pending_qtokens + seq![qt], ..server }),
        server.connect(qd) == (ServerView { connected_clients: server.connect(qd).connected_clients, ..server }),
        server.disconnect(qd) == (ServerView { connected_clients: server.disconnect(qd).connected_clients, ..server }),
        server.connect(qd).connected_clients.contains(other) <==> other == qd || server.connected_clients.contains(
            other,
        ),
        server.disconnect(qd).connected_clients.contains(other) <==> other != qd && server.connected_clients.contains(
            other,
        ),
{
    assert(server.pending_qtokens.push(qt) =~= server.pending_qtokens + seq![qt]);
}

/// A return value says that the connection is closed by its low 32 bits alone: if they are the number of one of four
/// errors.
pub proof fn law_return_values_of_closed_connections(ret: i64, other: i64, turns: int)
    requires
        other == ret + turns * 0x1_0000_0000,
    ensures
        spec_is_closed(ret) == spec_is_closed(other),
        0 <= ret < 0x1_0000_0000 ==> (spec_is_closed(ret) <==> ret == 104 || ret == 107 || ret == 125 || ret == 9),
{
    assert((ret + turns * 0x1_0000_0000) % 0x1_0000_0000 == ret as int % 0x1_0000_0000) by {
        vstd::arithmetic::div_mod::lemma_mod_multiples_vanish(turns, ret as int, 0x1_0000_0000);
    }
}

/// A client's address: two bytes of port and four of IPv4 address, each with the more significant bytes first.
pub proof fn law_address_of_client(addr: Seq<u8>)
    requires
        addr.len() == 14,
    ensures
        spec_remote_addr(addr) matches SocketAddr::V4(SocketAddrV4 { ip, port }) && port == 256 * addr[0] + addr[1]
            && ip.bytes() =~= addr.subrange(2, 6),
{
}

/// What came of an operation is reported as it is.
pub proof fn law_reports(issued: Result<u64, Fail>, error: ServerError)
    ensures
        issued matches Ok(qt) ==> reported(issued) == Ok::<u64, ServerErrorView>(qt),
        issued matches Err(fail) ==> reported(issued) == Err::<u64, ServerErrorView>(ServerErrorView::LibOS(fail@)),
        outcome(Err::<u64, ServerError>(error)) == Err::<u64, ServerErrorView>(error@),
        outcome(Ok::<u64, ServerError>(7)) == Ok::<u64, ServerErrorView>(7),
{
}

/// A server that gets its socket, its address and the right to listen is ready: it listens on that socket, has no
/// clients and waits for nothing. Each operation on the way is on that socket.
pub proof fn law_server_is_set_up(
    setup: ServerSetup,
    qd: u32,
    first: Result<SetupStep, ServerError>,
    second: Result<SetupStep, ServerError>,
    third: Result<SetupStep, ServerError>,
)
    requires
        setup.stage is Socket,
        setup.goes_on(SetupReply::Socket(Ok(qd)), first),
        first matches Ok(SetupStep::Continue(bind)) ==> bind.goes_on(SetupReply::Done(Ok(())), second),
        second matches Ok(SetupStep::Continue(listen)) ==> listen.goes_on(SetupReply::Done(Ok(())), third),
    ensures
        setup.spec_action() == (SetupAction::Socket { domain: 2, kind: 1, protocol: 0 }),
        first matches Ok(SetupStep::Continue(bind)) && bind.spec_action() == (SetupAction::Bind {
            qd,
            local_addr: setup.local_addr,
        }),
        second matches Ok(SetupStep::Continue(listen)) && listen.spec_action() == (SetupAction::Listen {
            qd,
            backlog: 1024,
        }),
        third matches Ok(SetupStep::Ready(server)) && server@.listening_sockqd == qd && server@.local_addr
            == setup.local_addr && server@.pending_qtokens.len() == 0 && (forall|client: u32|
            !server@.connected_clients.contains(client)),
{
}

/// A server that fails on its way says why: what the operation reported, after the socket, if there was one, was
/// closed; or that the socket could not be closed.
pub proof fn law_failed_setup_says_why(
    setup: ServerSetup,
    fail: Fail,
    close_fail: Fail,
    first: Result<SetupStep, ServerError>,
    closed: Result<SetupStep, ServerError>,
    not_closed: Result<SetupStep, ServerError>,
)
    requires
        setup.stage is Socket ==> setup.goes_on(SetupReply::Socket(Err(fail)), first),
        !(setup.stage is Socket) ==> setup.goes_on(SetupReply::Done(Err(fail)), first),
        first matches Ok(SetupStep::Continue(next)) ==> next.goes_on(SetupReply::Done(Ok(())), closed)
            && next.goes_on(SetupReply::Done(Err(close_fail)), not_closed),
    ensures
        setup.stage is Socket || setup.stage is Close ==> outcome(first) == Err::<SetupStep, ServerErrorView>(
            ServerErrorView::LibOS(fail@),
        ),
        setup.stage is Bind ==> outcome(closed) == Err::<SetupStep, ServerErrorView>(ServerErrorView::Bind(fail@)),
        setup.stage is Listen ==> outcome(closed) == Err::<SetupStep, ServerErrorView>(ServerErrorView::Listen(fail@)),
        setup.stage is Bind || setup.stage is Listen ==> outcome(not_closed) == Err::<SetupStep, ServerErrorView>(
            ServerErrorView::LibOS(close_fail@),
        ),
{
}

/// A failed operation ends the server, and nothing else changes. Waiting in vain does not end it.
pub proof fn law_failures_end_the_server(server: ServerView, phase: PhaseView, fail: FailView)
    ensures
        resumed(server, phase, ReplyView::Issued(Err(fail))) == (
            server,
            Err::<PhaseView, ServerErrorView>(ServerErrorView::LibOS(fail)),
        ),
        resumed(server, phase, ReplyView::Allocated(Err(fail))) == (
            server,
            Err::<PhaseView, ServerErrorView>(ServerErrorView::LibOS(fail)),
        ),
        resumed(server, phase, ReplyView::Done(Err(fail))) == (
            server,
            Err::<PhaseView, ServerErrorView>(ServerErrorView::LibOS(fail)),
        ),
        phase is Waiting && fail.errno == 110 ==> resumed(server, phase, ReplyView::WaitFailed(fail)) == (
            server,
            Ok::<PhaseView, ServerErrorView>(PhaseView::Waiting),
        ),
        phase is Waiting && fail.errno != 110 ==> resumed(server, phase, ReplyView::WaitFailed(fail)) == (
            server,
            Err::<PhaseView, ServerErrorView>(ServerErrorView::Wait(fail)),
        ),
{
}

/// Operations that completed and bring nothing leave the clients alone. One that failed because the connection is
/// closed drops its client, if it is one, whose descriptor is then closed.
pub proof fn law_completed_operations(server: ServerView, index: nat, qd: u32, ret: i64)
    requires
        index < server.pending_qtokens.len(),
    ensures
        ({
            let left = ServerView { pending_qtokens: server.pending_qtokens.remove(index as int), ..server };
            let after = |value: ValueView|
                resumed(server, PhaseView::Waiting, ReplyView::Completed { index, qd, value });
            let pushed = after(ValueView::Push);
            let other = after(ValueView::Other);
            let failed = after(ValueView::Failed { ret });
            let on = Ok::<PhaseView, ServerErrorView>(PhaseView::Waiting);
            &&& pushed == (left, on)
            &&& other == (left, on)
            &&& spec_is_closed(ret) && server.connected_clients.contains(qd) ==> {
                &&& failed.1 == Ok::<PhaseView, ServerErrorView>(PhaseView::Closing { qd })
                &&& failed.0 == (ServerView { connected_clients: server.connected_clients.remove(qd), ..left })
            }
            &&& !spec_is_closed(ret) || !server.connected_clients.contains(qd) ==> failed == (left, on)
        }),
{
}

/// Issuing leads on: after an accept the server waits; after a client's first receive it accepts; after a later one it
/// waits; once a client is closed it waits. What was issued is waited for.
pub proof fn law_issued_operations(server: ServerView, qd: u32, remote_addr: SocketAddr, qt: u64)
    ensures
        ({
            let more = ServerView { pending_qtokens: server.pending_qtokens.push(qt), ..server };
            let issued = ReplyView::Issued(Ok(qt));
            let waits = Ok::<PhaseView, ServerErrorView>(PhaseView::Waiting);
            &&& resumed(server, PhaseView::Accepting, issued) == (more, waits)
            &&& resumed(server, PhaseView::PoppingNew { qd, remote_addr }, issued) == (
                more,
                Ok::<PhaseView, ServerErrorView>(PhaseView::Accepting),
            )
            &&& resumed(server, PhaseView::PoppingNext { qd }, issued) == (more, waits)
            &&& resumed(server, PhaseView::Closing { qd }, ReplyView::Done(Ok(()))) == (server, waits)
        }),
{
}

/// Once the memory of a client's bytes was freed, a client that closed its side is dropped and its descriptor closed,
/// if that was not done before; one that did not is received from again.
pub proof fn law_freed_memory(server: ServerView, qd: u32, sga: Seq<SegmentView>, closing: bool)
    ensures
        ({
            let (after, next) = resumed(server, PhaseView::Freeing { qd, sga, closing }, ReplyView::Done(Ok(())));
            &&& !closing ==> after == server && next == Ok::<PhaseView, ServerErrorView>(PhaseView::PoppingNext { qd })
            &&& closing && server.connected_clients.contains(qd) ==> {
                &&& next == Ok::<PhaseView, ServerErrorView>(PhaseView::Closing { qd })
                &&& after == (ServerView { connected_clients: server.connected_clients.remove(qd), ..server })
            }
            &&& closing && !server.connected_clients.contains(qd) ==> after == server && next == Ok::<
                PhaseView,
                ServerErrorView,
            >(PhaseView::Waiting)
        }),
{
}

/// Memory for a segment: what is sent starts with the bytes of the segment and is as long as the memory, which must be
/// there and large enough.
pub proof fn law_memory_for_answers(server: ServerView, echo: EchoView, memory: Seq<SegmentView>)
    requires
        (PhaseView::Allocating { echo }).wf(),
        sga_is_backed(memory),
        capacity(memory) <= gathered(memory).len(),
    ensures
        ({
            let payload = echo.sga[echo.next as int].bytes();
            let (after, next) = resumed(
                server,
                PhaseView::Allocating { echo },
                ReplyView::Allocated(Ok(memory)),
            );
            &&& after == server
            &&& memory.len() == 0 ==> next == Err::<PhaseView, ServerErrorView>(ServerErrorView::EmptySgArray)
            &&& memory.len() > 0 && capacity(memory) < payload.len() ==> next == Err::<PhaseView, ServerErrorView>(
                ServerErrorView::ShortCopy { copied: capacity(memory), total: payload.len() },
            )
            &&& memory.len() > 0 && capacity(memory) >= payload.len() ==> {
                &&& next matches Ok(PhaseView::Pushing { echo: same, reply })
                &&& same == echo
                &&& reply.len() == memory.len()
                &&& gathered(reply) == payload + gathered(memory).skip(payload.len() as int)
            }
        }),
{
    let payload = echo.sga[echo.next as int].bytes();
    if capacity(memory) >= payload.len() {
        law_gather_of_scattered(payload, memory);
        law_scatter_keeps_shape(payload, memory);
    }
}

/// The first segment with bytes goes back next; segments without are passed over. Where none has bytes, the memory is
/// freed.
pub proof fn law_first_bytes_go_first(
    server: ServerView,
    qd: u32,
    sga: Seq<SegmentView>,
    from: nat,
    next: nat,
    closing: bool,
)
    requires
        from <= next <= sga.len(),
        forall|i: int| from <= i < next ==> (#[trigger] sga[i]).len == 0,
        next < sga.len() ==> sga[next as int].len > 0,
        server.connected_clients.contains(qd),
    ensures
        echoing(server, qd, sga, from, closing) == Ok::<PhaseView, ServerErrorView>(
            if next < sga.len() {
                PhaseView::Allocating { echo: EchoView { qd, sga, next, closing } }
            } else {
                PhaseView::Freeing { qd, sga, closing }
            },
        ),
    decreases next - from,
{
    if from < next {
        assert(sga[from as int].len == 0);
        law_first_bytes_go_first(server, qd, sga, from + 1, next, closing);
    }
}

/// Where the server stands after `replies`.
pub open spec fn phase_after(server: ServerView, phase: PhaseView, replies: Seq<ReplyView>) -> (ServerView, Result<
    PhaseView,
    ServerErrorView,
>)
    decreases replies.len(),
{
    if replies.len() == 0 {
        (server, Ok(phase))
    } else {
        let (after, next) = resumed(server, phase, replies[0]);
        match next {
            Ok(next) => phase_after(after, next, replies.skip(1)),
            Err(error) => (after, Err(error)),
        }
    }
}

/// The received bytes that a phase is about.
spec fn about(phase: PhaseView) -> Option<(u32, Seq<SegmentView>, bool)> {
    match phase {
        PhaseView::Allocating { echo } => Some((echo.qd, echo.sga, echo.closing)),
        PhaseView::Pushing { echo, .. } => Some((echo.qd, echo.sga, echo.closing)),
        PhaseView::Freeing { qd, sga, closing } => Some((qd, sga, closing)),
        _ => None,
    }
}

proof fn lemma_echoing_is_about(server: ServerView, qd: u32, sga: Seq<SegmentView>, from: nat, closing: bool)
    ensures
        echoing(server, qd, sga, from, closing) matches Ok(phase) ==> about(phase) == Some((qd, sga, closing)),
    decreases sga.len() - from,
{
    if from < sga.len() {
        lemma_echoing_is_about(server, qd, sga, from + 1, closing);
    }
}

proof fn lemma_stays_about(server: ServerView, phase: PhaseView, replies: Seq<ReplyView>)
    requires
        about(phase) is Some,
        all_goes_back(server, phase, replies),
    ensures
        ({
            let (after, end) = phase_after(server, phase, replies);
            &&& end matches Ok(freeing)
            &&& freeing is Freeing
            &&& about(freeing) == about(phase)
            &&& after.connected_clients == server.connected_clients
        }),
    decreases replies.len(),
{
    if replies.len() > 0 {
        let (after, next) = resumed(server, phase, replies[0]);
        if let PhaseView::Pushing { echo, .. } = phase {
            lemma_echoing_is_about(after, echo.qd, echo.sga, echo.next + 1, echo.closing);
        }
        lemma_stays_about(after, next->Ok_0, replies.skip(1));
    }
}

/// A client closed its side exactly if the last segment of what came from it is empty. Once everything went back, the
/// memory that came is freed, without that segment, and a client that closed its side is dropped and closed while one
/// that did not is received from again.
#[verifier::rlimit(50)]
pub proof fn law_stream_ends_with_empty_segment(
    server: ServerView,
    index: nat,
    qd: u32,
    sga: Seq<SegmentView>,
    replies: Seq<ReplyView>,
)
    requires
        fits(server, PhaseView::Waiting, ReplyView::Completed { index, qd, value: ValueView::Pop { sga } }),
        resumed(
            server,
            PhaseView::Waiting,
            ReplyView::Completed { index, qd, value: ValueView::Pop { sga } },
        ).1 matches Ok(phase) && all_goes_back(
            ServerView { pending_qtokens: server.pending_qtokens.remove(index as int), ..server },
            phase,
            replies,
        ),
    ensures
        ({
            let reply = ReplyView::Completed { index, qd, value: ValueView::Pop { sga } };
            let all = seq![reply] + replies;
            let (freeing, end) = phase_after(server, PhaseView::Waiting, all);
            let closed = sga.len() > 0 && sga.last().len == 0;
            &&& end == Ok::<PhaseView, ServerErrorView>(
                PhaseView::Freeing {
                    qd,
                    sga: if closed {
                        sga.take(sga.len() - 1)
                    } else {
                        sga
                    },
                    closing: closed,
                },
            )
            &&& freeing.connected_clients == server.connected_clients
        }),
{
    let reply = ReplyView::Completed { index, qd, value: ValueView::Pop { sga } };
    let left = ServerView { pending_qtokens: server.pending_qtokens.remove(index as int), ..server };
    let phase = resumed(server, PhaseView::Waiting, reply).1->Ok_0;
    let closed = sga.len() > 0 && sga.last().len == 0;
    let data = if closed {
        sga.take(sga.len() - 1)
    } else {
        sga
    };
    if closed {
        assert(sga.drop_last() =~= data);
    }
    lemma_echoing_is_about(left, qd, data, 0, closed);
    lemma_stays_about(left, phase, replies);
    let all = seq![reply] + replies;
    assert(all[0] == reply);
    assert(all.skip(1) =~= replies);
}

} // verus!
