//! What each outcome of a call means for the server that asked for it.

use vstd::prelude::*;

use crate::connection::ConnectionState;
use crate::io::{ErrorKind, IoError, Origin, RawFd, Reply, Request};
use crate::laws::events::{events_before_shutdown_are_queued, every_event_is_queued};
use crate::reactor::{Control, EpollEvent, Reactor};
use crate::server::{request_of, skip_unknown, ServerState, StageState};
use crate::step::{Interest, Phase, Step};
use crate::task::{EntryState, TaskState, TaskStatus};

verus! {

/// Descriptors without a stored task are skipped.
proof fn lemma_skip(ready: Seq<RawFd>, tasks: Map<int, EntryState>, at: int)
    requires
        0 <= at <= ready.len(),
        forall|i: int| 0 <= i < at ==> !tasks.contains_key(#[trigger] ready[i] as int),
        at < ready.len() ==> tasks.contains_key(ready[at] as int),
    ensures
        skip_unknown(ready, tasks) == ready.skip(at),
    decreases at,
{
    if at > 0 {
        let rest = ready.skip(1);
        assert forall|i: int| 0 <= i < at - 1 implies !tasks.contains_key(
            #[trigger] rest[i] as int,
        ) by {
            assert(rest[i] == ready[i + 1]);
        }
        assert(!tasks.contains_key(ready[0] as int));
        lemma_skip(rest, tasks, at - 1);
        assert(rest.skip(at - 1) =~= ready.skip(at));
    } else {
        assert(ready.skip(0) =~= ready);
    }
}

/// The call of each phase: which descriptor it is about, with which operation, flags and data.
pub proof fn calls_of_the_phases(
    reactor: Reactor,
    task: TaskState,
    fd: RawFd,
    error: IoError,
    nodelay: bool,
)
    ensures
        ({
            let own = match task {
                TaskState::Acceptor(listener) => listener,
                TaskState::Connection(connection) => connection.fd,
            };
            let call = |phase: Phase| request_of(reactor, task, phase, nodelay);
            &&& call(Phase::Accept) == (Request::Accept { listener: own })
            &&& call(Phase::SetNonblocking(fd)) == (Request::SetNonblocking { fd })
            &&& call(Phase::SetNodelay(fd)) == (Request::SetNodelay { fd, nodelay })
            &&& call(Phase::Register(fd)) == (Request::Control {
                call: Control {
                    epfd: reactor.epfd,
                    op: 1,
                    fd,
                    event: Some(EpollEvent { events: 0x4000_0001, data: fd as u64 }),
                },
            })
            &&& call(Phase::Discard(fd)) == (Request::Close { fd })
            &&& call(Phase::Unregister(error)) == (Request::Control {
                call: Control { epfd: reactor.epfd, op: 2, fd: own, event: None },
            })
            &&& call(Phase::Read) == (Request::Read { fd: own, len: 1024 })
            &&& call(Phase::Write) == (Request::Write { fd: own })
            &&& call(Phase::Rearm(Interest::Read)) == (Request::Control {
                call: Control {
                    epfd: reactor.epfd,
                    op: 3,
                    fd: own,
                    event: Some(EpollEvent { events: 0x4000_0001, data: own as u64 }),
                },
            })
            &&& call(Phase::Rearm(Interest::ReadWrite)) == (Request::Control {
                call: Control {
                    epfd: reactor.epfd,
                    op: 3,
                    fd: own,
                    event: Some(EpollEvent { events: 0x4000_0005, data: own as u64 }),
                },
            })
            &&& call(Phase::Report(error)) == (Request::Report {
                origin: if task is Acceptor {
                    Origin::Acceptor
                } else {
                    Origin::Handler
                },
                error,
            })
        }),
{
}

/// The running task goes on, rests, ends or stops the server as its step says, and nothing else
/// of the server changes but for a client that this outcome registered: that one is queued last
/// and gets a task with nothing to write.
pub proof fn running_task_takes_its_step(
    state: ServerState,
    reply: Reply,
    answer: Option<Seq<u8>>,
    nodelay: bool,
)
    requires
        state.stage is Driving,
        state.stage->phase matches Phase::Register(client) ==> client >= 0,
    ensures
        ({
            let index = state.stage->index;
            let entry = state.stage->entry;
            let phase = state.stage->phase;
            let (task, step) = entry.task.resumed(phase, reply, answer);
            let (next, request) = state.resumed(reply, answer, nodelay);
            let joins = phase is Register && reply is Done && reply->Done_0 is Ok;
            let client = phase->Register_0;
            let ready = if joins {
                state.ready.push(client)
            } else {
                state.ready
            };
            let tasks = if joins {
                state.tasks.insert(
                    client as int,
                    EntryState {
                        fd: client,
                        task: TaskState::Connection(
                            ConnectionState { fd: client, response: None, written: 0 },
                        ),
                    },
                )
            } else {
                state.tasks
            };
            let slots = if joins && client >= state.slots {
                (client + 1) as nat
            } else {
                state.slots
            };
            let after = EntryState { fd: entry.fd, task };
            &&& step matches Step::Ask(call) ==> {
                &&& next == (ServerState {
                    reactor: state.reactor,
                    ready,
                    tasks,
                    slots,
                    stage: StageState::Driving { index, entry: after, phase: call },
                })
                &&& request == request_of(state.reactor, task, call, nodelay)
            }
            &&& step == Step::Finish(TaskStatus::Complete) ==> {
                &&& next == (ServerState {
                    reactor: state.reactor,
                    ready,
                    tasks: tasks.remove(index),
                    slots,
                    stage: StageState::Closing { fd: entry.fd },
                })
                &&& request == (Request::Close { fd: entry.fd })
            }
            &&& step == Step::Finish(TaskStatus::Pending) ==> (next, request) == (ServerState {
                reactor: state.reactor,
                ready,
                tasks: tasks.insert(index, after),
                slots,
                stage: StageState::Idle,
            }).scheduled(nodelay)
            &&& step matches Step::Fail(error) ==> {
                &&& next == (ServerState {
                    reactor: state.reactor,
                    ready,
                    tasks,
                    slots,
                    stage: StageState::Stopped,
                })
                &&& request == (Request::Exit { result: Err(error) })
            }
        }),
{
}

/// The first queued descriptor that has a stored task is run, with the task as it was stored;
/// the descriptors before it are dropped, those behind it stay queued, and no other task is
/// touched. The accept task accepts, a connection with an unwritten byte writes from that byte
/// on, and any other connection reads.
pub proof fn first_stored_task_goes_on(state: ServerState, at: int, nodelay: bool)
    requires
        0 <= at < state.ready.len(),
        forall|i: int| 0 <= i < at ==> !state.tasks.contains_key(#[trigger] state.ready[i] as int),
        state.tasks.contains_key(state.ready[at] as int),
        state.tasks[state.ready[at] as int].task matches TaskState::Connection(connection) ==> (
        connection.response matches Some(response) ==> connection.written < response.len()),
    ensures
        ({
            let slot = state.ready[at] as int;
            let entry = state.tasks[slot];
            let (next, request) = state.scheduled(nodelay);
            &&& next.reactor == state.reactor
            &&& next.ready == state.ready.skip(at + 1)
            &&& next.tasks == state.tasks.remove(slot)
            &&& next.slots == state.slots
            &&& next.stage is Driving
            &&& next.stage->index == slot
            &&& next.stage->entry == entry
            &&& match entry.task {
                TaskState::Acceptor(listener) => {
                    &&& request == (Request::Accept { listener })
                    &&& next.stage->phase == Phase::Accept
                },
                TaskState::Connection(connection) => match connection.response {
                    None => {
                        &&& request == (Request::Read { fd: connection.fd, len: 1024 })
                        &&& next.stage->phase == Phase::Read
                    },
                    Some(response) => {
                        &&& request == (Request::Write { fd: connection.fd })
                        &&& next.stage->phase == Phase::Write
                        &&& next.outgoing().len() == response.len() - connection.written
                        &&& forall|i: int|
                            0 <= i < next.outgoing().len() ==> #[trigger] next.outgoing()[i]
                                == response[connection.written + i]
                    },
                },
            }
        }),
{
    lemma_skip(state.ready, state.tasks, at);
    let rest = state.ready.skip(at);
    assert(rest[0] == state.ready[at]);
    assert(rest.skip(1) =~= state.ready.skip(at + 1));
}

/// If no queued descriptor has a stored task, all are dropped and the server waits for events,
/// for as many as its reactor takes.
pub proof fn server_without_work_waits(state: ServerState, nodelay: bool)
    requires
        forall|i: int|
            0 <= i < state.ready.len() ==> !state.tasks.contains_key(
                #[trigger] state.ready[i] as int,
            ),
    ensures
        state.scheduled(nodelay).0 == (ServerState {
            reactor: state.reactor,
            ready: Seq::empty(),
            tasks: state.tasks,
            slots: state.slots,
            stage: StageState::Polling,
        }),
        state.scheduled(nodelay).1 == (Request::Poll {
            epfd: state.reactor.epfd,
            max_events: state.reactor.event_capacity as i32,
        }),
{
    lemma_skip(state.ready, state.tasks, state.ready.len() as int);
    assert(state.ready.skip(state.ready.len() as int) =~= Seq::empty());
}

/// After a wait without an event of the shutdown descriptor, the server chooses among what was
/// queued and the descriptors in the events' user data, in order.
pub proof fn events_are_served(
    state: ServerState,
    events: Vec<EpollEvent>,
    queued: Seq<RawFd>,
    answer: Option<Seq<u8>>,
    nodelay: bool,
)
    requires
        state.stage is Polling,
        forall|i: int|
            0 <= i < events@.len() ==> (#[trigger] events@[i]).data as i32
                != state.reactor.shutdown_fd,
        queued.len() == state.ready.len() + events@.len(),
        forall|i: int| 0 <= i < state.ready.len() ==> queued[i] == state.ready[i],
        forall|i: int|
            0 <= i < events@.len() ==> queued[state.ready.len() + i] == (
            #[trigger] events@[i]).data as i32,
    ensures
        state.resumed(Reply::Polled(Ok(events)), answer, nodelay) == (ServerState {
            ready: queued,
            ..state
        }).scheduled(nodelay),
{
    every_event_is_queued(state.reactor, state.ready, events);
    let (ready, _) = state.reactor.waited(state.ready, Ok(events));
    assert forall|i: int| 0 <= i < ready.len() implies ready[i] == queued[i] by {
        if i >= state.ready.len() {
            let event = events@[i - state.ready.len()];
            assert(queued[state.ready.len() + (i - state.ready.len())] == event.data as i32);
        }
    }
    assert(ready =~= queued);
}

/// An event of the shutdown descriptor, wherever it stands and whatever its flags, ends the event
/// loop well.
pub proof fn shutdown_event_ends_the_loop(
    state: ServerState,
    events: Vec<EpollEvent>,
    at: int,
    answer: Option<Seq<u8>>,
    nodelay: bool,
)
    requires
        state.stage is Polling,
        0 <= at < events@.len(),
        events@[at].data as i32 == state.reactor.shutdown_fd,
    ensures
        ({
            let (next, request) = state.resumed(Reply::Polled(Ok(events)), answer, nodelay);
            &&& request is Exit
            &&& request->result is Ok
            &&& next.stage is Stopped
            &&& next.tasks == state.tasks
            &&& next.reactor == state.reactor
            &&& next.slots == state.slots
        }),
    decreases at,
{
    if forall|i: int|
        0 <= i < at ==> (#[trigger] events@[i]).data as i32 != state.reactor.shutdown_fd {
        events_before_shutdown_are_queued(state.reactor, state.ready, events, at);
    } else {
        let first = choose|i: int|
            0 <= i < at && (#[trigger] events@[i]).data as i32 == state.reactor.shutdown_fd;
        shutdown_event_ends_the_loop(state, events, first, answer, nodelay);
    }
}

/// An interrupted wait, whatever the number of the error, is as if nothing had happened; any
/// other error ends the event loop with that error.
pub proof fn failed_wait_ends_the_loop(
    state: ServerState,
    error: IoError,
    answer: Option<Seq<u8>>,
    nodelay: bool,
)
    requires
        state.stage is Polling,
    ensures
        error.kind == ErrorKind::Interrupted ==> state.resumed(
            Reply::Polled(Err(error)),
            answer,
            nodelay,
        ) == state.scheduled(nodelay),
        error.kind != ErrorKind::Interrupted ==> {
            let (next, request) = state.resumed(Reply::Polled(Err(error)), answer, nodelay);
            &&& request == (Request::Exit { result: Err(error) })
            &&& next == (ServerState { stage: StageState::Stopped, ..state })
        },
{
}

/// Once the socket of an ended task is closed, well or not, the server chooses what to run.
pub proof fn closed_socket_is_forgotten(
    state: ServerState,
    reply: Reply,
    answer: Option<Seq<u8>>,
    nodelay: bool,
)
    requires
        state.stage is Closing,
    ensures
        state.resumed(reply, answer, nodelay) == state.scheduled(nodelay),
{
}

/// While it waits the server expects every outcome of a wait; while it drives a task, what the
/// task expects; while it closes, every outcome; and otherwise nothing.
pub proof fn server_expects_what_it_asked_for(state: ServerState, reply: Reply)
    ensures
        state.stage is Polling ==> (state.expects(reply) <==> reply is Polled),
        state.stage matches StageState::Driving { index, entry, phase } ==> state.expects(reply)
            == entry.task.expects(phase, reply),
        state.stage is Closing ==> (state.expects(reply) <==> reply is Done),
        state.stage is Idle || state.stage is Stopped ==> !state.expects(reply),
{
}

/// What is to be written is the unwritten rest of the running connection's response, and nothing
/// where there is none.
pub proof fn server_offers_the_unwritten_rest(state: ServerState)
    ensures
        !(state.stage is Driving) ==> state.outgoing().len() == 0,
        state.stage is Driving && state.stage->entry.task is Acceptor
            ==> state.outgoing().len() == 0,
        state.stage is Driving && state.stage->entry.task is Connection
            && state.stage->entry.task->Connection_0.response is None
            ==> state.outgoing().len() == 0,
        state.stage matches StageState::Driving { index, entry, phase } ==> (
        entry.task matches TaskState::Connection(connection) ==> (
        connection.response matches Some(response) ==> (connection.written <= response.len() ==> {
            &&& state.outgoing().len() == response.len() - connection.written
            &&& forall|i: int|
                0 <= i < state.outgoing().len() ==> #[trigger] state.outgoing()[i]
                    == response[connection.written + i]
        }))),
{
}

/// A new server has queued and stored the accept task of its listening socket, and nothing else.
pub proof fn new_server_holds_the_accept_task(
    reactor: Reactor,
    listener: RawFd,
    task_capacity: nat,
    slot: int,
)
    requires
        listener >= 0,
    ensures
        ({
            let state = ServerState::initial(reactor, listener, task_capacity);
            &&& state.reactor == reactor
            &&& state.ready == seq![listener]
            &&& state.tasks.contains_key(slot) <==> slot == listener
            &&& state.tasks[listener as int].fd == listener
            &&& state.tasks[listener as int].task == TaskState::Acceptor(listener)
            &&& state.slots >= task_capacity
            &&& state.slots > listener
            &&& state.slots == task_capacity || state.slots == listener + 1
            &&& state.stage is Idle
        }),
{
}

/// Where the task that was running is found after its rearm succeeded.
proof fn lemma_rested(state: ServerState, reply: Reply, answer: Option<Seq<u8>>, nodelay: bool)
    requires
        state.wf(),
        state.stage is Driving,
        state.stage->phase is Rearm,
        reply is Done,
        reply->Done_0 is Ok,
    ensures
        ({
            let index = state.stage->index;
            let entry = state.stage->entry;
            let (next, request) = state.resumed(reply, answer, nodelay);
            let running = next.stage is Driving && next.stage->index == index;
            &&& running ==> next.stage->entry == entry
            &&& !running ==> next.tasks.contains_key(index) && next.tasks[index] == entry
            &&& !(request is Close)
            &&& !(request is Exit)
        }),
{
    let index = state.stage->index;
    let entry = state.stage->entry;
    let stored = ServerState {
        tasks: state.tasks.insert(index, entry),
        stage: StageState::Idle,
        ..state
    };
    assert(state.resumed(reply, answer, nodelay) == stored.scheduled(nodelay));
    if exists|i: int|
        0 <= i < stored.ready.len() && stored.tasks.contains_key(#[trigger] stored.ready[i] as int) {
        let some = choose|i: int|
            0 <= i < stored.ready.len() && stored.tasks.contains_key(
                #[trigger] stored.ready[i] as int,
            );
        let at = lemma_first(stored.ready, stored.tasks, some);
        first_stored_task_goes_on(stored, at, nodelay);
    } else {
        server_without_work_waits(stored, nodelay);
    }
}

/// Among the queued descriptors with a stored task there is a first.
proof fn lemma_first(ready: Seq<RawFd>, tasks: Map<int, EntryState>, some: int) -> (at: int)
    requires
        0 <= some < ready.len(),
        tasks.contains_key(ready[some] as int),
    ensures
        0 <= at <= some,
        tasks.contains_key(ready[at] as int),
        forall|i: int| 0 <= i < at ==> !tasks.contains_key(#[trigger] ready[i] as int),
    decreases some,
{
    if exists|i: int| 0 <= i < some && tasks.contains_key(#[trigger] ready[i] as int) {
        let earlier = choose|i: int| 0 <= i < some && tasks.contains_key(#[trigger] ready[i] as int);
        lemma_first(ready, tasks, earlier)
    } else {
        some
    }
}

/// A task whose rearm succeeded is kept as it was: it is stored in its slot, or already running
/// again, with the same response and the same number of bytes written. Its socket is not closed.
pub proof fn rearmed_task_is_kept_as_it_was(
    state: ServerState,
    reply: Reply,
    answer: Option<Seq<u8>>,
    nodelay: bool,
)
    requires
        state.wf(),
        state.stage is Driving,
        state.stage->phase is Rearm,
        reply is Done,
        reply->Done_0 is Ok,
    ensures
        ({
            let index = state.stage->index;
            let entry = state.stage->entry;
            let (next, request) = state.resumed(reply, answer, nodelay);
            let running = next.stage is Driving && next.stage->index == index;
            let found = if running {
                next.stage->entry
            } else {
                next.tasks[index]
            };
            &&& running || next.tasks.contains_key(index)
            &&& found.fd == entry.fd
            &&& match entry.task {
                TaskState::Acceptor(listener) => found.task == TaskState::Acceptor(listener),
                TaskState::Connection(connection) => {
                    &&& found.task is Connection
                    &&& found.task->Connection_0.fd == connection.fd
                    &&& found.task->Connection_0.response == connection.response
                    &&& found.task->Connection_0.written == connection.written
                },
            }
            &&& !(request is Close)
            &&& !(request is Exit)
        }),
{
    lemma_rested(state, reply, answer, nodelay);
}

/// A failed rearm or registration ends the event loop with its error.
pub proof fn failed_rearm_ends_the_loop(
    state: ServerState,
    error: IoError,
    answer: Option<Seq<u8>>,
    nodelay: bool,
)
    requires
        state.stage is Driving,
        state.stage->phase is Rearm || state.stage->phase is Register && state.stage->entry.task
            is Acceptor,
    ensures
        ({
            let (next, request) = state.resumed(Reply::Done(Err(error)), answer, nodelay);
            &&& request == (Request::Exit { result: Err(error) })
            &&& next.stage is Stopped
        }),
{
}

/// A connection whose read would block, whatever the number of the error, has its socket rearmed
/// for reading. Nothing else of the server changes, and once the rearm has succeeded the
/// connection is kept as it was.
pub proof fn blocked_reader_is_rearmed_and_kept(
    state: ServerState,
    connection: ConnectionState,
    error: IoError,
    reply: Reply,
    answer: Option<Seq<u8>>,
    nodelay: bool,
)
    requires
        state.wf(),
        state.stage is Driving,
        state.stage->phase is Read,
        state.stage->entry.task == TaskState::Connection(connection),
        error.kind == ErrorKind::WouldBlock,
        reply is Done,
        reply->Done_0 is Ok,
    ensures
        ({
            let index = state.stage->index;
            let entry = state.stage->entry;
            let (next, request) = state.resumed(Reply::Received(Err(error)), answer, nodelay);
            let (later, following) = next.resumed(reply, answer, nodelay);
            &&& request == (Request::Control {
                call: Control {
                    epfd: state.reactor.epfd,
                    op: 3,
                    fd: connection.fd,
                    event: Some(EpollEvent { events: 0x4000_0001, data: connection.fd as u64 }),
                },
            })
            &&& next == (ServerState {
                stage: StageState::Driving { index, entry, phase: Phase::Rearm(Interest::Read) },
                ..state
            })
            &&& {
                ||| later.tasks.contains_key(index) && later.tasks[index] == entry
                ||| later.stage is Driving && later.stage->index == index && later.stage->entry
                    == entry
            }
            &&& !(following is Close)
        }),
{
    let (next, _) = state.resumed(Reply::Received(Err(error)), answer, nodelay);
    lemma_rested(next, reply, answer, nodelay);
}

/// A connection whose write took nothing or would block, whatever the number of the error, has
/// its socket rearmed for reading and writing. Nothing else of the server changes, and once the
/// rearm has succeeded the connection is kept as it was.
pub proof fn blocked_writer_is_rearmed_and_kept(
    state: ServerState,
    connection: ConnectionState,
    outcome: Result<usize, IoError>,
    reply: Reply,
    answer: Option<Seq<u8>>,
    nodelay: bool,
)
    requires
        state.wf(),
        state.stage is Driving,
        state.stage->phase is Write,
        state.stage->entry.task == TaskState::Connection(connection),
        match outcome {
            Ok(count) => count == 0,
            Err(error) => error.kind == ErrorKind::WouldBlock,
        },
        reply is Done,
        reply->Done_0 is Ok,
    ensures
        ({
            let index = state.stage->index;
            let entry = state.stage->entry;
            let (next, request) = state.resumed(Reply::Wrote(outcome), answer, nodelay);
            let (later, following) = next.resumed(reply, answer, nodelay);
            &&& request == (Request::Control {
                call: Control {
                    epfd: state.reactor.epfd,
                    op: 3,
                    fd: connection.fd,
                    event: Some(EpollEvent { events: 0x4000_0005, data: connection.fd as u64 }),
                },
            })
            &&& next == (ServerState {
                stage: StageState::Driving {
                    index,
                    entry,
                    phase: Phase::Rearm(Interest::ReadWrite),
                },
                ..state
            })
            &&& {
                ||| later.tasks.contains_key(index) && later.tasks[index] == entry
                ||| later.stage is Driving && later.stage->index == index && later.stage->entry
                    == entry
            }
            &&& !(following is Close)
        }),
{
    let (next, _) = state.resumed(Reply::Wrote(outcome), answer, nodelay);
    lemma_rested(next, reply, answer, nodelay);
}

/// When the socket of a stored connection with a pending response is the first to be reported
/// ready, the response is offered from its first unwritten byte.
pub proof fn reported_writer_goes_on_where_it_was(
    state: ServerState,
    connection: ConnectionState,
    response: Seq<u8>,
    events: Vec<EpollEvent>,
    answer: Option<Seq<u8>>,
    nodelay: bool,
)
    requires
        state.wf(),
        state.stage is Polling,
        state.ready.len() == 0,
        state.tasks.contains_key(connection.fd as int),
        state.tasks[connection.fd as int].task == TaskState::Connection(connection),
        connection.response == Some(response),
        events@.len() > 0,
        events@[0].data as i32 == connection.fd,
        forall|i: int|
            0 <= i < events@.len() ==> (#[trigger] events@[i]).data as i32
                != state.reactor.shutdown_fd,
    ensures
        ({
            let (next, request) = state.resumed(Reply::Polled(Ok(events)), answer, nodelay);
            &&& request == (Request::Write { fd: connection.fd })
            &&& next.outgoing().len() == response.len() - connection.written
            &&& forall|i: int|
                0 <= i < next.outgoing().len() ==> #[trigger] next.outgoing()[i]
                    == response[connection.written + i]
        }),
{
    let (queued, _) = state.reactor.waited(state.ready, Ok(events));
    every_event_is_queued(state.reactor, state.ready, events);
    assert(queued[state.ready.len() + 0int] == events@[0].data as i32);
    let ready = ServerState { ready: queued, ..state };
    first_stored_task_goes_on(ready, 0, nodelay);
}

/// A connection whose stream ended, was reset, or was refused an answer is closed and forgotten;
/// one with another read error is so once the error was reported.
pub proof fn finished_connection_is_closed(
    state: ServerState,
    connection: ConnectionState,
    outcome: Result<Vec<u8>, IoError>,
    reply: Reply,
    answer: Option<Seq<u8>>,
    nodelay: bool,
)
    requires
        state.wf(),
        state.stage is Driving,
        state.stage->phase is Read,
        state.stage->entry.task == TaskState::Connection(connection),
        match outcome {
            Ok(bytes) => bytes@.len() == 0 || answer is None,
            Err(error) => error.kind != ErrorKind::WouldBlock,
        },
        reply is Done,
    ensures
        ({
            let (next, request) = state.resumed(Reply::Received(outcome), answer, nodelay);
            let (last, closing) = if outcome is Err && outcome->Err_0.kind
                != ErrorKind::ConnectionReset {
                next.resumed(reply, answer, nodelay)
            } else {
                (next, request)
            };
            &&& outcome matches Err(error) ==> (error.kind != ErrorKind::ConnectionReset
                ==> request == (Request::Report { origin: Origin::Handler, error }))
            &&& closing == (Request::Close { fd: connection.fd })
            &&& last == (ServerState {
                tasks: state.tasks.remove(state.stage->index),
                stage: StageState::Closing { fd: connection.fd },
                ..state
            })
        }),
{
}

/// A request that was read and answered is answered on the connection's own socket, from the
/// first byte of the answer; an empty answer only rearms the socket for reading.
pub proof fn answered_request_is_offered(
    state: ServerState,
    connection: ConnectionState,
    request: Vec<u8>,
    response: Seq<u8>,
    nodelay: bool,
)
    requires
        state.stage is Driving,
        state.stage->phase is Read,
        state.stage->entry.task == TaskState::Connection(connection),
        request@.len() > 0,
    ensures
        ({
            let (next, asked) = state.resumed(
                Reply::Received(Ok(request)),
                Some(response),
                nodelay,
            );
            &&& next.ready == state.ready
            &&& next.tasks == state.tasks
            &&& next.slots == state.slots
            &&& next.reactor == state.reactor
            &&& next.stage is Driving
            &&& next.stage->index == state.stage->index
            &&& next.stage->entry.fd == state.stage->entry.fd
            &&& response.len() > 0 ==> {
                &&& asked == (Request::Write { fd: connection.fd })
                &&& next.outgoing() == response
            }
            &&& response.len() == 0 ==> {
                &&& asked == (Request::Control {
                    call: Control {
                        epfd: state.reactor.epfd,
                        op: 3,
                        fd: connection.fd,
                        event: Some(
                            EpollEvent { events: 0x4000_0001, data: connection.fd as u64 },
                        ),
                    },
                })
                &&& next.outgoing().len() == 0
            }
        }),
{
}

/// A write that took part of what was offered is followed by one that offers the rest; one that
/// took all of it is followed by the rearm of the socket for reading. Nothing else of the server
/// changes.
pub proof fn partial_write_is_followed_by_the_rest(
    state: ServerState,
    connection: ConnectionState,
    count: usize,
    answer: Option<Seq<u8>>,
    nodelay: bool,
)
    requires
        state.wf(),
        state.stage is Driving,
        state.stage->phase is Write,
        state.stage->entry.task == TaskState::Connection(connection),
        0 < count <= state.outgoing().len(),
    ensures
        ({
            let (next, request) = state.resumed(Reply::Wrote(Ok(count)), answer, nodelay);
            &&& next.ready == state.ready
            &&& next.tasks == state.tasks
            &&& next.stage is Driving
            &&& next.stage->index == state.stage->index
            &&& next.outgoing().len() == state.outgoing().len() - count
            &&& forall|i: int|
                0 <= i < next.outgoing().len() ==> #[trigger] next.outgoing()[i]
                    == state.outgoing()[count + i]
            &&& count < state.outgoing().len() ==> request == (Request::Write {
                fd: connection.fd,
            })
            &&& count == state.outgoing().len() ==> request == (Request::Control {
                call: Control {
                    epfd: state.reactor.epfd,
                    op: 3,
                    fd: connection.fd,
                    event: Some(EpollEvent { events: 0x4000_0001, data: connection.fd as u64 }),
                },
            })
        }),
{
}

/// A write error other than one that would block, whatever its number, closes the connection.
pub proof fn failed_writer_is_closed(
    state: ServerState,
    connection: ConnectionState,
    error: IoError,
    answer: Option<Seq<u8>>,
    nodelay: bool,
)
    requires
        state.wf(),
        state.stage is Driving,
        state.stage->phase is Write,
        state.stage->entry.task == TaskState::Connection(connection),
        error.kind != ErrorKind::WouldBlock,
    ensures
        ({
            let (next, request) = state.resumed(Reply::Wrote(Err(error)), answer, nodelay);
            &&& request == (Request::Close { fd: connection.fd })
            &&& next == (ServerState {
                tasks: state.tasks.remove(state.stage->index),
                stage: StageState::Closing { fd: connection.fd },
                ..state
            })
        }),
{
}

/// A client is accepted, made non-blocking, given the protocol's delay setting and registered, in
/// this order; then it is queued last, gets a task with nothing to write in the slot of its
/// descriptor, and the next client is accepted.
pub proof fn client_is_set_up_in_order(
    state: ServerState,
    listener: RawFd,
    client: RawFd,
    reply: Reply,
    answer: Option<Seq<u8>>,
    nodelay: bool,
)
    requires
        state.stage is Driving,
        state.stage->phase is Accept,
        state.stage->entry.task == TaskState::Acceptor(listener),
        reply is Done,
        reply->Done_0 is Ok,
    ensures
        ({
            let index = state.stage->index;
            let entry = state.stage->entry;
            let (first, one) = state.resumed(Reply::Accepted(Ok(client)), answer, nodelay);
            let (second, two) = first.resumed(reply, answer, nodelay);
            let (third, three) = second.resumed(reply, answer, nodelay);
            let (last, four) = third.resumed(reply, answer, nodelay);
            &&& one == (Request::SetNonblocking { fd: client })
            &&& two == (Request::SetNodelay { fd: client, nodelay })
            &&& three == (Request::Control {
                call: Control {
                    epfd: state.reactor.epfd,
                    op: 1,
                    fd: client,
                    event: Some(EpollEvent { events: 0x4000_0001, data: client as u64 }),
                },
            })
            &&& four == (Request::Accept { listener })
            &&& third.ready == state.ready
            &&& third.tasks == state.tasks
            &&& last.reactor == state.reactor
            &&& last.ready == state.ready.push(client)
            &&& last.tasks == state.tasks.insert(
                client as int,
                EntryState {
                    fd: client,
                    task: TaskState::Connection(
                        ConnectionState { fd: client, response: None, written: 0 },
                    ),
                },
            )
            &&& last.stage == (StageState::Driving { index, entry, phase: Phase::Accept })
        }),
{
}

/// A client whose socket cannot be set up, whatever the error, is closed, nothing of the server
/// changes, and the next client is accepted, whether or not the close succeeds.
pub proof fn unusable_client_changes_nothing(
    state: ServerState,
    listener: RawFd,
    client: RawFd,
    error: IoError,
    reply: Reply,
    answer: Option<Seq<u8>>,
    nodelay: bool,
)
    requires
        state.stage is Driving,
        state.stage->phase == Phase::SetNonblocking(client) || state.stage->phase
            == Phase::SetNodelay(client),
        state.stage->entry.task == TaskState::Acceptor(listener),
        reply is Done,
    ensures
        ({
            let index = state.stage->index;
            let entry = state.stage->entry;
            let (next, request) = state.resumed(Reply::Done(Err(error)), answer, nodelay);
            let (later, following) = next.resumed(reply, answer, nodelay);
            &&& request == (Request::Close { fd: client })
            &&& following == (Request::Accept { listener })
            &&& later == (ServerState {
                stage: StageState::Driving { index, entry, phase: Phase::Accept },
                ..state
            })
        }),
{
}

/// An accept that would block, whatever the number of the error, has the listening socket rearmed
/// for reading. With any other error it is removed from the reactor, the error is reported, and
/// it is closed, whatever comes of the removal.
pub proof fn accept_errors_by_kind(
    state: ServerState,
    listener: RawFd,
    error: IoError,
    removed: Reply,
    reported: Reply,
    answer: Option<Seq<u8>>,
    nodelay: bool,
)
    requires
        state.wf(),
        state.stage is Driving,
        state.stage->phase is Accept,
        state.stage->entry.task == TaskState::Acceptor(listener),
        removed is Done,
        reported is Done,
    ensures
        ({
            let index = state.stage->index;
            let entry = state.stage->entry;
            let (next, request) = state.resumed(Reply::Accepted(Err(error)), answer, nodelay);
            let (second, report) = next.resumed(removed, answer, nodelay);
            let (last, closing) = second.resumed(reported, answer, nodelay);
            if error.kind == ErrorKind::WouldBlock {
                &&& request == (Request::Control {
                    call: Control {
                        epfd: state.reactor.epfd,
                        op: 3,
                        fd: listener,
                        event: Some(EpollEvent { events: 0x4000_0001, data: listener as u64 }),
                    },
                })
                &&& next == (ServerState {
                    stage: StageState::Driving {
                        index,
                        entry,
                        phase: Phase::Rearm(Interest::Read),
                    },
                    ..state
                })
            } else {
                &&& request == (Request::Control {
                    call: Control {
                        epfd: state.reactor.epfd,
                        op: 2,
                        fd: listener,
                        event: None,
                    },
                })
                &&& report == (Request::Report { origin: Origin::Acceptor, error })
                &&& closing == (Request::Close { fd: listener })
                &&& last == (ServerState {
                    tasks: state.tasks.remove(index),
                    stage: StageState::Closing { fd: listener },
                    ..state
                })
            }
        }),
{
}

} // verus!
