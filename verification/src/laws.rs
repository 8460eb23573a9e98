//! What holds of the server as a whole.

use vstd::prelude::*;

pub mod answers;
pub mod events;
pub mod setup;
pub mod tasks;
pub mod turns;

use crate::connection::ConnectionState;
use crate::io::{ErrorKind, IoError, Origin, RawFd, Reply, Request};
use crate::protocol::{ascii, is_root_get, may_answer, Echo, HttpHelloWorld, HTTP_RESPONSE};
use crate::protocol::{echo_answers_with_the_request, http_answers_root_get_only};
use crate::reactor::{fds_of, shutdown_is_reported_once_seen, Control, EpollEvent, Reactor, Wait};
use crate::server::{request_of, skip_unknown, skipping_stops_at_a_task};
use crate::server::{ServerConfig, ServerState, StageState};
use crate::startup::{MaskChange, SetupCall, SetupStage, SetupState, StartupState};
use crate::step::{Phase, Step};
use crate::task::{fresh_entry, may_answer_reply, registered};
use crate::task::{EntryState, TaskEntry, TaskState, TaskStatus};

verus! {

/// Storage gives back what was inserted, once, and inserting touches no other slot.
pub proof fn inserted_task_is_taken_once<P>(
    tasks: Map<int, TaskEntry<P>>,
    slot: int,
    entry: TaskEntry<P>,
)
    ensures
        tasks.insert(slot, entry).contains_key(slot),
        tasks.insert(slot, entry)[slot] == entry,
        !tasks.insert(slot, entry).remove(slot).contains_key(slot),
        tasks.insert(slot, entry).remove(slot) == tasks.remove(slot),
        forall|other: int|
            other != slot ==> {
                &&& #[trigger] tasks.insert(slot, entry).contains_key(other) == tasks.contains_key(
                    other,
                )
                &&& tasks.insert(slot, entry)[other] == tasks[other]
            },
{
    assert(tasks.insert(slot, entry).remove(slot) =~= tasks.remove(slot));
}

/// Putting a taken task back restores the storage; removing its slot instead changes nothing.
pub proof fn putting_back_undoes_taking<P>(tasks: Map<int, TaskEntry<P>>, slot: int)
    requires
        tasks.contains_key(slot),
    ensures
        tasks.remove(slot).insert(slot, tasks[slot]) == tasks,
        tasks.remove(slot).remove(slot) == tasks.remove(slot),
{
    assert(tasks.remove(slot).insert(slot, tasks[slot]) =~= tasks);
    assert(tasks.remove(slot).remove(slot) =~= tasks.remove(slot));
}

/// The bytes that a connection hands over in a series of writes with the given outcomes.
pub open spec fn sent(connection: ConnectionState, outcomes: Seq<Result<usize, IoError>>) -> Seq<
    u8,
>
    decreases outcomes.len(),
{
    if outcomes.len() == 0 {
        Seq::empty()
    } else {
        (match outcomes[0] {
            Ok(count) => connection.outgoing().take(count as int),
            Err(_) => Seq::empty(),
        }) + sent(connection.wrote(outcomes[0]).0, outcomes.skip(1))
    }
}

/// The connection after a series of writes with the given outcomes.
pub open spec fn after_writes(
    connection: ConnectionState,
    outcomes: Seq<Result<usize, IoError>>,
) -> ConnectionState
    decreases outcomes.len(),
{
    if outcomes.len() == 0 {
        connection
    } else {
        after_writes(connection.wrote(outcomes[0]).0, outcomes.skip(1))
    }
}

/// Whether no write takes more bytes than it is offered.
pub open spec fn within_offers(
    connection: ConnectionState,
    outcomes: Seq<Result<usize, IoError>>,
) -> bool
    decreases outcomes.len(),
{
    outcomes.len() > 0 ==> {
        &&& outcomes[0] matches Ok(count) ==> count <= connection.outgoing().len()
        &&& within_offers(connection.wrote(outcomes[0]).0, outcomes.skip(1))
    }
}

/// However a response is split over writes, what has been sent followed by what is still
/// outgoing is the response: no byte is lost, repeated or out of place.
pub proof fn writes_neither_lose_nor_repeat(
    connection: ConnectionState,
    outcomes: Seq<Result<usize, IoError>>,
)
    requires
        connection.wf(),
        within_offers(connection, outcomes),
    ensures
        sent(connection, outcomes) + after_writes(connection, outcomes).outgoing()
            == connection.outgoing(),
        after_writes(connection, outcomes).wf(),
    decreases outcomes.len(),
{
    if outcomes.len() == 0 {
        assert(sent(connection, outcomes) + connection.outgoing() =~= connection.outgoing());
    } else {
        let next = connection.wrote(outcomes[0]).0;
        writes_neither_lose_nor_repeat(next, outcomes.skip(1));
        let first = match outcomes[0] {
            Ok(count) => connection.outgoing().take(count as int),
            Err(_) => Seq::empty(),
        };
        assert(first + next.outgoing() =~= connection.outgoing());
        assert(sent(connection, outcomes) + after_writes(connection, outcomes).outgoing()
            =~= first + (sent(next, outcomes.skip(1)) + after_writes(
            next,
            outcomes.skip(1),
        ).outgoing()));
    }
}

/// An echo connection sends back exactly the bytes it read: whatever it has sent is a prefix of
/// them, and once it is ready for another request it has sent them all.
pub proof fn echo_sends_back_what_it_read(
    connection: ConnectionState,
    request: Vec<u8>,
    answer: Option<Seq<u8>>,
    outcomes: Seq<Result<usize, IoError>>,
)
    requires
        request@.len() > 0,
        may_answer::<Echo>(request@, answer),
        within_offers(connection.received(Ok(request), answer).0, outcomes),
    ensures
        ({
            let answered = connection.received(Ok(request), answer).0;
            &&& connection.received(Ok(request), answer).1 == Step::Ask(Phase::Write)
            &&& answered.outgoing() == request@
            &&& sent(answered, outcomes).is_prefix_of(request@)
            &&& after_writes(answered, outcomes).response is None ==> sent(answered, outcomes)
                == request@
        }),
{
    echo_answers_with_the_request(request@, answer);
    let answered = connection.received(Ok(request), answer).0;
    assert(answered.outgoing() =~= request@);
    writes_neither_lose_nor_repeat(answered, outcomes);
    let bytes = sent(answered, outcomes);
    assert(bytes =~= request@.take(bytes.len() as int)) by {
        assert forall|i: int| 0 <= i < bytes.len() implies bytes[i] == request@[i] by {
            assert((bytes + after_writes(answered, outcomes).outgoing())[i] == bytes[i]);
        }
    }
    if after_writes(answered, outcomes).response is None {
        assert(bytes + Seq::<u8>::empty() =~= bytes);
    }
}

/// A server's connection that has read a request is answered as its protocol says: a response is
/// offered for writing from its first byte (an empty one is done with at once), and a refusal
/// closes the connection without one.
pub proof fn request_is_answered_or_refused(
    state: ServerState,
    request: Vec<u8>,
    answer: Option<Seq<u8>>,
    nodelay: bool,
)
    requires
        state.wf(),
        state.stage is Driving,
        state.stage->phase == Phase::Read,
        request@.len() > 0,
    ensures
        ({
            let fd = state.stage->entry.fd;
            let (next, asked) = state.resumed(Reply::Received(Ok(request)), answer, nodelay);
            match answer {
                Some(response) => if response.len() > 0 {
                    &&& asked == Request::Write { fd }
                    &&& next.outgoing() == response
                } else {
                    asked == Request::Control { call: state.reactor.modifying_read(fd) }
                },
                None => asked == Request::Close { fd },
            }
        }),
{
    if let Some(response) = answer {
        let next = state.resumed(Reply::Received(Ok(request)), answer, nodelay).0;
        if response.len() > 0 {
            assert(next.outgoing() =~= response);
        }
    }
}

/// A server of the HTTP protocol offers the fixed response to a client that asks for the root,
/// and closes the connection of any other client without a response.
pub proof fn http_server_answers_root_get_only(
    state: ServerState,
    request: Vec<u8>,
    answer: Option<Seq<u8>>,
    nodelay: bool,
)
    requires
        state.wf(),
        state.stage is Driving,
        state.stage->phase == Phase::Read,
        request@.len() > 0,
        may_answer::<HttpHelloWorld>(request@, answer),
    ensures
        ({
            let fd = state.stage->entry.fd;
            let (next, asked) = state.resumed(Reply::Received(Ok(request)), answer, nodelay);
            if is_root_get(request@) {
                &&& asked == Request::Write { fd }
                &&& next.outgoing() == ascii(HTTP_RESPONSE@)
            } else {
                asked == Request::Close { fd }
            }
        }),
{
    http_answers_root_get_only(request@, answer);
    reveal_strlit(
        "HTTP/1.1 200\r\nContent-Type: text/plain\r\nContent-Length: 15\r\nConnection: keep-alive\r\n\r\nHello, world!\r\n",
    );
    request_is_answered_or_refused(state, request, answer, nodelay);
}

/// A server of the echo protocol offers exactly the bytes it read.
pub proof fn echo_server_offers_the_request(
    state: ServerState,
    request: Vec<u8>,
    answer: Option<Seq<u8>>,
    nodelay: bool,
)
    requires
        state.wf(),
        state.stage is Driving,
        state.stage->phase == Phase::Read,
        request@.len() > 0,
        may_answer::<Echo>(request@, answer),
    ensures
        ({
            let (next, asked) = state.resumed(Reply::Received(Ok(request)), answer, nodelay);
            &&& asked == Request::Write { fd: state.stage->entry.fd }
            &&& next.outgoing() == request@
        }),
{
    echo_answers_with_the_request(request@, answer);
    request_is_answered_or_refused(state, request, answer, nodelay);
}

/// What a socket does not take of a response is offered again, at once or after a rest; once all
/// of it is taken the connection waits for another request.
pub proof fn response_is_offered_until_taken(
    state: ServerState,
    outcome: Result<usize, IoError>,
    answer: Option<Seq<u8>>,
    nodelay: bool,
)
    requires
        state.wf(),
        state.stage is Driving,
        state.stage->phase == Phase::Write,
        outcome matches Ok(count) ==> count <= state.outgoing().len(),
    ensures
        ({
            let entry = state.stage->entry;
            let (next, asked) = state.resumed(Reply::Wrote(outcome), answer, nodelay);
            let waits_for_room = {
                &&& asked == Request::Control { call: state.reactor.modifying_read_write(entry.fd) }
                &&& next.outgoing() == state.outgoing()
            };
            match outcome {
                Ok(count) => if count == 0 {
                    waits_for_room
                } else if count < state.outgoing().len() {
                    &&& asked == Request::Write { fd: entry.fd }
                    &&& next.outgoing() == state.outgoing().skip(count as int)
                } else {
                    &&& asked == Request::Control { call: state.reactor.modifying_read(entry.fd) }
                    &&& next.stage->entry.task == TaskState::Connection(
                        ConnectionState::idle(entry.fd),
                    )
                },
                Err(error) => if error.kind == ErrorKind::WouldBlock {
                    waits_for_room
                } else {
                    asked == Request::Close { fd: entry.fd }
                },
            }
        }),
{
    let next = state.resumed(Reply::Wrote(outcome), answer, nodelay).0;
    if let Ok(count) = outcome {
        if 0 < count && count < state.outgoing().len() {
            assert(next.outgoing() =~= state.outgoing().skip(count as int));
        }
    }
}

/// A connection reads no request while a response is unwritten, and being scheduled does not
/// change what is left to write.
pub proof fn response_comes_before_the_next_request(connection: ConnectionState)
    requires
        connection.wf(),
    ensures
        connection.handled().0 == connection,
        connection.handled().1 == Step::Ask(
            if connection.response is Some {
                Phase::Write
            } else {
                Phase::Read
            },
        ),
{
}

/// A task rests only once its own socket has been rearmed.
pub proof fn task_rests_only_once_rearmed(
    reactor: Reactor,
    task: TaskState,
    phase: Phase,
    reply: Reply,
    answer: Option<Seq<u8>>,
    nodelay: bool,
)
    requires
        task.wf(),
        task.may_be_in(phase),
        task.expects(phase, reply),
        task.resumed(phase, reply, answer).1 == Step::Finish(TaskStatus::Pending),
    ensures
        reply is Done,
        reply->Done_0 is Ok,
        ({
            let request = request_of(reactor, task, phase, nodelay);
            ||| request == Request::Control { call: reactor.modifying_read(task.fd()) }
            ||| request == Request::Control { call: reactor.modifying_read_write(task.fd()) }
        }),
{
}

/// A connection with bytes left to write rests only rearmed for writing too.
pub proof fn blocked_writer_waits_for_writability(
    connection: ConnectionState,
    outcome: Result<usize, IoError>,
)
    requires
        connection.wf(),
        connection.response is Some,
    ensures
        ({
            let (after, step) = connection.wrote(outcome);
            step matches Step::Ask(Phase::Rearm(interest)) ==> (interest is ReadWrite
                <==> after.outgoing().len() > 0)
        }),
{
}

/// The ready queue is first come, first served: the first descriptor with a stored task runs,
/// those before it are dropped, and those after it stay queued in order.
pub proof fn first_ready_task_runs(
    state: ServerState,
    before: Seq<RawFd>,
    fd: RawFd,
    after: Seq<RawFd>,
    nodelay: bool,
)
    requires
        state.wf(),
        state.ready == before + seq![fd] + after,
        forall|i: int| 0 <= i < before.len() ==> !state.tasks.contains_key(before[i] as int),
        state.tasks.contains_key(fd as int),
    ensures
        ({
            let next = state.scheduled(nodelay).0;
            &&& next.stage is Driving
            &&& next.stage->index == fd
            &&& next.stage->entry.task.fd() == fd
            &&& next.ready == after
            &&& next.tasks == state.tasks.remove(fd as int)
        }),
{
    lemma_skip_to(state.ready, state.tasks, before, fd, after);
    assert((seq![fd] + after).skip(1) =~= after);
}

/// [`skip_unknown`] drops descriptors without a task, and stops at the first one with a task.
proof fn lemma_skip_to(
    ready: Seq<RawFd>,
    tasks: Map<int, EntryState>,
    before: Seq<RawFd>,
    fd: RawFd,
    after: Seq<RawFd>,
)
    requires
        ready == before + seq![fd] + after,
        forall|i: int| 0 <= i < before.len() ==> !tasks.contains_key(before[i] as int),
        tasks.contains_key(fd as int),
    ensures
        skip_unknown(ready, tasks) == seq![fd] + after,
    decreases before.len(),
{
    if before.len() == 0 {
        assert(ready =~= seq![fd] + after);
    } else {
        assert(ready[0] == before[0]);
        assert(ready.skip(1) =~= before.skip(1) + seq![fd] + after);
        lemma_skip_to(ready.skip(1), tasks, before.skip(1), fd, after);
    }
}

/// The server waits for events exactly when no ready descriptor has a stored task.
pub proof fn server_polls_only_when_nothing_is_ready(state: ServerState, nodelay: bool)
    requires
        state.wf(),
    ensures
        (state.scheduled(nodelay).1 is Poll) <==> (forall|i: int|
            0 <= i < state.ready.len() ==> !state.tasks.contains_key(
                #[trigger] state.ready[i] as int,
            )),
        state.scheduled(nodelay).1 is Poll ==> state.scheduled(nodelay).0.ready.len() == 0,
{
    skipping_stops_at_a_task(state.ready, state.tasks);
}

/// The event loop ends well exactly when a wait brings an event of the shutdown descriptor.
pub proof fn only_shutdown_ends_the_loop_well(
    state: ServerState,
    reply: Reply,
    answer: Option<Seq<u8>>,
    nodelay: bool,
)
    requires
        state.wf(),
        state.expects(reply),
    ensures
        state.resumed(reply, answer, nodelay).1 == (Request::Exit { result: Ok(()) }) <==> {
            &&& state.stage is Polling
            &&& reply->Polled_0 is Ok
            &&& fds_of(reply->Polled_0->Ok_0@).contains(state.reactor.shutdown_fd)
        },
{
    if state.stage is Polling && reply->Polled_0 is Ok {
        shutdown_is_reported_once_seen(state.reactor, state.ready, reply->Polled_0->Ok_0);
    }
}

/// The error that a reply carries, if it carries one.
pub open spec fn error_of(reply: Reply) -> Option<IoError> {
    match reply {
        Reply::Accepted(Err(error)) => Some(error),
        Reply::Received(Err(error)) => Some(error),
        Reply::Wrote(Err(error)) => Some(error),
        Reply::Polled(Err(error)) => Some(error),
        Reply::Done(Err(error)) => Some(error),
        _ => None,
    }
}

/// The event loop ends with an error only if the last call was one of the reactor and failed with
/// that error.
pub proof fn loop_fails_with_a_reactor_error_only(
    state: ServerState,
    reply: Reply,
    answer: Option<Seq<u8>>,
    nodelay: bool,
    error: IoError,
)
    requires
        state.wf(),
        state.expects(reply),
        state.resumed(reply, answer, nodelay).1 == (Request::Exit { result: Err(error) }),
    ensures
        state.asked(nodelay) is Some,
        state.asked(nodelay)->0 is Control || state.asked(nodelay)->0 is Poll,
        error_of(reply) == Some(error),
        state.resumed(reply, answer, nodelay).0.stage is Stopped,
{
}

/// A failed call on a socket, be it accept, read, write or the setting of an option, never ends
/// the event loop.
pub proof fn socket_errors_do_not_end_the_loop(
    state: ServerState,
    reply: Reply,
    answer: Option<Seq<u8>>,
    nodelay: bool,
)
    requires
        state.wf(),
        state.expects(reply),
        state.asked(nodelay) is Some,
        !(state.asked(nodelay)->0 is Control),
        !(state.asked(nodelay)->0 is Poll),
    ensures
        !(state.resumed(reply, answer, nodelay).1 is Exit),
{
}

/// What the server asks for is what its state says it waits for, unless the event loop ends.
pub proof fn state_names_the_request(
    state: ServerState,
    reply: Reply,
    answer: Option<Seq<u8>>,
    nodelay: bool,
)
    requires
        state.wf(),
        state.expects(reply),
    ensures
        ({
            let (next, request) = state.resumed(reply, answer, nodelay);
            request is Exit || next.asked(nodelay) == Some(request)
        }),
        ({
            let (next, request) = state.scheduled(nodelay);
            next.asked(nodelay) == Some(request)
        }),
{
}

/// An accepted client that cannot be made non-blocking, or whose delay setting fails, is closed;
/// the next client is accepted, and nothing else changes.
pub proof fn unusable_client_is_dropped(
    state: ServerState,
    client: RawFd,
    error: IoError,
    result: Result<(), IoError>,
    nodelay: bool,
)
    requires
        state.wf(),
        state.stage is Driving,
        state.stage->entry.task is Acceptor,
        state.stage->phase == Phase::SetNonblocking(client) || state.stage->phase
            == Phase::SetNodelay(client),
    ensures
        ({
            let (s1, r1) = state.resumed(Reply::Done(Err(error)), None, nodelay);
            let (s2, r2) = s1.resumed(Reply::Done(result), None, nodelay);
            &&& r1 == Request::Close { fd: client }
            &&& r2 == Request::Accept { listener: state.stage->entry.task->Acceptor_0 }
            &&& s2 == (ServerState {
                stage: StageState::Driving {
                    index: state.stage->index,
                    entry: state.stage->entry,
                    phase: Phase::Accept,
                },
                ..state
            })
        }),
{
}

/// Whether the server has a task for the socket numbered `slot`, stored or running.
pub open spec fn knows(state: ServerState, slot: int) -> bool {
    ||| state.tasks.contains_key(slot)
    ||| (state.stage is Driving && state.stage->index == slot)
}

/// No task is lost and none appears from nowhere: a task stays known until its socket is closed
/// or the event loop ends, and a new one is that of a client just registered.
pub proof fn tasks_live_until_closed(
    state: ServerState,
    reply: Reply,
    answer: Option<Seq<u8>>,
    nodelay: bool,
    slot: int,
)
    requires
        state.wf(),
        state.expects(reply),
    ensures
        ({
            let (next, request) = state.resumed(reply, answer, nodelay);
            let client = if state.stage is Driving {
                registered(state.stage->phase, reply)
            } else {
                None
            };
            &&& knows(state, slot) && !knows(next, slot) ==> {
                ||| (request matches Request::Close { fd } && fd == slot)
                ||| request is Exit
            }
            &&& !knows(state, slot) && knows(next, slot) ==> {
                &&& client is Some
                &&& client->0 == slot
            }
        }),
{
    lemma_resume_skips(state, reply, answer);
}

/// A socket is closed when its task has ended, and no task is left in its slot, or when it is
/// that of a client that could not be set up, which has no task.
pub proof fn closed_socket_has_no_task(
    state: ServerState,
    reply: Reply,
    answer: Option<Seq<u8>>,
    nodelay: bool,
)
    requires
        state.wf(),
        state.expects(reply),
        state.resumed(reply, answer, nodelay).1 is Close,
    ensures
        ({
            let (next, request) = state.resumed(reply, answer, nodelay);
            let fd = request->Close_fd;
            &&& state.stage is Driving
            &&& match next.stage {
                StageState::Closing { .. } => fd == state.stage->index && !knows(next, fd as int),
                _ => {
                    &&& client_of(state.stage->phase) == Some(fd)
                    &&& next.tasks == state.tasks
                },
            }
        }),
{
    lemma_resume_skips(state, reply, answer);
}

/// Work on one task leaves every other stored task as it was, until it is its turn.
pub proof fn other_tasks_are_untouched(
    state: ServerState,
    reply: Reply,
    answer: Option<Seq<u8>>,
    nodelay: bool,
    slot: int,
)
    requires
        state.wf(),
        state.expects(reply),
        state.tasks.contains_key(slot),
        state.stage is Driving ==> {
            &&& state.stage->index != slot
            &&& registered(state.stage->phase, reply) matches Some(client) ==> client != slot
        },
    ensures
        ({
            let next = state.resumed(reply, answer, nodelay).0;
            if next.stage is Driving && next.stage->index == slot {
                next.stage->entry == (EntryState {
                    task: state.tasks[slot].task.handled().0,
                    ..state.tasks[slot]
                })
            } else {
                next.tasks.contains_key(slot) && next.tasks[slot] == state.tasks[slot]
            }
        }),
{
    lemma_resume_skips(state, reply, answer);
}

/// Whatever the outcome of a call, the task that runs next is a stored one.
proof fn lemma_resume_skips(state: ServerState, reply: Reply, answer: Option<Seq<u8>>)
    ensures
        ({
            let (ready, _) = state.reactor.waited(state.ready, reply->Polled_0);
            let rest = skip_unknown(ready, state.tasks);
            rest.len() > 0 ==> state.tasks.contains_key(rest[0] as int)
        }),
        ({
            let rest = skip_unknown(state.ready, state.tasks);
            rest.len() > 0 ==> state.tasks.contains_key(rest[0] as int)
        }),
        state.stage matches StageState::Driving { index, entry, phase } ==> {
            let (task, step) = entry.task.resumed(phase, reply, answer);
            let admitted = state.admitting(registered(phase, reply));
            let tasks = admitted.tasks.insert(index, EntryState { task, ..entry });
            let rest = skip_unknown(admitted.ready, tasks);
            rest.len() > 0 ==> tasks.contains_key(rest[0] as int)
        },
{
    let (ready, _) = state.reactor.waited(state.ready, reply->Polled_0);
    skipping_stops_at_a_task(ready, state.tasks);
    skipping_stops_at_a_task(state.ready, state.tasks);
    match state.stage {
        StageState::Driving { index, entry, phase } => {
            let (task, step) = entry.task.resumed(phase, reply, answer);
            let admitted = state.admitting(registered(phase, reply));
            skipping_stops_at_a_task(
                admitted.ready,
                admitted.tasks.insert(index, EntryState { task, ..entry }),
            );
        },
        _ => {},
    }
}

/// A client that is accepted, where no call fails, is made non-blocking, gets the protocol's
/// `TCP_NODELAY` setting, is registered for reading, and has its task stored and queued behind
/// all others; the next client is accepted after that.
pub proof fn accepted_client_gets_a_task(
    state: ServerState,
    client: RawFd,
    nodelay: bool,
    answers: Seq<Option<Seq<u8>>>,
)
    requires
        state.wf(),
        state.stage is Driving,
        state.stage->entry.task is Acceptor,
        state.stage->phase == Phase::Accept,
        client >= 0,
    ensures
        ({
            let listener = state.stage->entry.task->Acceptor_0;
            let done = Reply::Done(Ok(()));
            let (s1, r1) = state.resumed(Reply::Accepted(Ok(client)), answers[0], nodelay);
            let (s2, r2) = s1.resumed(done, answers[1], nodelay);
            let (s3, r3) = s2.resumed(done, answers[2], nodelay);
            let (s4, r4) = s3.resumed(done, answers[3], nodelay);
            &&& r1 == Request::SetNonblocking { fd: client }
            &&& r2 == Request::SetNodelay { fd: client, nodelay }
            &&& r3 == Request::Control { call: state.reactor.adding_read(client) }
            &&& r4 == Request::Accept { listener }
            &&& s4.ready == state.ready.push(client)
            &&& s4.tasks == state.tasks.insert(client as int, fresh_entry(client))
            &&& s4.stage == state.stage
        }),
{
}

/// A failing listening socket is taken out of the reactor, reported and closed, and the server
/// goes on without it.
pub proof fn broken_listener_is_dropped(
    state: ServerState,
    error: IoError,
    results: Seq<Result<(), IoError>>,
    nodelay: bool,
)
    requires
        state.wf(),
        state.stage is Driving,
        state.stage->entry.task is Acceptor,
        state.stage->phase == Phase::Accept,
        error.kind != ErrorKind::WouldBlock,
    ensures
        ({
            let listener = state.stage->entry.task->Acceptor_0;
            let (s1, r1) = state.resumed(Reply::Accepted(Err(error)), None, nodelay);
            let (s2, r2) = s1.resumed(Reply::Done(results[0]), None, nodelay);
            let (s3, r3) = s2.resumed(Reply::Done(results[1]), None, nodelay);
            &&& r1 == Request::Control { call: state.reactor.unregistering(listener) }
            &&& r2 == Request::Report { origin: Origin::Acceptor, error }
            &&& r3 == Request::Close { fd: listener }
            &&& s3.tasks == state.tasks.remove(listener as int)
            &&& s3.ready == state.ready
        }),
{
}

/// A wait that a signal interrupts queues nothing, and the server waits again.
pub proof fn interrupted_wait_is_repeated(state: ServerState, error: IoError, nodelay: bool)
    requires
        state.wf(),
        state.stage is Polling,
        state.ready.len() == 0,
        error.kind == ErrorKind::Interrupted,
    ensures
        ({
            let (next, request) = state.resumed(Reply::Polled(Err(error)), None, nodelay);
            &&& next == state
            &&& request is Poll
        }),
{
    assert(state.resumed(Reply::Polled(Err(error)), None, nodelay).0 =~= state);
}

/// Where no call fails, the set-up calls come in a fixed order, and the server that results will
/// run the accept task of the listening socket first.
pub proof fn startup_calls_come_in_order(config: ServerConfig, values: Seq<i32>)
    requires
        values.len() == 9,
    ensures
        ({
            let s0 = StartupState { config, stage: SetupStage::Listen };
            let s1 = s0.resumed(Ok(values[0]))->Continue_0;
            let s2 = s1.resumed(Ok(values[1]))->Continue_0;
            let s3 = s2.resumed(Ok(values[2]))->Continue_0;
            let s4 = s3.resumed(Ok(values[3]))->Continue_0;
            let s5 = s4.resumed(Ok(values[4]))->Continue_0;
            let s6 = s5.resumed(Ok(values[5]))->Continue_0;
            let s7 = s6.resumed(Ok(values[6]))->Continue_0;
            let s8 = s7.resumed(Ok(values[7]))->Continue_0;
            let (listener, epfd, shutdown_fd) = (values[0], values[2], values[6]);
            let reactor = s0.reactor(epfd, shutdown_fd);
            &&& s0.call() == SetupCall::Listen { addr: config.addr }
            &&& s1.call() == SetupCall::SetNonblocking { fd: listener }
            &&& s2.call() == SetupCall::CreateEpoll { close_on_exec: true }
            &&& s3.call() == SetupCall::EmptySignalSet
            &&& s4.call() == SetupCall::AddSignal { signal: 2 }
            &&& s5.call() == SetupCall::ChangeMask { how: MaskChange::Block }
            &&& s6.call() == SetupCall::CreateSignalFd { nonblocking: true, close_on_exec: true }
            &&& s7.call() == SetupCall::Control { call: reactor.adding_read(shutdown_fd) }
            &&& s8.call() == SetupCall::Control { call: reactor.adding_read(listener) }
            &&& s8.resumed(Ok(values[8])) == SetupState::Ready(
                ServerState::initial(reactor, listener, config.task_capacity as nat),
            )
        }),
{
}

/// The first thing a new server asks for is a client of its listening socket.
pub proof fn new_server_accepts_first(
    reactor: Reactor,
    listener: RawFd,
    task_capacity: nat,
    nodelay: bool,
)
    requires
        reactor.wf(),
        listener >= 0,
    ensures
        ({
            let state = ServerState::initial(reactor, listener, task_capacity);
            &&& state.wf()
            &&& state.scheduled(nodelay).1 == Request::Accept { listener }
            &&& state.scheduled(nodelay).0.ready.len() == 0
        }),
{
    let ready = ServerState::initial(reactor, listener, task_capacity).ready;
    assert(ready[0] == listener);
}

/// A set-up call that fails ends the set-up with its error, at any stage.
pub proof fn failed_startup_returns_the_error(state: StartupState, error: IoError)
    ensures
        state.resumed(Err(error)) == (SetupState::Failed { error, close: state.stage.owned() }),
        state.stage.listener() matches Some(listener) ==> state.stage.owned().contains(listener),
{
    match state.stage {
        SetupStage::Listen => {},
        SetupStage::Register { listener, .. } => {
            assert(state.stage.owned()[2] == listener);
        },
        SetupStage::RegisterListener { listener, .. } => {
            assert(state.stage.owned()[2] == listener);
        },
        _ => {
            assert(state.stage.owned()[0] == state.stage.listener()->0);
        },
    }
}

/// Every expected outcome of a set-up call keeps what earlier calls gave, and a server that results
/// has a reactor over descriptors.
pub proof fn startup_keeps_wf(state: StartupState, reply: Result<i32, IoError>)
    requires
        state.wf(),
        state.expects(reply),
    ensures
        match state.resumed(reply) {
            SetupState::Continue(next) => next.wf(),
            SetupState::Ready(server) => server.wf() && server.reactor.wf(),
            SetupState::Failed { .. } => true,
        },
{
}

/// The client that a phase of the accept task is about, before it has a task of its own.
pub open spec fn client_of(phase: Phase) -> Option<RawFd> {
    match phase {
        Phase::SetNonblocking(fd) => Some(fd),
        Phase::SetNodelay(fd) => Some(fd),
        Phase::Register(fd) => Some(fd),
        Phase::Discard(fd) => Some(fd),
        _ => None,
    }
}

/// What an epoll instance knows: the sockets registered with it, and those of them for which it
/// will still deliver an event.
#[verifier::ext_equal]
pub struct Epoll {
    /// The registered sockets.
    pub registered: Set<RawFd>,
    /// The armed sockets.
    pub armed: Set<RawFd>,
}

impl Epoll {
    /// A new epoll instance.
    pub open spec fn empty() -> Self {
        Epoll { registered: Set::empty(), armed: Set::empty() }
    }

    /// After `fd` was removed or closed.
    pub open spec fn without(self, fd: RawFd) -> Self {
        Epoll { registered: self.registered.remove(fd), armed: self.armed.remove(fd) }
    }

    /// After a control call with the given result: adding registers and arms a socket, modifying
    /// arms it if it is registered, removing takes it out.
    pub open spec fn controlled(self, call: Control, result: Result<(), IoError>) -> Self {
        if call.op == 1 && result is Ok {
            Epoll {
                registered: self.registered.insert(call.fd),
                armed: self.armed.insert(call.fd),
            }
        } else if call.op == 3 && result is Ok && self.registered.contains(call.fd) {
            Epoll { armed: self.armed.insert(call.fd), ..self }
        } else if call.op == 2 {
            self.without(call.fd)
        } else {
            self
        }
    }

    /// After a call of the server with the given outcome: registrations are for one event, so an
    /// event disarms its socket.
    pub open spec fn after(self, request: Request, reply: Reply) -> Self {
        match request {
            Request::Control { call } => self.controlled(call, reply->Done_0),
            Request::Close { fd } => self.without(fd),
            Request::Poll { .. } => match reply->Polled_0 {
                Ok(events) => Epoll {
                    armed: self.armed.difference(fds_of(events@).to_set()),
                    ..self
                },
                Err(_) => self,
            },
            _ => self,
        }
    }
}

/// Whether the server has no task for `fd`, and `fd` is not the shutdown descriptor.
pub open spec fn is_free(state: ServerState, fd: RawFd) -> bool {
    !knows(state, fd as int) && fd != state.reactor.shutdown_fd
}

/// Whether the epoll instance serves the server:
/// - every stored task has a registered socket, and is queued or armed;
/// - the running task has a registered socket, unless it is the accept task about to end;
/// - the shutdown descriptor is armed;
/// - a client being set up, or a socket being closed, is not that of a stored task.
pub open spec fn serves(epoll: Epoll, state: ServerState) -> bool {
    &&& forall|fd: RawFd| #[trigger]
        state.tasks.contains_key(fd as int) ==> {
            &&& epoll.registered.contains(fd)
            &&& state.ready.contains(fd) || epoll.armed.contains(fd)
        }
    &&& epoll.registered.contains(state.reactor.shutdown_fd)
    &&& epoll.armed.contains(state.reactor.shutdown_fd)
    &&& !knows(state, state.reactor.shutdown_fd as int)
    &&& match state.stage {
        StageState::Driving { index, entry, phase } => {
            &&& !state.tasks.contains_key(index)
            &&& epoll.registered.contains(entry.fd) || (entry.task is Acceptor && phase is Report)
            &&& client_of(phase) matches Some(client) ==> is_free(state, client)
        },
        StageState::Closing { fd } => is_free(state, fd),
        _ => true,
    }
}

/// A queued descriptor that has a task survives [`skip_unknown`].
proof fn lemma_skip_keeps(ready: Seq<RawFd>, tasks: Map<int, EntryState>, fd: RawFd)
    requires
        ready.contains(fd),
        tasks.contains_key(fd as int),
    ensures
        skip_unknown(ready, tasks).contains(fd),
    decreases ready.len(),
{
    if !tasks.contains_key(ready[0] as int) {
        let i = choose|i: int| 0 <= i < ready.len() && ready[i] == fd;
        assert(ready.skip(1)[i - 1] == fd);
        lemma_skip_keeps(ready.skip(1), tasks, fd);
    }
}

/// The set-up leaves an epoll instance that serves the new server, whose listening socket is
/// another than its shutdown descriptor.
pub proof fn new_server_is_served(reactor: Reactor, listener: RawFd, task_capacity: nat)
    requires
        reactor.wf(),
        listener >= 0,
        listener != reactor.shutdown_fd,
    ensures
        serves(
            Epoll::empty().controlled(reactor.adding_read(reactor.shutdown_fd), Ok(())).controlled(
                reactor.adding_read(listener),
                Ok(()),
            ),
            ServerState::initial(reactor, listener, task_capacity),
        ),
{
    assert(ServerState::initial(reactor, listener, task_capacity).ready[0] == listener);
}

/// Choosing what to run leaves the server served.
pub proof fn scheduling_keeps_the_server_served(epoll: Epoll, state: ServerState, nodelay: bool)
    requires
        state.wf(),
        !(state.stage is Driving),
        serves(epoll, state),
    ensures
        serves(epoll, state.scheduled(nodelay).0),
{
    skipping_stops_at_a_task(state.ready, state.tasks);
    let rest = skip_unknown(state.ready, state.tasks);
    let next = state.scheduled(nodelay).0;
    if rest.len() > 0 {
        assert(epoll.registered.contains(rest[0]));
    }
    assert forall|fd: RawFd| #[trigger] next.tasks.contains_key(fd as int) implies {
        next.ready.contains(fd) || epoll.armed.contains(fd)
    } by {
        assert(state.tasks.contains_key(fd as int));
        if !epoll.armed.contains(fd) {
            lemma_skip_keeps(state.ready, state.tasks, fd);
            let i = choose|i: int| 0 <= i < rest.len() && rest[i] == fd;
            if i > 0 {
                assert(rest.skip(1)[i - 1] == fd);
            }
        }
    }
}

/// As long as the event loop goes on, the epoll instance serves the server: no stored task is
/// stranded, and a shutdown signal will be seen. An accepted client has a socket of its own.
pub proof fn server_stays_served(
    epoll: Epoll,
    state: ServerState,
    reply: Reply,
    answer: Option<Seq<u8>>,
    nodelay: bool,
)
    requires
        state.wf(),
        state.expects(reply),
        serves(epoll, state),
        reply matches Reply::Accepted(Ok(client)) ==> is_free(state, client),
        !(state.resumed(reply, answer, nodelay).1 is Exit),
    ensures
        serves(
            epoll.after(state.asked(nodelay)->0, reply),
            state.resumed(reply, answer, nodelay).0,
        ),
{
    let after = epoll.after(state.asked(nodelay)->0, reply);
    match state.stage {
        StageState::Polling => {
            let (ready, result) = state.reactor.waited(state.ready, reply->Polled_0);
            let polled = ServerState { ready, ..state };
            if let Ok(events) = reply->Polled_0 {
                shutdown_is_reported_once_seen(state.reactor, state.ready, events);
                let fds = fds_of(events@);
                assert(result == Ok::<Wait, IoError>(Wait::Ready));
                assert(ready == state.ready + fds);
                assert(!fds.to_set().contains(state.reactor.shutdown_fd));
                assert forall|fd: RawFd| #[trigger] polled.tasks.contains_key(fd as int) implies {
                    polled.ready.contains(fd) || after.armed.contains(fd)
                } by {
                    if state.ready.contains(fd) {
                        let i = choose|i: int| 0 <= i < state.ready.len() && state.ready[i] == fd;
                        assert(ready[i] == fd);
                    } else if fds.contains(fd) {
                        let i = choose|i: int| 0 <= i < fds.len() && fds[i] == fd;
                        assert(ready[state.ready.len() + i] == fd);
                    } else {
                        assert(!fds.to_set().contains(fd));
                    }
                }
            }
            scheduling_keeps_the_server_served(after, polled, nodelay);
        },
        StageState::Driving { index, entry, phase } => {
            let (task, step) = entry.task.resumed(phase, reply, answer);
            let admitted = state.admitting(registered(phase, reply));
            if let Some(client) = registered(phase, reply) {
                assert(admitted.ready.last() == client);
            }
            assert forall|fd: RawFd| #[trigger] admitted.tasks.contains_key(fd as int) implies {
                &&& after.registered.contains(fd)
                &&& admitted.ready.contains(fd) || after.armed.contains(fd)
            } by {
                if state.tasks.contains_key(fd as int) && state.ready.contains(fd) {
                    let i = choose|i: int| 0 <= i < state.ready.len() && state.ready[i] == fd;
                    assert(admitted.ready[i] == fd);
                }
            }
            let (next, request) = admitted.driven(
                index,
                EntryState { task, ..entry },
                step,
                nodelay,
            );
            assert(serves(after, next));
            if request is None {
                scheduling_keeps_the_server_served(after, next, nodelay);
            }
        },
        _ => {
            scheduling_keeps_the_server_served(after, state, nodelay);
        },
    }
}

/// Every modify call that a served server asks for is of a registered socket.
pub proof fn only_registered_sockets_are_modified(
    epoll: Epoll,
    state: ServerState,
    call: Control,
    nodelay: bool,
)
    requires
        state.wf(),
        serves(epoll, state),
        state.asked(nodelay) == Some(Request::Control { call }),
        call.op == 3,
    ensures
        epoll.registered.contains(call.fd),
{
}

/// A server without clients rearms its registered listening socket, waits, and ends well once a
/// wait brings an event of the shutdown descriptor.
pub proof fn idle_server_waits_for_shutdown(
    reactor: Reactor,
    listener: RawFd,
    task_capacity: nat,
    error: IoError,
    events: Vec<EpollEvent>,
    nodelay: bool,
)
    requires
        reactor.wf(),
        listener >= 0,
        error.kind == ErrorKind::WouldBlock,
        fds_of(events@).contains(reactor.shutdown_fd),
    ensures
        ({
            let (s1, r1) = ServerState::initial(reactor, listener, task_capacity).scheduled(nodelay);
            let (s2, r2) = s1.resumed(Reply::Accepted(Err(error)), None, nodelay);
            let (s3, r3) = s2.resumed(Reply::Done(Ok(())), None, nodelay);
            let (_, r4) = s3.resumed(Reply::Polled(Ok(events)), None, nodelay);
            &&& r1 == Request::Accept { listener }
            &&& r2 == Request::Control { call: reactor.modifying_read(listener) }
            &&& r3 is Poll
            &&& r4 == Request::Exit { result: Ok(()) }
        }),
{
    let initial = ServerState::initial(reactor, listener, task_capacity);
    assert(initial.ready[0] == listener);
    let (s1, _) = initial.scheduled(nodelay);
    let (s2, _) = s1.resumed(Reply::Accepted(Err(error)), None, nodelay);
    let (s3, _) = s2.resumed(Reply::Done(Ok(())), None, nodelay);
    assert(s1.ready.len() == 0);
    shutdown_is_reported_once_seen(reactor, s3.ready, events);
}

/// A connection over its whole life: where it stands, and all bytes read and sent so far.
#[verifier::ext_equal]
pub struct Session {
    /// The connection.
    pub connection: ConnectionState,
    /// The call it waits for, until it has ended.
    pub phase: Option<Phase>,
    /// All bytes read.
    pub read: Seq<u8>,
    /// All bytes sent.
    pub sent: Seq<u8>,
}

impl Session {
    /// A new connection being scheduled for the first time.
    pub open spec fn start(fd: RawFd) -> Self {
        Session {
            connection: ConnectionState::idle(fd),
            phase: Some(Phase::Read),
            read: Seq::empty(),
            sent: Seq::empty(),
        }
    }

    /// What holds of a connection that waits or has ended.
    pub open spec fn wf(self) -> bool {
        &&& self.connection.wf()
        &&& self.phase matches Some(phase) ==> TaskState::Connection(self.connection).may_be_in(
            phase,
        )
    }

    /// Whether `reply` can come next: a write takes no more bytes than it is offered.
    pub open spec fn expects(self, reply: Reply) -> bool {
        self.phase matches Some(phase) ==> {
            &&& TaskState::Connection(self.connection).expects(phase, reply)
            &&& reply matches Reply::Wrote(Ok(count)) ==> count
                <= self.connection.outgoing().len()
        }
    }

    /// The session after the outcome of the call it waits for, where `answer` is the protocol's
    /// answer to the bytes read. A connection that rests is scheduled again.
    pub open spec fn after(self, reply: Reply, answer: Option<Seq<u8>>) -> Self {
        match self.phase {
            None => self,
            Some(phase) => {
                let (task, step) = TaskState::Connection(self.connection).resumed(
                    phase,
                    reply,
                    answer,
                );
                let connection = task->Connection_0;
                let (connection, next) = match step {
                    Step::Ask(next) => (connection, Some(next)),
                    Step::Finish(TaskStatus::Pending) => (
                        connection.handled().0,
                        Some(connection.handled().1->Ask_0),
                    ),
                    _ => (connection, None),
                };
                Session {
                    connection,
                    phase: next,
                    read: match reply {
                        Reply::Received(Ok(bytes)) => self.read + bytes@,
                        _ => self.read,
                    },
                    sent: match reply {
                        Reply::Wrote(Ok(count)) => self.sent + self.connection.outgoing().take(
                            count as int,
                        ),
                        _ => self.sent,
                    },
                }
            },
        }
    }
}

/// The session after a series of outcomes, each with the protocol's answer.
pub open spec fn session_after(
    session: Session,
    outcomes: Seq<(Reply, Option<Seq<u8>>)>,
) -> Session
    decreases outcomes.len(),
{
    if outcomes.len() == 0 {
        session
    } else {
        session_after(session.after(outcomes[0].0, outcomes[0].1), outcomes.skip(1))
    }
}

/// Whether the outcomes can follow each other, with answers of the echo protocol.
pub open spec fn is_echo_session(
    session: Session,
    outcomes: Seq<(Reply, Option<Seq<u8>>)>,
) -> bool
    decreases outcomes.len(),
{
    outcomes.len() > 0 ==> {
        let (reply, answer) = outcomes[0];
        &&& session.expects(reply)
        &&& may_answer_reply::<Echo>(reply, answer)
        &&& is_echo_session(session.after(reply, answer), outcomes.skip(1))
    }
}

/// One outcome leaves an echo session such that all bytes sent, followed by those still outgoing,
/// are all bytes read.
proof fn lemma_echo_step(session: Session, reply: Reply, answer: Option<Seq<u8>>)
    requires
        session.wf(),
        session.expects(reply),
        may_answer_reply::<Echo>(reply, answer),
        session.sent + session.connection.outgoing() == session.read,
    ensures
        ({
            let next = session.after(reply, answer);
            &&& next.wf()
            &&& next.sent + next.connection.outgoing() == next.read
        }),
{
    let next = session.after(reply, answer);
    if session.phase is Some {
        match reply {
            Reply::Received(Ok(bytes)) => {
                if bytes@.len() > 0 {
                    echo_answers_with_the_request(bytes@, answer);
                    assert(next.connection.outgoing() =~= bytes@);
                }
                assert(session.connection.outgoing() =~= Seq::empty());
                assert(next.sent + next.connection.outgoing() =~= next.read);
            },
            Reply::Wrote(Ok(count)) => {
                assert(session.connection.outgoing().take(count as int)
                    + next.connection.outgoing() =~= session.connection.outgoing());
                assert(next.sent + next.connection.outgoing() =~= session.sent + (
                session.connection.outgoing().take(count as int) + next.connection.outgoing()));
            },
            _ => {
                assert(next.connection == session.connection);
            },
        }
    }
}

/// A series of outcomes leaves an echo session such that all bytes sent, followed by those still
/// outgoing, are all bytes read.
proof fn lemma_echo_session(session: Session, outcomes: Seq<(Reply, Option<Seq<u8>>)>)
    requires
        session.wf(),
        session.sent + session.connection.outgoing() == session.read,
        is_echo_session(session, outcomes),
    ensures
        ({
            let end = session_after(session, outcomes);
            end.sent + end.connection.outgoing() == end.read
        }),
    decreases outcomes.len(),
{
    if outcomes.len() > 0 {
        let (reply, answer) = outcomes[0];
        lemma_echo_step(session, reply, answer);
        lemma_echo_session(session.after(reply, answer), outcomes.skip(1));
    }
}

/// Over a whole session of the echo protocol, from a new connection on, all bytes sent, followed
/// by those still outgoing, are all bytes read.
pub proof fn echo_session_sends_what_it_reads(
    fd: RawFd,
    outcomes: Seq<(Reply, Option<Seq<u8>>)>,
)
    requires
        is_echo_session(Session::start(fd), outcomes),
    ensures
        ({
            let end = session_after(Session::start(fd), outcomes);
            end.sent + end.connection.outgoing() == end.read
        }),
{
    let start = Session::start(fd);
    assert(start.sent + start.connection.outgoing() =~= start.read);
    lemma_echo_session(start, outcomes);
}

} // verus!
