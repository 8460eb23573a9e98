//! What each outcome of a call means for the task that waited for it.

use vstd::prelude::*;
use vstd::std_specs::convert::FromSpec;

use crate::acceptor::{accepted, configured, required, Acceptor};
use crate::connection::{rearmed, Connection, ConnectionState};
use crate::io::{ErrorKind, IoError, RawFd, Reply};
use crate::step::{Interest, Phase, Step};
use crate::task::{fresh_entry, larger, registered};
use crate::task::{EntryState, Task, TaskEntry, TaskState, TaskStatus};

verus! {

/// A new connection has nothing to write, and so has the entry made for it.
pub proof fn new_connection_has_nothing_to_write(fd: RawFd)
    ensures
        ConnectionState::idle(fd).fd == fd,
        ConnectionState::idle(fd).response is None,
        ConnectionState::idle(fd).written == 0,
        ConnectionState::idle(fd).wf(),
        fresh_entry(fd).fd == fd,
        fresh_entry(fd).task == TaskState::Connection(
            (ConnectionState { fd, response: None, written: 0 }),
        ),
{
}

/// What is left to write of a response begins at its first unwritten byte and goes on to its
/// end; without a response nothing is left.
pub proof fn rest_begins_at_the_first_unwritten_byte(connection: ConnectionState)
    ensures
        connection.response is None ==> connection.outgoing().len() == 0,
        connection.response matches Some(response) ==> (connection.written <= response.len() ==> {
            &&& connection.outgoing().len() == response.len() - connection.written
            &&& forall|i: int|
                0 <= i < connection.outgoing().len() ==> #[trigger] connection.outgoing()[i]
                    == response[connection.written + i]
        }),
{
}

/// A connection is well formed exactly if a response that it keeps has an unwritten byte, and
/// nothing counts as written without one.
pub proof fn kept_response_is_unfinished(connection: ConnectionState)
    ensures
        connection.wf() <==> {
            ||| connection.response is None && connection.written == 0
            ||| connection.response is Some && connection.written < (connection.response->0).len()
        },
{
}

/// A read that would block, whatever the number of the error, changes nothing: the connection
/// waits for its socket to be readable.
pub proof fn blocked_read_waits_for_readability(
    connection: ConnectionState,
    error: IoError,
    answer: Option<Seq<u8>>,
)
    requires
        error.kind == ErrorKind::WouldBlock,
    ensures
        connection.received(Err(error), answer).0 == connection,
        connection.received(Err(error), answer).1 == Step::Ask(Phase::Rearm(Interest::Read)),
{
}

/// The end of the stream and a reset, whatever its number, end the connection in silence.
pub proof fn ended_stream_ends_the_connection(
    connection: ConnectionState,
    outcome: Result<Vec<u8>, IoError>,
    answer: Option<Seq<u8>>,
)
    requires
        match outcome {
            Ok(bytes) => bytes@.len() == 0,
            Err(error) => error.kind == ErrorKind::ConnectionReset,
        },
    ensures
        connection.received(outcome, answer).0 == connection,
        connection.received(outcome, answer).1 == Step::Finish(TaskStatus::Complete),
{
}

/// Any other read error is reported as it came.
pub proof fn other_read_error_is_reported(
    connection: ConnectionState,
    error: IoError,
    answer: Option<Seq<u8>>,
)
    requires
        error.kind != ErrorKind::WouldBlock,
        error.kind != ErrorKind::ConnectionReset,
    ensures
        connection.received(Err(error), answer).0 == connection,
        connection.received(Err(error), answer).1 == Step::Ask(Phase::Report(error)),
{
}

/// The answer to a request that was read is written from its first byte, all of it; an empty one
/// needs no write; a refusal ends the connection. What the connection held before does not matter.
pub proof fn answer_is_written_from_its_first_byte(
    connection: ConnectionState,
    request: Vec<u8>,
    answer: Option<Seq<u8>>,
)
    requires
        request@.len() > 0,
    ensures
        connection.received(Ok(request), answer) == connection.answered(answer),
        connection.answered(answer).0.fd == connection.fd,
        connection.answered(answer).0.written == 0,
        answer is None ==> {
            &&& connection.answered(answer).1 == Step::Finish(TaskStatus::Complete)
            &&& connection.answered(answer).0.response is None
        },
        answer matches Some(response) ==> if response.len() > 0 {
            &&& connection.answered(answer).1 == Step::Ask(Phase::Write)
            &&& connection.answered(answer).0.response == Some(response)
        } else {
            &&& connection.answered(answer).1 == Step::Ask(Phase::Rearm(Interest::Read))
            &&& connection.answered(answer).0.response is None
        },
{
}

/// A write that took some bytes moves on by that many, and by no more; once the response is
/// written the connection holds nothing of it and waits for its socket to be readable.
pub proof fn write_moves_on_by_what_it_took(
    connection: ConnectionState,
    response: Seq<u8>,
    count: usize,
)
    requires
        connection.response == Some(response),
        count > 0,
    ensures
        connection.wrote(Ok(count)).0.fd == connection.fd,
        connection.written + count < response.len() ==> {
            &&& connection.wrote(Ok(count)).1 == Step::Ask(Phase::Write)
            &&& connection.wrote(Ok(count)).0.response == Some(response)
            &&& connection.wrote(Ok(count)).0.written == connection.written + count
        },
        connection.written + count >= response.len() ==> {
            &&& connection.wrote(Ok(count)).1 == Step::Ask(Phase::Rearm(Interest::Read))
            &&& connection.wrote(Ok(count)).0.response is None
            &&& connection.wrote(Ok(count)).0.written == 0
        },
{
}

/// A write that took nothing, or would block whatever the number of the error, changes nothing:
/// the connection waits for its socket to be readable or writable. Any other error ends it.
pub proof fn blocked_write_waits_for_room(
    connection: ConnectionState,
    outcome: Result<usize, IoError>,
)
    ensures
        outcome matches Ok(count) ==> (count == 0 ==> {
            &&& connection.wrote(outcome).0 == connection
            &&& connection.wrote(outcome).1 == Step::Ask(Phase::Rearm(Interest::ReadWrite))
        }),
        outcome matches Err(error) ==> {
            &&& connection.wrote(outcome).0 == connection
            &&& error.kind == ErrorKind::WouldBlock ==> connection.wrote(outcome).1 == Step::Ask(
                Phase::Rearm(Interest::ReadWrite),
            )
            &&& error.kind != ErrorKind::WouldBlock ==> connection.wrote(outcome).1
                == Step::Finish(TaskStatus::Complete)
        },
{
}

/// A count of bytes written without a response is only added up.
pub proof fn write_without_response_is_counted(connection: ConnectionState, count: usize)
    requires
        connection.response is None,
        count > 0,
    ensures
        connection.wrote(Ok(count)).0.fd == connection.fd,
        connection.wrote(Ok(count)).0.response is None,
        connection.wrote(Ok(count)).0.written == connection.written + count,
        connection.wrote(Ok(count)).1 == Step::Finish(TaskStatus::Pending),
{
}

/// A scheduled connection goes on with its response if it has one, and otherwise reads.
/// Flushing goes on with the response, lets go of one that is written, and rests without one.
pub proof fn scheduled_connection_goes_on(connection: ConnectionState)
    ensures
        connection.response is None ==> {
            &&& connection.handled().0 == connection
            &&& connection.handled().1 == Step::Ask(Phase::Read)
            &&& connection.flushed().0 == connection
            &&& connection.flushed().1 == Step::Finish(TaskStatus::Pending)
        },
        connection.response matches Some(response) ==> {
            &&& connection.handled() == connection.flushed()
            &&& connection.written < response.len() ==> {
                &&& connection.flushed().0 == connection
                &&& connection.flushed().1 == Step::Ask(Phase::Write)
            }
            &&& connection.written >= response.len() ==> {
                &&& connection.flushed().0.fd == connection.fd
                &&& connection.flushed().0.response is None
                &&& connection.flushed().0.written == 0
                &&& connection.flushed().1 == Step::Ask(Phase::Rearm(Interest::Read))
            }
        },
{
}

/// A rearmed task rests; a reactor call that fails is passed on as it came, and nothing else is.
pub proof fn reactor_calls_must_succeed(result: Result<(), IoError>, next: Phase)
    ensures
        result is Ok ==> {
            &&& rearmed(result) == Step::Finish(TaskStatus::Pending)
            &&& required(result, next) == Step::Ask(next)
        },
        result matches Err(error) ==> {
            &&& rearmed(result) == Step::Fail(error)
            &&& required(result, next) == Step::Fail(error)
        },
{
}

/// An accepted client is made non-blocking; an accept that would block, whatever the number of
/// the error, waits for the listening socket; any other error takes it out of the reactor. A
/// client whose option cannot be set is dropped, whatever the error.
pub proof fn accepted_client_is_set_up(
    outcome: Result<RawFd, IoError>,
    fd: RawFd,
    result: Result<(), IoError>,
    next: Phase,
)
    ensures
        outcome matches Ok(client) ==> accepted(outcome) == Step::Ask(
            Phase::SetNonblocking(client),
        ),
        outcome matches Err(error) ==> if error.kind == ErrorKind::WouldBlock {
            accepted(outcome) == Step::Ask(Phase::Rearm(Interest::Read))
        } else {
            accepted(outcome) == Step::Ask(Phase::Unregister(error))
        },
        result is Ok ==> configured(fd, result, next) == Step::Ask(next),
        result is Err ==> configured(fd, result, next) == Step::Ask(Phase::Discard(fd)),
{
}

/// The accept task never changes. It accepts, sets the client up in three calls, and accepts
/// again; a dropped client lets it go on; a broken listening socket is removed, reported, and
/// then the task ends.
pub proof fn accept_task_steps(
    listener: RawFd,
    phase: Phase,
    reply: Reply,
    answer: Option<Seq<u8>>,
)
    ensures
        ({
            let task = TaskState::Acceptor(listener);
            let (after, step) = task.resumed(phase, reply, answer);
            &&& after == task
            &&& task.handled().0 == task
            &&& task.handled().1 == Step::Ask(Phase::Accept)
            &&& phase is Accept && reply is Accepted ==> match reply->Accepted_0 {
                Ok(client) => step == Step::Ask(Phase::SetNonblocking(client)),
                Err(error) => if error.kind == ErrorKind::WouldBlock {
                    step == Step::Ask(Phase::Rearm(Interest::Read))
                } else {
                    step == Step::Ask(Phase::Unregister(error))
                },
            }
            &&& phase matches Phase::SetNonblocking(client) ==> (reply matches Reply::Done(result)
                ==> if result is Ok {
                step == Step::Ask(Phase::SetNodelay(client))
            } else {
                step == Step::Ask(Phase::Discard(client))
            })
            &&& phase matches Phase::SetNodelay(client) ==> (reply matches Reply::Done(result)
                ==> if result is Ok {
                step == Step::Ask(Phase::Register(client))
            } else {
                step == Step::Ask(Phase::Discard(client))
            })
            &&& phase is Register ==> (reply matches Reply::Done(result) ==> match result {
                Ok(_) => step == Step::Ask(Phase::Accept),
                Err(error) => step == Step::Fail(error),
            })
            &&& phase is Discard ==> step == Step::Ask(Phase::Accept)
            &&& phase matches Phase::Unregister(error) ==> step == Step::Ask(
                Phase::Report(error),
            )
            &&& phase is Rearm ==> (reply matches Reply::Done(result) ==> match result {
                Ok(_) => step == Step::Finish(TaskStatus::Pending),
                Err(error) => step == Step::Fail(error),
            })
            &&& phase is Report ==> step == Step::Finish(TaskStatus::Complete)
        }),
{
}

/// A connection task steps as its connection does on a read and on a write; it rests unchanged
/// once rearmed, and ends unchanged once its error is reported.
pub proof fn connection_task_steps(
    connection: ConnectionState,
    phase: Phase,
    reply: Reply,
    answer: Option<Seq<u8>>,
)
    ensures
        ({
            let task = TaskState::Connection(connection);
            let (after, step) = task.resumed(phase, reply, answer);
            &&& task.handled().0 == TaskState::Connection(connection.handled().0)
            &&& task.handled().1 == connection.handled().1
            &&& phase is Read ==> (reply matches Reply::Received(outcome) ==> {
                &&& after == TaskState::Connection(connection.received(outcome, answer).0)
                &&& step == connection.received(outcome, answer).1
            })
            &&& phase is Write ==> (reply matches Reply::Wrote(outcome) ==> {
                &&& after == TaskState::Connection(connection.wrote(outcome).0)
                &&& step == connection.wrote(outcome).1
            })
            &&& phase is Rearm ==> after == task && (reply matches Reply::Done(result)
                ==> match result {
                Ok(_) => step == Step::Finish(TaskStatus::Pending),
                Err(error) => step == Step::Fail(error),
            })
            &&& phase is Report ==> after == task && step == Step::Finish(TaskStatus::Complete)
        }),
{
}

/// A task's own socket is the listening socket, or the socket of the connection.
pub proof fn task_owns_one_socket(listener: RawFd, connection: ConnectionState)
    ensures
        TaskState::Acceptor(listener).fd() == listener,
        TaskState::Connection(connection).fd() == connection.fd,
        TaskState::Acceptor(listener).wf(),
        TaskState::Connection(connection).wf() == connection.wf(),
{
}

/// The accept task waits in the phases of accepting, for descriptors only; a connection task
/// waits for a read without a response, for a write with one, and to be rearmed or reported
/// either way.
pub proof fn tasks_wait_in_their_phases(
    listener: RawFd,
    connection: ConnectionState,
    fd: RawFd,
    error: IoError,
)
    ensures
        ({
            let task = TaskState::Acceptor(listener);
            &&& task.may_be_in(Phase::Accept)
            &&& task.may_be_in(Phase::SetNonblocking(fd)) <==> fd >= 0
            &&& task.may_be_in(Phase::SetNodelay(fd)) <==> fd >= 0
            &&& task.may_be_in(Phase::Register(fd)) <==> fd >= 0
            &&& task.may_be_in(Phase::Discard(fd)) <==> fd >= 0
            &&& task.may_be_in(Phase::Unregister(error))
            &&& task.may_be_in(Phase::Rearm(Interest::Read))
            &&& !task.may_be_in(Phase::Rearm(Interest::ReadWrite))
            &&& task.may_be_in(Phase::Report(error))
            &&& !task.may_be_in(Phase::Read)
            &&& !task.may_be_in(Phase::Write)
        }),
        ({
            let task = TaskState::Connection(connection);
            &&& task.may_be_in(Phase::Read) <==> connection.response is None
            &&& task.may_be_in(Phase::Write) <==> connection.response is Some
            &&& task.may_be_in(Phase::Rearm(Interest::Read))
            &&& task.may_be_in(Phase::Rearm(Interest::ReadWrite))
            &&& task.may_be_in(Phase::Report(error))
            &&& !task.may_be_in(Phase::Accept)
            &&& !task.may_be_in(Phase::SetNonblocking(fd))
            &&& !task.may_be_in(Phase::SetNodelay(fd))
            &&& !task.may_be_in(Phase::Register(fd))
            &&& !task.may_be_in(Phase::Discard(fd))
            &&& !task.may_be_in(Phase::Unregister(error))
        }),
{
}

/// Every outcome of the call that a task waits for is expected, but for an accepted socket that
/// is no descriptor and for more bytes written than can be counted; an outcome of another sort of
/// call is not.
pub proof fn every_outcome_of_the_call_is_expected(task: TaskState, phase: Phase, reply: Reply)
    ensures
        phase is Accept ==> (task.expects(phase, reply) <==> reply is Accepted && (
        reply->Accepted_0 matches Ok(fd) ==> fd >= 0)),
        phase is Read ==> (task.expects(phase, reply) <==> reply is Received),
        phase is Write ==> (task matches TaskState::Connection(connection) ==> (task.expects(
            phase,
            reply,
        ) <==> reply is Wrote && (reply->Wrote_0 matches Ok(count) ==> connection.written + count
            <= usize::MAX))),
        !(phase is Accept) && !(phase is Read) && !(phase is Write) ==> (task.expects(
            phase,
            reply,
        ) <==> reply is Done),
{
}

/// A client is registered exactly if the call that was to register it succeeded.
pub proof fn only_a_successful_call_registers(phase: Phase, reply: Reply, fd: RawFd)
    ensures
        registered(phase, reply) == Some(fd) <==> {
            &&& phase == Phase::Register(fd)
            &&& reply is Done
            &&& reply->Done_0 is Ok
        },
{
}

/// Storage has at least as many slots as before and as are asked for, and no more than the larger
/// of the two.
pub proof fn slots_are_never_fewer(left: nat, right: nat)
    ensures
        larger(left, right) >= left,
        larger(left, right) >= right,
        larger(left, right) == left || larger(left, right) == right,
{
}

/// A task is made of what it is converted from, and a task and an entry are seen as what they
/// hold.
pub proof fn task_is_what_it_holds<P>(
    acceptor: Acceptor<P>,
    connection: Connection<P>,
    entry: TaskEntry<P>,
)
    ensures
        <Task<P> as FromSpec<Acceptor<P>>>::from_spec(acceptor) == Task::Acceptor(acceptor),
        <Task<P> as FromSpec<Connection<P>>>::from_spec(connection) == Task::Connection(
            connection,
        ),
        Task::Acceptor(acceptor)@ == TaskState::Acceptor(acceptor@),
        Task::Connection(connection)@ == TaskState::Connection(connection@),
        entry@ == (EntryState { fd: entry.fd, task: entry.task@ }),
{
}

} // verus!
