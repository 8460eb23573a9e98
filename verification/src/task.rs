//! Task queue and storage types.

use std::collections::VecDeque;

use vstd::prelude::*;

use crate::acceptor::{accepted, configured, required, Acceptor};
use crate::connection::{may_follow, rearmed, Connection, ConnectionState};
use crate::io::{IoError, RawFd, Reply};
use crate::protocol::Protocol;
use crate::step::{Phase, Step};

verus! {

/// Queue of file descriptors ready to be processed.
pub type ReadyQueue = VecDeque<RawFd>;

/// A stored task and its associated file descriptor.
pub struct TaskEntry<P> {
    /// File descriptor used to look up the task.
    pub fd: RawFd,
    /// Task implementation.
    pub task: Task<P>,
}

/// Storage for scheduled tasks.
///
/// Its view maps each occupied slot to the entry there. A task is inserted into, and taken from,
/// the slot that has the number of its descriptor.
pub struct TaskStorage<P> {
    /// Sparse task slots.
    entries: Vec<Option<TaskEntry<P>>>,
}

impl<P> View for TaskStorage<P> {
    type V = Map<int, TaskEntry<P>>;

    closed spec fn view(&self) -> Map<int, TaskEntry<P>> {
        Map::new(
            |slot: int| 0 <= slot < self.entries@.len() && self.entries@[slot] is Some,
            |slot: int| self.entries@[slot]->0,
        )
    }
}

/// The larger of two numbers of slots.
pub open spec fn larger(left: nat, right: nat) -> nat {
    if left < right {
        right
    } else {
        left
    }
}

impl<P> TaskStorage<P> {
    /// Number of slots, occupied or not.
    pub closed spec fn slots(&self) -> nat {
        self.entries@.len()
    }

    /// Every occupied slot is one of the slots that there are.
    pub proof fn occupied_slots_exist(&self)
        ensures
            forall|slot: int| #[trigger] self@.contains_key(slot) ==> 0 <= slot < self.slots(),
    {
    }

    /// Creates task storage with an initial capacity.
    pub fn with_capacity(capacity: usize) -> (storage: Self)
        ensures
            storage@ == Map::<int, TaskEntry<P>>::empty(),
            storage.slots() == capacity,
    {
        let mut storage = TaskStorage { entries: Vec::with_capacity(capacity) };
        storage.grow(capacity);
        assert(storage@ =~= Map::<int, TaskEntry<P>>::empty());
        storage
    }

    /// Adds empty slots until there are at least `slots`.
    fn grow(&mut self, slots: usize)
        ensures
            final(self)@ == old(self)@,
            final(self).slots() == larger(old(self).slots(), slots as nat),
    {
        while self.entries.len() < slots
            invariant
                self@ =~= old(self)@,
                old(self).slots() <= self.slots(),
                self.slots() <= larger(old(self).slots(), slots as nat),
            decreases slots - self.entries@.len(),
        {
            self.entries.push(None);
        }
    }

    /// Inserts a new task for `fd`.
    pub fn insert(&mut self, fd: RawFd, task: Task<P>)
        requires
            fd >= 0,
        ensures
            final(self)@ == old(self)@.insert(fd as int, TaskEntry { fd, task }),
            final(self).slots() == larger(old(self).slots(), (fd + 1) as nat),
    {
        let index: usize = fd as usize;

        self.grow(index + 1);
        self.entries[index] = Some(TaskEntry { fd, task });
        assert(self@ =~= old(self)@.insert(fd as int, TaskEntry { fd, task }));
    }

    /// Takes the task registered for `fd`, leaving its slot empty.
    pub fn take(&mut self, fd: RawFd) -> (taken: Option<(usize, TaskEntry<P>)>)
        ensures
            match taken {
                Some((index, entry)) => {
                    &&& index == fd
                    &&& index < old(self).slots()
                    &&& old(self)@.contains_key(fd as int)
                    &&& entry == old(self)@[fd as int]
                },
                None => !old(self)@.contains_key(fd as int),
            },
            final(self)@ == old(self)@.remove(fd as int),
            final(self).slots() == old(self).slots(),
    {
        assert(!old(self)@.contains_key(fd as int) ==> old(self)@.remove(fd as int)
            =~= old(self)@);
        if fd < 0 {
            return None;
        }
        let index: usize = fd as usize;
        if index >= self.entries.len() {
            return None;
        }
        let entry = self.entries[index].take();
        assert(self@ =~= old(self)@.remove(fd as int));
        match entry {
            Some(entry) => Some((index, entry)),
            None => None,
        }
    }

    /// Replaces a previously taken task at `index`.
    pub fn put(&mut self, index: usize, entry: TaskEntry<P>)
        requires
            index < old(self).slots(),
        ensures
            final(self)@ == old(self)@.insert(index as int, entry),
            final(self).slots() == old(self).slots(),
    {
        self.entries[index] = Some(entry);
        assert(self@ =~= old(self)@.insert(index as int, entry));
    }

    /// Removes a previously taken task slot.
    pub fn remove(&mut self, index: usize)
        requires
            index < old(self).slots(),
        ensures
            final(self)@ == old(self)@.remove(index as int),
            final(self).slots() == old(self).slots(),
    {
        self.entries[index] = None;
        assert(self@ =~= old(self)@.remove(index as int));
    }
}

/// Result of advancing a task.
#[derive(Clone, Copy, PartialEq, Eq, Structural, Debug)]
pub enum TaskStatus {
    /// Keep the task in storage.
    Pending,
    /// Drop the task from storage.
    Complete,
}

impl TaskStatus {
    /// Returns true when the task should stay scheduled.
    pub fn is_pending(&self) -> (pending: bool)
        ensures
            pending == (*self is Pending),
    {
        matches!(self, Self::Pending)
    }
}

/// Tagged task storage for statically dispatched task variants.
pub enum Task<P> {
    /// Accept loop task bound to the listening socket.
    Acceptor(Acceptor<P>),
    /// Per-connection read/write task.
    Connection(Connection<P>),
}

/// What a task remembers between calls.
#[verifier::ext_equal]
pub enum TaskState {
    /// The accept task, with the listening socket.
    Acceptor(RawFd),
    /// A connection task.
    Connection(ConnectionState),
}

impl<P> View for Task<P> {
    type V = TaskState;

    open spec fn view(&self) -> TaskState {
        match *self {
            Task::Acceptor(acceptor) => TaskState::Acceptor(acceptor@),
            Task::Connection(connection) => TaskState::Connection(connection@),
        }
    }
}

/// What an entry remembers between calls.
#[verifier::ext_equal]
pub struct EntryState {
    /// File descriptor used to look up the task.
    pub fd: RawFd,
    /// The task.
    pub task: TaskState,
}

/// The entry of a connection that has just been accepted on `fd`.
pub open spec fn fresh_entry(fd: RawFd) -> EntryState {
    EntryState { fd, task: TaskState::Connection(ConnectionState::idle(fd)) }
}

impl<P> View for TaskEntry<P> {
    type V = EntryState;

    open spec fn view(&self) -> EntryState {
        EntryState { fd: self.fd, task: self.task@ }
    }
}

impl<P> From<Acceptor<P>> for Task<P> {
    fn from(acceptor: Acceptor<P>) -> (task: Self) {
        Self::Acceptor(acceptor)
    }
}

impl<P> vstd::std_specs::convert::FromSpecImpl<Acceptor<P>> for Task<P> {
    open spec fn obeys_from_spec() -> bool {
        true
    }

    open spec fn from_spec(acceptor: Acceptor<P>) -> Self {
        Task::Acceptor(acceptor)
    }
}

impl<P> From<Connection<P>> for Task<P> {
    fn from(connection: Connection<P>) -> (task: Self) {
        Self::Connection(connection)
    }
}

impl<P> vstd::std_specs::convert::FromSpecImpl<Connection<P>> for Task<P> {
    open spec fn obeys_from_spec() -> bool {
        true
    }

    open spec fn from_spec(connection: Connection<P>) -> Self {
        Task::Connection(connection)
    }
}

impl TaskState {
    /// The task's own socket.
    pub open spec fn fd(self) -> RawFd {
        match self {
            TaskState::Acceptor(listener) => listener,
            TaskState::Connection(connection) => connection.fd,
        }
    }

    /// What holds of a task whenever it waits or rests.
    pub open spec fn wf(self) -> bool {
        match self {
            TaskState::Acceptor(_) => true,
            TaskState::Connection(connection) => connection.wf(),
        }
    }

    /// Whether the task can be waiting in `phase`.
    pub open spec fn may_be_in(self, phase: Phase) -> bool {
        match self {
            TaskState::Acceptor(_) => match phase {
                Phase::Accept => true,
                Phase::SetNonblocking(fd) => fd >= 0,
                Phase::SetNodelay(fd) => fd >= 0,
                Phase::Register(fd) => fd >= 0,
                Phase::Discard(fd) => fd >= 0,
                Phase::Unregister(_) => true,
                Phase::Rearm(interest) => interest is Read,
                Phase::Report(_) => true,
                _ => false,
            },
            TaskState::Connection(connection) => match phase {
                Phase::Read => connection.response is None,
                Phase::Write => connection.response is Some,
                Phase::Rearm(_) => true,
                Phase::Report(_) => true,
                _ => false,
            },
        }
    }

    /// Whether `reply` can be the outcome of the call that `phase` waits for: it is of the right
    /// sort, an accepted socket is a descriptor, and the number of bytes written can be counted.
    pub open spec fn expects(self, phase: Phase, reply: Reply) -> bool {
        match phase {
            Phase::Accept => match reply {
                Reply::Accepted(Ok(fd)) => fd >= 0,
                Reply::Accepted(Err(_)) => true,
                _ => false,
            },
            Phase::Read => reply is Received,
            Phase::Write => match reply {
                Reply::Wrote(Ok(count)) => self->Connection_0.written + count <= usize::MAX,
                Reply::Wrote(Err(_)) => true,
                _ => false,
            },
            _ => reply is Done,
        }
    }

    /// Being scheduled.
    pub open spec fn handled(self) -> (Self, Step) {
        match self {
            TaskState::Acceptor(_) => (self, Step::Ask(Phase::Accept)),
            TaskState::Connection(connection) => {
                let (connection, step) = connection.handled();
                (TaskState::Connection(connection), step)
            },
        }
    }

    /// Getting the outcome of the call that `phase` waited for, where `answer` is the protocol's
    /// answer to the bytes read, if any were.
    pub open spec fn resumed(self, phase: Phase, reply: Reply, answer: Option<Seq<u8>>) -> (
        Self,
        Step,
    ) {
        match self {
            TaskState::Acceptor(_) => (
                self,
                match phase {
                    Phase::Accept => accepted(reply->Accepted_0),
                    Phase::SetNonblocking(fd) => configured(
                        fd,
                        reply->Done_0,
                        Phase::SetNodelay(fd),
                    ),
                    Phase::SetNodelay(fd) => configured(fd, reply->Done_0, Phase::Register(fd)),
                    Phase::Register(_) => required(reply->Done_0, Phase::Accept),
                    Phase::Discard(_) => Step::Ask(Phase::Accept),
                    Phase::Unregister(error) => Step::Ask(Phase::Report(error)),
                    Phase::Rearm(_) => rearmed(reply->Done_0),
                    _ => Step::Finish(TaskStatus::Complete),
                },
            ),
            TaskState::Connection(connection) => {
                let (connection, step) = match phase {
                    Phase::Read => connection.received(reply->Received_0, answer),
                    Phase::Write => connection.wrote(reply->Wrote_0),
                    Phase::Rearm(_) => (connection, rearmed(reply->Done_0)),
                    _ => (connection, Step::Finish(TaskStatus::Complete)),
                };
                (TaskState::Connection(connection), step)
            },
        }
    }
}

/// The socket that `reply` shows to have been registered, if `phase` waited for that.
pub open spec fn registered(phase: Phase, reply: Reply) -> Option<RawFd> {
    match phase {
        Phase::Register(fd) => match reply {
            Reply::Done(Ok(_)) => Some(fd),
            _ => None,
        },
        _ => None,
    }
}

/// Whether `answer` may be the protocol's answer to the bytes that `reply` brought, if any.
pub open spec fn may_answer_reply<P: Protocol>(reply: Reply, answer: Option<Seq<u8>>) -> bool {
    match reply {
        Reply::Received(outcome) => may_follow::<P>(outcome, answer),
        _ => true,
    }
}

impl<P> Task<P> {
    /// The task's own socket.
    pub fn fd(&self) -> (fd: RawFd)
        ensures
            fd == self@.fd(),
    {
        match self {
            Self::Acceptor(acceptor) => acceptor.fd(),
            Self::Connection(connection) => connection.fd(),
        }
    }
}

impl<P> Task<P> where P: Protocol {
    /// Whether `reply` can be the outcome of the call that `phase` waits for.
    pub fn expects(&self, phase: Phase, reply: &Reply) -> (expected: bool)
        requires
            self@.may_be_in(phase),
        ensures
            expected == self@.expects(phase, *reply),
    {
        match phase {
            Phase::Accept => match reply {
                Reply::Accepted(Ok(fd)) => *fd >= 0,
                Reply::Accepted(Err(_)) => true,
                _ => false,
            },
            Phase::Read => matches!(reply, Reply::Received(_)),
            Phase::Write => match (self, reply) {
                (Task::Connection(connection), Reply::Wrote(Ok(count))) => *count <= usize::MAX
                    - connection.written(),
                (_, Reply::Wrote(Err(_))) => true,
                _ => false,
            },
            _ => matches!(reply, Reply::Done(_)),
        }
    }

    /// Advances the task up to its first call.
    pub fn handle(&mut self) -> (step: Step)
        ensures
            (final(self)@, step) == old(self)@.handled(),
    {
        match self {
            Self::Acceptor(acceptor) => acceptor.handle(),
            Self::Connection(connection) => connection.handle(),
        }
    }

    /// Advances the task from one call to the next. An accepted client that is registered gets a
    /// task of its own.
    pub fn resume(
        &mut self,
        phase: Phase,
        reply: Reply,
        ready: &mut ReadyQueue,
        tasks: &mut TaskStorage<P>,
    ) -> (step: Step)
        requires
            old(self)@.may_be_in(phase),
            old(self)@.expects(phase, reply),
        ensures
            exists|answer: Option<Seq<u8>>|
                {
                    &&& may_answer_reply::<P>(reply, answer)
                    &&& (final(self)@, step) == #[trigger] old(self)@.resumed(phase, reply, answer)
                },
            match registered(phase, reply) {
                Some(fd) => {
                    &&& final(ready)@ == old(ready)@.push(fd)
                    &&& final(tasks).slots() == larger(old(tasks).slots(), (fd + 1) as nat)
                    &&& final(tasks)@[fd as int]@ == fresh_entry(fd)
                    &&& final(tasks)@ == old(tasks)@.insert(fd as int, final(tasks)@[fd as int])
                },
                None => {
                    &&& final(ready)@ == old(ready)@
                    &&& final(tasks)@ == old(tasks)@
                    &&& final(tasks).slots() == old(tasks).slots()
                },
            },
    {
        let ghost mut answer: Option<Seq<u8>> = None;
        let step = match self {
            Self::Acceptor(acceptor) => match (phase, reply) {
                (Phase::Accept, Reply::Accepted(outcome)) => acceptor.on_accept(outcome),
                (Phase::SetNonblocking(fd), Reply::Done(result)) => acceptor.on_nonblocking(
                    fd,
                    result,
                ),
                (Phase::SetNodelay(fd), Reply::Done(result)) => acceptor.on_nodelay(fd, result),
                (Phase::Register(fd), Reply::Done(result)) => acceptor.on_register(
                    fd,
                    result,
                    ready,
                    tasks,
                ),
                (Phase::Discard(_), _) => Step::Ask(Phase::Accept),
                (Phase::Unregister(error), _) => Step::Ask(Phase::Report(error)),
                (Phase::Rearm(_), Reply::Done(result)) => rest(result),
                _ => Step::Finish(TaskStatus::Complete),
            },
            Self::Connection(connection) => match (phase, reply) {
                (Phase::Read, Reply::Received(outcome)) => {
                    let ghost before = connection@;
                    let step = connection.on_read(outcome);
                    proof {
                        answer = choose|answer: Option<Seq<u8>>|
                            {
                                &&& may_follow::<P>(outcome, answer)
                                &&& (connection@, step) == #[trigger] before.received(
                                    outcome,
                                    answer,
                                )
                            };
                    }
                    step
                },
                (Phase::Write, Reply::Wrote(outcome)) => connection.on_write(outcome),
                (Phase::Rearm(_), Reply::Done(result)) => rest(result),
                _ => Step::Finish(TaskStatus::Complete),
            },
        };
        assert((self@, step) == old(self)@.resumed(phase, reply, answer));
        step
    }
}

/// The step after rearming a task's own socket.
fn rest(result: Result<(), IoError>) -> (step: Step)
    ensures
        step == rearmed(result),
{
    match result {
        Ok(_) => Step::Finish(TaskStatus::Pending),
        Err(error) => Step::Fail(error),
    }
}

} // verus!
