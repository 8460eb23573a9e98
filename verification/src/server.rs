//! Server construction and event loop.

use vstd::prelude::*;

use crate::acceptor::Acceptor;
use crate::connection::READ_BUFFER_LEN;
use crate::io::{IoError, Origin, RawFd, Reply, Request};
use crate::protocol::Protocol;
use crate::reactor::{Reactor, Wait};
use crate::startup::{SetupStage, Startup, StartupState};
use crate::step::{Interest, Phase, Step};
use crate::task::{fresh_entry, larger, may_answer_reply, registered};
use crate::task::{EntryState, ReadyQueue, Task, TaskEntry, TaskState, TaskStatus, TaskStorage};

verus! {

/// An IPv4 address and a port.
#[derive(Clone, Copy, PartialEq, Eq, Debug)]
pub struct SocketAddrV4 {
    /// The four parts of the address, most significant first.
    pub octets: [u8; 4],
    /// The port.
    pub port: u16,
}

/// Runtime configuration for the server.
#[derive(Clone, Copy, PartialEq, Eq, Debug)]
pub struct ServerConfig {
    /// Address the listener binds to.
    pub addr: SocketAddrV4,
    /// Initial capacity for ready and stored tasks.
    pub task_capacity: usize,
    /// Number of epoll events read per wait.
    pub event_capacity: usize,
}

impl Default for ServerConfig {
    fn default() -> (config: Self)
        ensures
            config.addr.octets@ == seq![0u8, 0u8, 0u8, 0u8],
            config.addr.port == 1337,
            config.task_capacity == 1024,
            config.event_capacity == 1024,
    {
        ServerConfig {
            addr: SocketAddrV4 { octets: [0, 0, 0, 0], port: 1337 },
            task_capacity: 1024,
            event_capacity: 1024,
        }
    }
}

/// Single-threaded TCP server specialized for protocol `P`.
pub struct Server<P> {
    /// Reactor used to receive readiness events.
    reactor: Reactor,
    /// File descriptors ready to run.
    ready: ReadyQueue,
    /// Task storage keyed by file descriptor.
    tasks: TaskStorage<P>,
    /// The call that the server waits for.
    stage: Stage<P>,
}

/// Where in the event loop a server is.
enum Stage<P> {
    /// Not started.
    Idle,
    /// Waiting for readiness events.
    Polling,
    /// Driving the task taken from a slot, which waits for a call.
    Driving(usize, TaskEntry<P>, Phase),
    /// Closing the socket of a task that has ended.
    Closing(RawFd),
    /// The event loop has ended.
    Stopped,
}

/// Where in the event loop a server is.
#[verifier::ext_equal]
pub enum StageState {
    /// Not started.
    Idle,
    /// Waiting for readiness events.
    Polling,
    /// Driving the task taken from slot `index`, which waits for the call of `phase`.
    Driving {
        /// The slot.
        index: int,
        /// The task taken from it.
        entry: EntryState,
        /// What the task waits for.
        phase: Phase,
    },
    /// Closing the socket of a task that has ended.
    Closing {
        /// The socket.
        fd: RawFd,
    },
    /// The event loop has ended.
    Stopped,
}

/// What a server remembers between calls.
#[verifier::ext_equal]
pub struct ServerState {
    /// The reactor.
    pub reactor: Reactor,
    /// Descriptors ready to run, first come first.
    pub ready: Seq<RawFd>,
    /// The stored tasks, by slot.
    pub tasks: Map<int, EntryState>,
    /// Number of slots.
    pub slots: nat,
    /// Where in the event loop the server is.
    pub stage: StageState,
}

/// `ready` from the first descriptor on that has a stored task.
pub open spec fn skip_unknown(ready: Seq<RawFd>, tasks: Map<int, EntryState>) -> Seq<RawFd>
    decreases ready.len(),
{
    if ready.len() == 0 || tasks.contains_key(ready[0] as int) {
        ready
    } else {
        skip_unknown(ready.skip(1), tasks)
    }
}

/// The call that `task` waits for in `phase`.
pub open spec fn request_of(
    reactor: Reactor,
    task: TaskState,
    phase: Phase,
    nodelay: bool,
) -> Request {
    match phase {
        Phase::Accept => Request::Accept { listener: task.fd() },
        Phase::SetNonblocking(fd) => Request::SetNonblocking { fd },
        Phase::SetNodelay(fd) => Request::SetNodelay { fd, nodelay },
        Phase::Register(fd) => Request::Control { call: reactor.adding_read(fd) },
        Phase::Discard(fd) => Request::Close { fd },
        Phase::Unregister(_) => Request::Control { call: reactor.unregistering(task.fd()) },
        Phase::Read => Request::Read { fd: task.fd(), len: READ_BUFFER_LEN },
        Phase::Write => Request::Write { fd: task.fd() },
        Phase::Rearm(Interest::Read) => Request::Control {
            call: reactor.modifying_read(task.fd()),
        },
        Phase::Rearm(Interest::ReadWrite) => Request::Control {
            call: reactor.modifying_read_write(task.fd()),
        },
        Phase::Report(error) => Request::Report {
            origin: match task {
                TaskState::Acceptor(_) => Origin::Acceptor,
                TaskState::Connection(_) => Origin::Handler,
            },
            error,
        },
    }
}

/// An entry stands in the slot that has the number of its task's socket.
pub open spec fn in_place(slot: int, entry: EntryState) -> bool {
    &&& entry.fd == slot
    &&& entry.task.fd() == slot
    &&& entry.task.wf()
}

impl ServerState {
    /// The reactor is well formed, tasks are stored in, and taken from, the slots of their
    /// sockets, and a running task waits for a call that it can be waiting for.
    pub open spec fn wf(self) -> bool {
        &&& self.reactor.wf()
        &&& forall|slot: int| #[trigger]
            self.tasks.contains_key(slot) ==> {
                &&& 0 <= slot < self.slots
                &&& in_place(slot, self.tasks[slot])
            }
        &&& match self.stage {
            StageState::Driving { index, entry, phase } => {
                &&& 0 <= index < self.slots
                &&& in_place(index, entry)
                &&& entry.task.may_be_in(phase)
            },
            _ => true,
        }
    }

    /// A server that has not started: the listening socket is the only descriptor queued, and
    /// its accept task the only task stored.
    pub open spec fn initial(reactor: Reactor, listener: RawFd, task_capacity: nat) -> Self {
        ServerState {
            reactor,
            ready: seq![listener],
            tasks: Map::empty().insert(
                listener as int,
                EntryState { fd: listener, task: TaskState::Acceptor(listener) },
            ),
            slots: larger(task_capacity, (listener + 1) as nat),
            stage: StageState::Idle,
        }
    }

    /// Whether `reply` can be the outcome of the call that the server waits for.
    pub open spec fn expects(self, reply: Reply) -> bool {
        match self.stage {
            StageState::Polling => reply is Polled,
            StageState::Driving { index, entry, phase } => entry.task.expects(phase, reply),
            StageState::Closing { .. } => reply is Done,
            _ => false,
        }
    }

    /// The bytes that a write is to take from.
    pub open spec fn outgoing(self) -> Seq<u8> {
        match self.stage {
            StageState::Driving { index, entry, phase } => match entry.task {
                TaskState::Connection(connection) => connection.outgoing(),
                TaskState::Acceptor(_) => Seq::empty(),
            },
            _ => Seq::empty(),
        }
    }

    /// The call that the server waits for, if it waits for one.
    pub open spec fn asked(self, nodelay: bool) -> Option<Request> {
        match self.stage {
            StageState::Polling => Some(
                Request::Poll {
                    epfd: self.reactor.epfd,
                    max_events: self.reactor.event_capacity as i32,
                },
            ),
            StageState::Driving { index, entry, phase } => Some(
                request_of(self.reactor, entry.task, phase, nodelay),
            ),
            StageState::Closing { fd } => Some(Request::Close { fd }),
            _ => None,
        }
    }

    /// The end of the event loop.
    pub open spec fn stopped(self, result: Result<(), IoError>) -> (Self, Request) {
        (ServerState { stage: StageState::Stopped, ..self }, Request::Exit { result })
    }

    /// A step of the task taken from slot `index`: it waits for a call, or it is stored again,
    /// or its slot stays empty and its socket is closed, or the event loop ends.
    pub open spec fn driven(self, index: int, entry: EntryState, step: Step, nodelay: bool) -> (
        Self,
        Option<Request>,
    ) {
        match step {
            Step::Ask(phase) => (
                ServerState { stage: StageState::Driving { index, entry, phase }, ..self },
                Some(request_of(self.reactor, entry.task, phase, nodelay)),
            ),
            Step::Finish(TaskStatus::Pending) => (
                ServerState {
                    tasks: self.tasks.insert(index, entry),
                    stage: StageState::Idle,
                    ..self
                },
                None,
            ),
            Step::Finish(TaskStatus::Complete) => (
                ServerState {
                    tasks: self.tasks.remove(index),
                    stage: StageState::Closing { fd: entry.fd },
                    ..self
                },
                Some(Request::Close { fd: entry.fd }),
            ),
            Step::Fail(error) => {
                let (state, request) = self.stopped(Err(error));
                (state, Some(request))
            },
        }
    }

    /// Choosing what to run: the task of the first ready descriptor that has one, or else a wait
    /// for readiness events.
    pub open spec fn scheduled(self, nodelay: bool) -> (Self, Request) {
        let ready = skip_unknown(self.ready, self.tasks);
        if ready.len() == 0 {
            (
                ServerState { ready, stage: StageState::Polling, ..self },
                Request::Poll {
                    epfd: self.reactor.epfd,
                    max_events: self.reactor.event_capacity as i32,
                },
            )
        } else {
            let index = ready[0] as int;
            let entry = self.tasks[index];
            let (task, step) = entry.task.handled();
            let (state, request) = (ServerState {
                ready: ready.skip(1),
                tasks: self.tasks.remove(index),
                ..self
            }).driven(index, EntryState { task, ..entry }, step, nodelay);
            (state, request->0)
        }
    }

    /// Queueing and storing the task of a client that was registered, if one was.
    pub open spec fn admitting(self, client: Option<RawFd>) -> Self {
        match client {
            Some(fd) => ServerState {
                ready: self.ready.push(fd),
                tasks: self.tasks.insert(fd as int, fresh_entry(fd)),
                slots: larger(self.slots, (fd + 1) as nat),
                ..self
            },
            None => self,
        }
    }

    /// Getting the outcome of the call that the server waited for, where `answer` is the
    /// protocol's answer to the bytes read, if any were.
    pub open spec fn resumed(self, reply: Reply, answer: Option<Seq<u8>>, nodelay: bool) -> (
        Self,
        Request,
    ) {
        match self.stage {
            StageState::Polling => {
                let (ready, result) = self.reactor.waited(self.ready, reply->Polled_0);
                let state = ServerState { ready, ..self };
                match result {
                    Ok(Wait::Ready) => state.scheduled(nodelay),
                    Ok(Wait::Shutdown) => state.stopped(Ok(())),
                    Err(error) => state.stopped(Err(error)),
                }
            },
            StageState::Driving { index, entry, phase } => {
                let (task, step) = entry.task.resumed(phase, reply, answer);
                let (state, request) = self.admitting(registered(phase, reply)).driven(
                    index,
                    EntryState { task, ..entry },
                    step,
                    nodelay,
                );
                match request {
                    Some(request) => (state, request),
                    None => state.scheduled(nodelay),
                }
            },
            _ => self.scheduled(nodelay),
        }
    }
}

impl<P> View for Server<P> {
    type V = ServerState;

    closed spec fn view(&self) -> ServerState {
        ServerState {
            reactor: self.reactor,
            ready: self.ready@,
            tasks: self.tasks@.map_values(|entry: TaskEntry<P>| entry@),
            slots: self.tasks.slots(),
            stage: match self.stage {
                Stage::Idle => StageState::Idle,
                Stage::Polling => StageState::Polling,
                Stage::Driving(index, entry, phase) => StageState::Driving {
                    index: index as int,
                    entry: entry@,
                    phase,
                },
                Stage::Closing(fd) => StageState::Closing { fd },
                Stage::Stopped => StageState::Stopped,
            },
        }
    }
}

/// A step of a well-formed task leaves it well formed and able to wait for the call it asks for.
proof fn lemma_task_step(task: TaskState, phase: Phase, reply: Reply, answer: Option<Seq<u8>>)
    requires
        task.wf(),
        task.may_be_in(phase),
        task.expects(phase, reply),
    ensures
        ({
            let (after, step) = task.resumed(phase, reply, answer);
            &&& after.fd() == task.fd()
            &&& after.wf()
            &&& step matches Step::Ask(next) ==> after.may_be_in(next)
        }),
{
}

/// Being scheduled, a well-formed task asks for a call that it can be waiting for.
proof fn lemma_task_start(task: TaskState)
    requires
        task.wf(),
    ensures
        ({
            let (after, step) = task.handled();
            &&& after.fd() == task.fd()
            &&& after.wf()
            &&& step is Ask
            &&& after.may_be_in(step->Ask_0)
        }),
{
}

/// [`skip_unknown`] leaves nothing if no queued descriptor has a task, and otherwise begins with
/// one that has.
pub proof fn skipping_stops_at_a_task(ready: Seq<RawFd>, tasks: Map<int, EntryState>)
    ensures
        skip_unknown(ready, tasks).len() == 0 <==> (forall|i: int|
            0 <= i < ready.len() ==> !tasks.contains_key(#[trigger] ready[i] as int)),
        skip_unknown(ready, tasks).len() > 0 ==> tasks.contains_key(
            skip_unknown(ready, tasks)[0] as int,
        ),
    decreases ready.len(),
{
    if ready.len() > 0 && !tasks.contains_key(ready[0] as int) {
        skipping_stops_at_a_task(ready.skip(1), tasks);
        if skip_unknown(ready, tasks).len() == 0 {
            assert forall|i: int| 0 <= i < ready.len() implies !tasks.contains_key(
                #[trigger] ready[i] as int,
            ) by {
                if i > 0 {
                    assert(ready[i] == ready.skip(1)[i - 1]);
                }
            }
        } else {
            let i = choose|i: int|
                0 <= i < ready.skip(1).len() && tasks.contains_key(
                    #[trigger] ready.skip(1)[i] as int,
                );
            assert(tasks.contains_key(ready[i + 1] as int));
        }
    }
}

/// Choosing what to run keeps the server well formed.
pub proof fn scheduling_keeps_wf(state: ServerState, nodelay: bool)
    requires
        state.wf(),
    ensures
        state.scheduled(nodelay).0.wf(),
{
    skipping_stops_at_a_task(state.ready, state.tasks);
    let ready = skip_unknown(state.ready, state.tasks);
    if ready.len() > 0 {
        lemma_task_start(state.tasks[ready[0] as int].task);
    }
}

/// Every outcome of every call keeps the server well formed.
pub proof fn resuming_keeps_wf(
    state: ServerState,
    reply: Reply,
    answer: Option<Seq<u8>>,
    nodelay: bool,
)
    requires
        state.wf(),
        state.expects(reply),
    ensures
        state.resumed(reply, answer, nodelay).0.wf(),
{
    match state.stage {
        StageState::Polling => {
            let (ready, _) = state.reactor.waited(state.ready, reply->Polled_0);
            scheduling_keeps_wf(ServerState { ready, ..state }, nodelay);
        },
        StageState::Driving { index, entry, phase } => {
            lemma_task_step(entry.task, phase, reply, answer);
            let (task, step) = entry.task.resumed(phase, reply, answer);
            let (next, request) = state.admitting(registered(phase, reply)).driven(
                index,
                EntryState { task, ..entry },
                step,
                nodelay,
            );
            if request is None {
                scheduling_keeps_wf(next, nodelay);
            }
        },
        _ => {
            scheduling_keeps_wf(state, nodelay);
        },
    }
}

impl<P> Server<P> where P: Protocol {
    /// Whether `reply` can be the outcome of the call that the server waits for.
    pub fn expects(&self, reply: &Reply) -> (expected: bool)
        requires
            self@.wf(),
        ensures
            expected == self@.expects(*reply),
    {
        match &self.stage {
            Stage::Polling => matches!(reply, Reply::Polled(_)),
            Stage::Driving(_, entry, phase) => entry.task.expects(*phase, reply),
            Stage::Closing(_) => matches!(reply, Reply::Done(_)),
            _ => false,
        }
    }

    /// The bytes that a write is to take from: what is left of the response.
    pub fn outgoing(&self) -> (bytes: &[u8])
        requires
            self@.wf(),
        ensures
            bytes@ == self@.outgoing(),
    {
        if let Stage::Driving(_, entry, _) = &self.stage {
            if let Task::Connection(connection) = &entry.task {
                return connection.outgoing();
            }
        }
        &[]
    }

    /// The call that `task` waits for in `phase`.
    fn request(&self, task: &Task<P>, phase: Phase) -> (request: Request)
        ensures
            request == request_of(self@.reactor, task@, phase, P::TCP_NODELAY),
    {
        match phase {
            Phase::Accept => Request::Accept { listener: task.fd() },
            Phase::SetNonblocking(fd) => Request::SetNonblocking { fd },
            Phase::SetNodelay(fd) => Request::SetNodelay { fd, nodelay: P::TCP_NODELAY },
            Phase::Register(fd) => Request::Control { call: self.reactor.add_read(fd) },
            Phase::Discard(fd) => Request::Close { fd },
            Phase::Unregister(_) => Request::Control { call: self.reactor.unregister(task.fd()) },
            Phase::Read => Request::Read { fd: task.fd(), len: READ_BUFFER_LEN },
            Phase::Write => Request::Write { fd: task.fd() },
            Phase::Rearm(Interest::Read) => Request::Control {
                call: self.reactor.modify_read(task.fd()),
            },
            Phase::Rearm(Interest::ReadWrite) => Request::Control {
                call: self.reactor.modify_read_write(task.fd()),
            },
            Phase::Report(error) => Request::Report {
                origin: match task {
                    Task::Acceptor(_) => Origin::Acceptor,
                    Task::Connection(_) => Origin::Handler,
                },
                error,
            },
        }
    }

    /// Ends the event loop.
    fn stop(&mut self, result: Result<(), IoError>) -> (request: Request)
        ensures
            (final(self)@, request) == old(self)@.stopped(result),
    {
        self.stage = Stage::Stopped;
        Request::Exit { result }
    }

    /// Takes one step of a task and stores the task again if it remains active.
    fn drive_task(&mut self, index: usize, entry: TaskEntry<P>, step: Step) -> (request: Option<
        Request,
    >)
        requires
            index < old(self)@.slots,
        ensures
            (final(self)@, request) == old(self)@.driven(
                index as int,
                entry@,
                step,
                P::TCP_NODELAY,
            ),
    {
        match step {
            Step::Ask(phase) => {
                let request = self.request(&entry.task, phase);
                self.stage = Stage::Driving(index, entry, phase);
                Some(request)
            },
            Step::Finish(status) => {
                if status.is_pending() {
                    self.tasks.put(index, entry);
                    self.stage = Stage::Idle;
                    assert(self@.tasks =~= old(self)@.tasks.insert(index as int, entry@));
                    None
                } else {
                    self.tasks.remove(index);
                    self.stage = Stage::Closing(entry.fd);
                    assert(self@.tasks =~= old(self)@.tasks.remove(index as int));
                    Some(Request::Close { fd: entry.fd })
                }
            },
            Step::Fail(error) => Some(self.stop(Err(error))),
        }
    }

    /// Runs the first ready task, or waits for readiness events if there is none.
    fn schedule(&mut self) -> (request: Request)
        requires
            old(self)@.wf(),
        ensures
            (final(self)@, request) == old(self)@.scheduled(P::TCP_NODELAY),
            final(self)@.wf(),
    {
        proof {
            scheduling_keeps_wf(self@, P::TCP_NODELAY);
        }
        loop
            invariant
                self@.wf(),
                self@.scheduled(P::TCP_NODELAY) == old(self)@.scheduled(P::TCP_NODELAY),
                old(self)@.scheduled(P::TCP_NODELAY).0.wf(),
            decreases self.ready@.len(),
        {
            let ghost before = self@;
            match self.ready.pop_front() {
                None => {
                    self.stage = Stage::Polling;
                    return Request::Poll {
                        epfd: self.reactor.epfd,
                        max_events: self.reactor.max_events(),
                    };
                },
                Some(fd) => {
                    assert(self@.ready =~= before.ready.skip(1));
                    if let Some((index, entry)) = self.tasks.take(fd) {
                        let mut entry = entry;
                        proof {
                            assert(self@.tasks =~= before.tasks.remove(fd as int));
                            assert(before.tasks[fd as int] == entry@);
                            lemma_task_start(entry.task@);
                        }
                        let step = entry.task.handle();
                        if let Some(request) = self.drive_task(index, entry, step) {
                            return request;
                        }
                    } else {
                        assert(self@ =~= (ServerState { ready: before.ready.skip(1), ..before }));
                    }
                },
            }
        }
    }

    /// Begins the set-up calls that bind the listening socket and create a server runtime.
    pub fn bind(config: ServerConfig) -> (startup: Startup<P>)
        ensures
            startup@ == (StartupState { config, stage: SetupStage::Listen }),
            startup@.wf(),
    {
        Startup::new(config)
    }

    /// A server that will run the accept task of `listener` first.
    pub fn new(reactor: Reactor, listener: RawFd, task_capacity: usize) -> (server: Self)
        requires
            reactor.wf(),
            listener >= 0,
        ensures
            server@ == ServerState::initial(reactor, listener, task_capacity as nat),
            server@.wf(),
    {
        let mut ready = ReadyQueue::with_capacity(task_capacity);
        let mut tasks = TaskStorage::<P>::with_capacity(task_capacity);

        ready.push_back(listener);
        tasks.insert(listener, Task::from(Acceptor::<P>::new(listener)));

        let server = Server { reactor, ready, tasks, stage: Stage::Idle };
        assert(server@ =~= ServerState::initial(reactor, listener, task_capacity as nat));
        server
    }

    /// Starts the event loop, which goes on until a shutdown signal or unrecoverable reactor
    /// error.
    pub fn run(&mut self) -> (request: Request)
        requires
            old(self)@.wf(),
            old(self)@.stage is Idle,
        ensures
            (final(self)@, request) == old(self)@.scheduled(P::TCP_NODELAY),
            final(self)@.wf(),
    {
        self.schedule()
    }

    /// Goes on with the event loop, given the outcome of the call last asked for.
    pub fn resume(&mut self, reply: Reply) -> (request: Request)
        requires
            old(self)@.wf(),
            old(self)@.expects(reply),
        ensures
            exists|answer: Option<Seq<u8>>|
                {
                    &&& may_answer_reply::<P>(reply, answer)
                    &&& (final(self)@, request) == #[trigger] old(self)@.resumed(
                        reply,
                        answer,
                        P::TCP_NODELAY,
                    )
                },
            final(self)@.wf(),
    {
        let mut stage: Stage<P> = Stage::Stopped;
        std::mem::swap(&mut self.stage, &mut stage);
        let ghost mut answer: Option<Seq<u8>> = None;
        let request = match stage {
            Stage::Polling => match reply {
                Reply::Polled(polled) => match self.reactor.wait(polled, &mut self.ready) {
                    Ok(Wait::Ready) => self.schedule(),
                    Ok(Wait::Shutdown) => self.stop(Ok(())),
                    Err(error) => self.stop(Err(error)),
                },
                _ => vstd::pervasive::unreached(),
            },
            Stage::Driving(index, entry, phase) => {
                let mut entry = entry;
                let ghost before = entry@.task;
                let step = entry.task.resume(phase, reply, &mut self.ready, &mut self.tasks);
                proof {
                    answer = choose|answer: Option<Seq<u8>>|
                        {
                            &&& may_answer_reply::<P>(reply, answer)
                            &&& (entry.task@, step) == #[trigger] before.resumed(
                                phase,
                                reply,
                                answer,
                            )
                        };
                    lemma_task_step(before, phase, reply, answer);
                    let admitted = old(self)@.admitting(registered(phase, reply));
                    assert(self@.tasks =~= admitted.tasks);
                    assert(self@ =~= (ServerState { stage: StageState::Stopped, ..admitted }));
                }
                match self.drive_task(index, entry, step) {
                    Some(request) => request,
                    None => self.schedule(),
                }
            },
            Stage::Closing(_) => self.schedule(),
            _ => vstd::pervasive::unreached(),
        };
        proof {
            assert((self@, request) == old(self)@.resumed(reply, answer, P::TCP_NODELAY));
            resuming_keeps_wf(old(self)@, reply, answer, P::TCP_NODELAY);
        }
        request
    }

    /// Gives up the server, and with it the descriptors of its reactor, in the order in which
    /// they are to be closed.
    pub fn release(self) -> (fds: Vec<RawFd>)
        ensures
            fds@ == seq![self@.reactor.shutdown_fd, self@.reactor.epfd],
    {
        self.reactor.into_fds()
    }
}

} // verus!
