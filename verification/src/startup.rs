//! The calls that set a server up.

use std::marker::PhantomData;

use vstd::prelude::*;

use crate::io::{IoError, RawFd};
use crate::protocol::Protocol;
use crate::reactor::{Control, Reactor};
use crate::server::{Server, ServerConfig, ServerState, SocketAddrV4};

verus! {

/// How far the set-up of a server has come: the call it waits for, and what earlier calls gave.
#[derive(Clone, Copy, PartialEq, Eq, Structural, Debug)]
pub enum SetupStage {
    /// Creating the listening socket.
    Listen,
    /// Making the listening socket non-blocking.
    Unblock {
        /// The listening socket.
        listener: RawFd,
    },
    /// Creating the epoll instance.
    CreateEpoll {
        /// The listening socket.
        listener: RawFd,
    },
    /// Emptying the signal set.
    EmptySet {
        /// The listening socket.
        listener: RawFd,
        /// The epoll instance.
        epfd: RawFd,
    },
    /// Adding the shutdown signal to the signal set.
    AddSignal {
        /// The listening socket.
        listener: RawFd,
        /// The epoll instance.
        epfd: RawFd,
    },
    /// Adding the signals of the set to the signal mask.
    BlockSignals {
        /// The listening socket.
        listener: RawFd,
        /// The epoll instance.
        epfd: RawFd,
    },
    /// Creating the signalfd.
    CreateSignalFd {
        /// The listening socket.
        listener: RawFd,
        /// The epoll instance.
        epfd: RawFd,
    },
    /// Registering the signalfd with the epoll instance.
    Register {
        /// The listening socket.
        listener: RawFd,
        /// The epoll instance.
        epfd: RawFd,
        /// The signalfd.
        shutdown_fd: RawFd,
    },
    /// Registering the listening socket with the epoll instance.
    RegisterListener {
        /// The listening socket.
        listener: RawFd,
        /// The epoll instance.
        epfd: RawFd,
        /// The signalfd.
        shutdown_fd: RawFd,
    },
}

/// How a set of signals changes the signal mask of the process.
#[derive(Clone, Copy, PartialEq, Eq, Structural, Debug)]
pub enum MaskChange {
    /// The signals are added to the mask.
    Block,
    /// The signals are taken out of the mask.
    Unblock,
    /// The signals become the mask.
    Replace,
}

/// A set-up call.
#[derive(Clone, Copy, PartialEq, Eq, Debug)]
pub enum SetupCall {
    /// Bind a listening TCP socket; returns it.
    Listen {
        /// The address to bind to.
        addr: SocketAddrV4,
    },
    /// Make a socket non-blocking.
    SetNonblocking {
        /// The socket.
        fd: RawFd,
    },
    /// Create an epoll instance; returns it.
    CreateEpoll {
        /// Whether it is closed on exec.
        close_on_exec: bool,
    },
    /// Empty the signal set.
    EmptySignalSet,
    /// Add a signal to the signal set.
    AddSignal {
        /// The signal.
        signal: i32,
    },
    /// Change the signal mask of the process by the signal set.
    ChangeMask {
        /// In which way.
        how: MaskChange,
    },
    /// Create a new signalfd for the signal set; returns it.
    CreateSignalFd {
        /// Whether reads from it do not block.
        nonblocking: bool,
        /// Whether it is closed on exec.
        close_on_exec: bool,
    },
    /// Change the epoll interest list.
    Control {
        /// The arguments of the call.
        call: Control,
    },
}

/// A server being set up.
pub struct Startup<P> {
    /// The configuration.
    config: ServerConfig,
    /// How far the set-up has come.
    stage: SetupStage,
    /// Protocol marker for static specialization.
    protocol: PhantomData<P>,
}

/// What a server being set up remembers between calls.
pub struct StartupState {
    /// The configuration.
    pub config: ServerConfig,
    /// How far the set-up has come.
    pub stage: SetupStage,
}

/// What follows a set-up call.
pub enum Setup<P> {
    /// Another call.
    Continue(Startup<P>),
    /// The server can run.
    Ready(Server<P>),
    /// The call failed.
    Failed {
        /// How it failed.
        error: IoError,
        /// The descriptors to close, in order.
        close: Vec<RawFd>,
    },
}

/// What follows a set-up call.
#[verifier::ext_equal]
pub enum SetupState {
    /// Another call.
    Continue(StartupState),
    /// The server can run.
    Ready(ServerState),
    /// The call failed.
    Failed {
        /// How it failed.
        error: IoError,
        /// The descriptors to close, in order.
        close: Seq<RawFd>,
    },
}

impl<P> View for Startup<P> {
    type V = StartupState;

    closed spec fn view(&self) -> StartupState {
        StartupState { config: self.config, stage: self.stage }
    }
}

impl<P> View for Setup<P> {
    type V = SetupState;

    open spec fn view(&self) -> SetupState {
        match *self {
            Setup::Continue(startup) => SetupState::Continue(startup@),
            Setup::Ready(server) => SetupState::Ready(server@),
            Setup::Failed { error, close } => SetupState::Failed { error, close: close@ },
        }
    }
}

/// The value of `libc::SIGINT`, which is 2 wherever libc defines it.
#[verifier::external_body]
fn sigint() -> (signal: i32)
    ensures
        signal == 2,
{
    libc::SIGINT
}

/// The number of events that a reactor configured for `event_capacity` takes per wait.
pub open spec fn at_least_one(event_capacity: usize) -> usize {
    if event_capacity == 0 {
        1
    } else {
        event_capacity
    }
}

impl SetupStage {
    /// The listening socket, once there is one.
    pub open spec fn listener(self) -> Option<RawFd> {
        match self {
            SetupStage::Listen => None,
            SetupStage::Unblock { listener } => Some(listener),
            SetupStage::CreateEpoll { listener } => Some(listener),
            SetupStage::EmptySet { listener, .. } => Some(listener),
            SetupStage::AddSignal { listener, .. } => Some(listener),
            SetupStage::BlockSignals { listener, .. } => Some(listener),
            SetupStage::CreateSignalFd { listener, .. } => Some(listener),
            SetupStage::Register { listener, .. } => Some(listener),
            SetupStage::RegisterListener { listener, .. } => Some(listener),
        }
    }

    /// The epoll instance, once there is one.
    pub open spec fn epfd(self) -> Option<RawFd> {
        match self {
            SetupStage::Listen => None,
            SetupStage::Unblock { .. } => None,
            SetupStage::CreateEpoll { .. } => None,
            SetupStage::EmptySet { epfd, .. } => Some(epfd),
            SetupStage::AddSignal { epfd, .. } => Some(epfd),
            SetupStage::BlockSignals { epfd, .. } => Some(epfd),
            SetupStage::CreateSignalFd { epfd, .. } => Some(epfd),
            SetupStage::Register { epfd, .. } => Some(epfd),
            SetupStage::RegisterListener { epfd, .. } => Some(epfd),
        }
    }

    /// The signalfd, once there is one.
    pub open spec fn shutdown_fd(self) -> Option<RawFd> {
        match self {
            SetupStage::Register { shutdown_fd, .. } => Some(shutdown_fd),
            SetupStage::RegisterListener { shutdown_fd, .. } => Some(shutdown_fd),
            _ => None,
        }
    }

    /// Whether the call of this stage returns a descriptor.
    pub open spec fn gives_descriptor(self) -> bool {
        self is Listen || self is CreateEpoll || self is CreateSignalFd
    }

    /// The descriptors to close if the call of this stage fails. The epoll instance is among them
    /// only once a reactor owns it together with the signalfd.
    pub open spec fn owned(self) -> Seq<RawFd> {
        match self {
            SetupStage::Listen => seq![],
            SetupStage::Register { listener, epfd, shutdown_fd } => seq![
                shutdown_fd,
                epfd,
                listener,
            ],
            SetupStage::RegisterListener { listener, epfd, shutdown_fd } => seq![
                shutdown_fd,
                epfd,
                listener,
            ],
            _ => seq![self.listener()->0],
        }
    }
}

impl StartupState {
    /// What earlier calls gave are descriptors.
    pub open spec fn wf(self) -> bool {
        &&& self.stage.listener() matches Some(listener) ==> listener >= 0
        &&& self.stage.epfd() matches Some(epfd) ==> epfd >= 0
        &&& self.stage.shutdown_fd() matches Some(shutdown_fd) ==> shutdown_fd >= 0
    }

    /// Whether `reply` can be the outcome of the call of this stage: where a descriptor is to be
    /// returned, one is.
    pub open spec fn expects(self, reply: Result<i32, IoError>) -> bool {
        match reply {
            Ok(value) => self.stage.gives_descriptor() ==> value >= 0,
            Err(_) => true,
        }
    }

    /// The reactor over an epoll instance and a signalfd.
    pub open spec fn reactor(self, epfd: RawFd, shutdown_fd: RawFd) -> Reactor {
        Reactor {
            epfd,
            shutdown_fd,
            event_capacity: at_least_one(self.config.event_capacity),
        }
    }

    /// The call that this stage waits for.
    pub open spec fn call(self) -> SetupCall {
        match self.stage {
            SetupStage::Listen => SetupCall::Listen { addr: self.config.addr },
            SetupStage::Unblock { listener } => SetupCall::SetNonblocking { fd: listener },
            SetupStage::CreateEpoll { .. } => SetupCall::CreateEpoll { close_on_exec: true },
            SetupStage::EmptySet { .. } => SetupCall::EmptySignalSet,
            SetupStage::AddSignal { .. } => SetupCall::AddSignal { signal: 2 },
            SetupStage::BlockSignals { .. } => SetupCall::ChangeMask { how: MaskChange::Block },
            SetupStage::CreateSignalFd { .. } => SetupCall::CreateSignalFd {
                nonblocking: true,
                close_on_exec: true,
            },
            SetupStage::Register { epfd, shutdown_fd, .. } => SetupCall::Control {
                call: self.reactor(epfd, shutdown_fd).adding_read(shutdown_fd),
            },
            SetupStage::RegisterListener { listener, epfd, shutdown_fd } => SetupCall::Control {
                call: self.reactor(epfd, shutdown_fd).adding_read(listener),
            },
        }
    }

    /// Going on to another stage.
    pub open spec fn at(self, stage: SetupStage) -> SetupState {
        SetupState::Continue(StartupState { stage, ..self })
    }

    /// Getting the outcome of the call of this stage. Any failure ends the set-up.
    pub open spec fn resumed(self, reply: Result<i32, IoError>) -> SetupState {
        match reply {
            Err(error) => SetupState::Failed { error, close: self.stage.owned() },
            Ok(value) => match self.stage {
                SetupStage::Listen => self.at(SetupStage::Unblock { listener: value }),
                SetupStage::Unblock { listener } => self.at(SetupStage::CreateEpoll { listener }),
                SetupStage::CreateEpoll { listener } => self.at(
                    SetupStage::EmptySet { listener, epfd: value },
                ),
                SetupStage::EmptySet { listener, epfd } => self.at(
                    SetupStage::AddSignal { listener, epfd },
                ),
                SetupStage::AddSignal { listener, epfd } => self.at(
                    SetupStage::BlockSignals { listener, epfd },
                ),
                SetupStage::BlockSignals { listener, epfd } => self.at(
                    SetupStage::CreateSignalFd { listener, epfd },
                ),
                SetupStage::CreateSignalFd { listener, epfd } => self.at(
                    SetupStage::Register { listener, epfd, shutdown_fd: value },
                ),
                SetupStage::Register { listener, epfd, shutdown_fd } => self.at(
                    SetupStage::RegisterListener { listener, epfd, shutdown_fd },
                ),
                SetupStage::RegisterListener { listener, epfd, shutdown_fd } => SetupState::Ready(
                    ServerState::initial(
                        self.reactor(epfd, shutdown_fd),
                        listener,
                        self.config.task_capacity as nat,
                    ),
                ),
            },
        }
    }
}

impl<P> Startup<P> {
    /// The set-up of a server with `config`, before its first call.
    pub fn new(config: ServerConfig) -> (startup: Self)
        ensures
            startup@ == (StartupState { config, stage: SetupStage::Listen }),
            startup@.wf(),
    {
        Startup { config, stage: SetupStage::Listen, protocol: PhantomData }
    }

    /// The call that the set-up waits for.
    pub fn call(&self) -> (call: SetupCall)
        requires
            self@.wf(),
        ensures
            call == self@.call(),
    {
        match self.stage {
            SetupStage::Listen => SetupCall::Listen { addr: self.config.addr },
            SetupStage::Unblock { listener } => SetupCall::SetNonblocking { fd: listener },
            SetupStage::CreateEpoll { .. } => SetupCall::CreateEpoll { close_on_exec: true },
            SetupStage::EmptySet { .. } => SetupCall::EmptySignalSet,
            SetupStage::AddSignal { .. } => SetupCall::AddSignal { signal: sigint() },
            SetupStage::BlockSignals { .. } => SetupCall::ChangeMask { how: MaskChange::Block },
            SetupStage::CreateSignalFd { .. } => SetupCall::CreateSignalFd {
                nonblocking: true,
                close_on_exec: true,
            },
            SetupStage::Register { epfd, shutdown_fd, .. } => {
                let reactor = Reactor::new(epfd, shutdown_fd, self.config.event_capacity);
                SetupCall::Control { call: reactor.add_read(shutdown_fd) }
            },
            SetupStage::RegisterListener { listener, epfd, shutdown_fd } => {
                let reactor = Reactor::new(epfd, shutdown_fd, self.config.event_capacity);
                SetupCall::Control { call: reactor.add_read(listener) }
            },
        }
    }

    /// Whether `reply` can be the outcome of the call that the set-up waits for.
    pub fn expects(&self, reply: &Result<i32, IoError>) -> (expected: bool)
        ensures
            expected == self@.expects(*reply),
    {
        match (self.stage, reply) {
            (SetupStage::Listen, Ok(listener)) => *listener >= 0,
            (SetupStage::CreateEpoll { .. }, Ok(epfd)) => *epfd >= 0,
            (SetupStage::CreateSignalFd { .. }, Ok(shutdown_fd)) => *shutdown_fd >= 0,
            _ => true,
        }
    }

    /// The descriptors to close if the call that the set-up waits for fails.
    fn owned(&self) -> (fds: Vec<RawFd>)
        requires
            self@.wf(),
        ensures
            fds@ == self@.stage.owned(),
    {
        let mut fds: Vec<RawFd> = Vec::new();
        match self.stage {
            SetupStage::Listen => {},
            SetupStage::Unblock { listener } => fds.push(listener),
            SetupStage::CreateEpoll { listener } => fds.push(listener),
            SetupStage::EmptySet { listener, .. } => fds.push(listener),
            SetupStage::AddSignal { listener, .. } => fds.push(listener),
            SetupStage::BlockSignals { listener, .. } => fds.push(listener),
            SetupStage::CreateSignalFd { listener, .. } => fds.push(listener),
            SetupStage::Register { listener, epfd, shutdown_fd } => {
                let reactor = Reactor::new(epfd, shutdown_fd, self.config.event_capacity);
                fds = reactor.into_fds();
                fds.push(listener);
            },
            SetupStage::RegisterListener { listener, epfd, shutdown_fd } => {
                let reactor = Reactor::new(epfd, shutdown_fd, self.config.event_capacity);
                fds = reactor.into_fds();
                fds.push(listener);
            },
        }
        assert(fds@ =~= self@.stage.owned());
        fds
    }

    /// The same set-up at another stage.
    fn at(self, stage: SetupStage) -> (setup: Setup<P>)
        ensures
            setup@ == self@.at(stage),
            setup is Continue,
    {
        Setup::Continue(Startup { config: self.config, stage, protocol: PhantomData })
    }
}

impl<P> Startup<P> where P: Protocol {
    /// Goes on with the set-up, given what the call last asked for returned.
    pub fn resume(self, reply: Result<i32, IoError>) -> (setup: Setup<P>)
        requires
            self@.wf(),
            self@.expects(reply),
        ensures
            setup@ == self@.resumed(reply),
            match setup {
                Setup::Continue(startup) => startup@.wf(),
                Setup::Ready(server) => server@.wf(),
                Setup::Failed { .. } => true,
            },
    {
        match reply {
            Err(error) => {
                let close = self.owned();
                Setup::Failed { error, close }
            },
            Ok(value) => match self.stage {
                SetupStage::Listen => self.at(SetupStage::Unblock { listener: value }),
                SetupStage::Unblock { listener } => self.at(SetupStage::CreateEpoll { listener }),
                SetupStage::CreateEpoll { listener } => self.at(
                    SetupStage::EmptySet { listener, epfd: value },
                ),
                SetupStage::EmptySet { listener, epfd } => self.at(
                    SetupStage::AddSignal { listener, epfd },
                ),
                SetupStage::AddSignal { listener, epfd } => self.at(
                    SetupStage::BlockSignals { listener, epfd },
                ),
                SetupStage::BlockSignals { listener, epfd } => self.at(
                    SetupStage::CreateSignalFd { listener, epfd },
                ),
                SetupStage::CreateSignalFd { listener, epfd } => self.at(
                    SetupStage::Register { listener, epfd, shutdown_fd: value },
                ),
                SetupStage::Register { listener, epfd, shutdown_fd } => self.at(
                    SetupStage::RegisterListener { listener, epfd, shutdown_fd },
                ),
                SetupStage::RegisterListener { listener, epfd, shutdown_fd } => {
                    let reactor = Reactor::new(epfd, shutdown_fd, self.config.event_capacity);
                    Setup::Ready(Server::new(reactor, listener, self.config.task_capacity))
                },
            },
        }
    }
}

} // verus!
