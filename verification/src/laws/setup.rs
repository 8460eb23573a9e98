//! The set-up calls and what each outcome of one leads to, in full.

use vstd::prelude::*;

use crate::io::{IoError, RawFd};
use crate::reactor::{Control, EpollEvent};
use crate::server::{Server, ServerConfig};
use crate::startup::{at_least_one, Setup, SetupCall, SetupStage, SetupState};
use crate::startup::{MaskChange, Startup, StartupState};
use crate::task::TaskState;

verus! {

/// The call of each stage of the set-up. Both registrations are one-shot, for readable events,
/// with the descriptor itself as user data.
pub proof fn calls_of_the_stages(
    config: ServerConfig,
    listener: RawFd,
    epfd: RawFd,
    shutdown_fd: RawFd,
)
    ensures
        ({
            let call = |stage: SetupStage| (StartupState { config, stage }).call();
            &&& call(SetupStage::Listen) == (SetupCall::Listen { addr: config.addr })
            &&& call(SetupStage::Unblock { listener }) == (SetupCall::SetNonblocking {
                fd: listener,
            })
            &&& call(SetupStage::CreateEpoll { listener }) == (SetupCall::CreateEpoll {
                close_on_exec: true,
            })
            &&& call(SetupStage::EmptySet { listener, epfd }) == SetupCall::EmptySignalSet
            &&& call(SetupStage::AddSignal { listener, epfd }) == (SetupCall::AddSignal {
                signal: 2,
            })
            &&& call(SetupStage::BlockSignals { listener, epfd }) == (SetupCall::ChangeMask {
                how: MaskChange::Block,
            })
            &&& call(SetupStage::CreateSignalFd { listener, epfd })
                == (SetupCall::CreateSignalFd { nonblocking: true, close_on_exec: true })
            &&& call(SetupStage::Register { listener, epfd, shutdown_fd })
                == (SetupCall::Control {
                call: Control {
                    epfd,
                    op: 1,
                    fd: shutdown_fd,
                    event: Some(EpollEvent { events: 0x4000_0001, data: shutdown_fd as u64 }),
                },
            })
            &&& call(SetupStage::RegisterListener { listener, epfd, shutdown_fd })
                == (SetupCall::Control {
                call: Control {
                    epfd,
                    op: 1,
                    fd: listener,
                    event: Some(EpollEvent { events: 0x4000_0001, data: listener as u64 }),
                },
            })
        }),
{
}

/// A call that succeeds leads to the next stage, with the configuration and the descriptors so
/// far; those that create a descriptor add the one they returned, and the value of the others
/// does not matter.
pub proof fn stages_follow_one_another(
    config: ServerConfig,
    listener: RawFd,
    epfd: RawFd,
    shutdown_fd: RawFd,
    value: i32,
)
    ensures
        ({
            let after = |stage: SetupStage| (StartupState { config, stage }).resumed(Ok(value));
            let at = |stage: SetupStage| SetupState::Continue(StartupState { config, stage });
            &&& after(SetupStage::Listen) == at(SetupStage::Unblock { listener: value })
            &&& after(SetupStage::Unblock { listener }) == at(SetupStage::CreateEpoll { listener })
            &&& after(SetupStage::CreateEpoll { listener }) == at(
                SetupStage::EmptySet { listener, epfd: value },
            )
            &&& after(SetupStage::EmptySet { listener, epfd }) == at(
                SetupStage::AddSignal { listener, epfd },
            )
            &&& after(SetupStage::AddSignal { listener, epfd }) == at(
                SetupStage::BlockSignals { listener, epfd },
            )
            &&& after(SetupStage::BlockSignals { listener, epfd }) == at(
                SetupStage::CreateSignalFd { listener, epfd },
            )
            &&& after(SetupStage::CreateSignalFd { listener, epfd }) == at(
                SetupStage::Register { listener, epfd, shutdown_fd: value },
            )
            &&& after(SetupStage::Register { listener, epfd, shutdown_fd }) == at(
                SetupStage::RegisterListener { listener, epfd, shutdown_fd },
            )
        }),
{
}

/// The last call makes a server over the descriptors that the calls returned: its accept task is
/// queued and stored, it takes the configured number of events per wait, or one where none is
/// configured, and it has room for as many tasks as configured.
pub proof fn last_call_makes_the_server(
    config: ServerConfig,
    listener: RawFd,
    epfd: RawFd,
    shutdown_fd: RawFd,
    value: i32,
    slot: int,
)
    requires
        listener >= 0,
    ensures
        ({
            let setup = (StartupState {
                config,
                stage: SetupStage::RegisterListener { listener, epfd, shutdown_fd },
            }).resumed(Ok(value));
            let server = setup->Ready_0;
            &&& setup is Ready
            &&& server.reactor.epfd == epfd
            &&& server.reactor.shutdown_fd == shutdown_fd
            &&& config.event_capacity == 0 ==> server.reactor.event_capacity == 1
            &&& config.event_capacity > 0 ==> server.reactor.event_capacity
                == config.event_capacity
            &&& server.ready == seq![listener]
            &&& server.tasks.contains_key(slot) <==> slot == listener
            &&& server.tasks[listener as int].fd == listener
            &&& server.tasks[listener as int].task == TaskState::Acceptor(listener)
            &&& server.slots >= config.task_capacity
            &&& server.slots > listener
            &&& server.slots == config.task_capacity || server.slots == listener + 1
            &&& server.stage is Idle
        }),
{
}

/// A call that fails ends the set-up with its error. Before there is a signalfd only the
/// listening socket is closed, and nothing if there is none; after that the signalfd, the epoll
/// instance and the listening socket are closed, in this order.
pub proof fn failed_call_closes_what_is_owned(
    config: ServerConfig,
    listener: RawFd,
    epfd: RawFd,
    shutdown_fd: RawFd,
    error: IoError,
)
    ensures
        ({
            let after = |stage: SetupStage| (StartupState { config, stage }).resumed(Err(error));
            let failed = |close: Seq<RawFd>| SetupState::Failed { error, close };
            &&& after(SetupStage::Listen) == failed(Seq::empty())
            &&& after(SetupStage::Unblock { listener }) == failed(seq![listener])
            &&& after(SetupStage::CreateEpoll { listener }) == failed(seq![listener])
            &&& after(SetupStage::EmptySet { listener, epfd }) == failed(seq![listener])
            &&& after(SetupStage::AddSignal { listener, epfd }) == failed(seq![listener])
            &&& after(SetupStage::BlockSignals { listener, epfd }) == failed(seq![listener])
            &&& after(SetupStage::CreateSignalFd { listener, epfd }) == failed(seq![listener])
            &&& after(SetupStage::Register { listener, epfd, shutdown_fd }) == failed(
                seq![shutdown_fd, epfd, listener],
            )
            &&& after(SetupStage::RegisterListener { listener, epfd, shutdown_fd }) == failed(
                seq![shutdown_fd, epfd, listener],
            )
        }),
{
}

/// Every error is expected of every call, and every value too, but that what is to be a
/// descriptor is not negative.
pub proof fn every_set_up_outcome_is_expected(
    config: ServerConfig,
    stage: SetupStage,
    reply: Result<i32, IoError>,
)
    ensures
        (StartupState { config, stage }).expects(reply) <==> {
            ||| reply is Err
            ||| reply->Ok_0 >= 0
            ||| !(stage is Listen) && !(stage is CreateEpoll) && !(stage is CreateSignalFd)
        },
{
}

/// The reactor of a set-up takes the configured number of events per wait, and at least one.
pub proof fn reactor_takes_at_least_one_event(
    config: ServerConfig,
    stage: SetupStage,
    epfd: RawFd,
    shutdown_fd: RawFd,
)
    ensures
        ({
            let reactor = (StartupState { config, stage }).reactor(epfd, shutdown_fd);
            &&& reactor.epfd == epfd
            &&& reactor.shutdown_fd == shutdown_fd
            &&& reactor.event_capacity == at_least_one(config.event_capacity)
            &&& reactor.event_capacity >= 1
            &&& config.event_capacity >= 1 ==> reactor.event_capacity == config.event_capacity
            &&& config.event_capacity == 0 ==> reactor.event_capacity == 1
        }),
{
}

/// What follows a set-up call is seen as what it holds.
pub proof fn setup_is_what_it_holds<P>(
    startup: Startup<P>,
    server: Server<P>,
    error: IoError,
    close: Vec<RawFd>,
)
    ensures
        Setup::Continue(startup)@ == SetupState::Continue(startup@),
        Setup::Ready(server)@ == SetupState::Ready(server@),
        (Setup::<P>::Failed { error, close })@ == (SetupState::Failed { error, close: close@ }),
{
}

} // verus!
