//! Epoll-backed readiness reactor used by the server event loop.

use vstd::prelude::*;

use crate::io::{ErrorKind, IoError, RawFd};
use crate::task::ReadyQueue;

verus! {

/// One epoll event: what a descriptor is registered with, and what a wait hands back.
#[derive(Clone, Copy, PartialEq, Eq, Structural, Debug)]
pub struct EpollEvent {
    /// Readiness flags.
    pub events: u32,
    /// User data; it carries the file descriptor.
    pub data: u64,
}

/// The arguments of one `epoll_ctl` call.
#[derive(Clone, Copy, PartialEq, Eq, Debug)]
pub struct Control {
    /// The epoll instance.
    pub epfd: RawFd,
    /// The operation.
    pub op: i32,
    /// The descriptor it is about.
    pub fd: RawFd,
    /// The event to register, absent where the operation ignores it.
    pub event: Option<EpollEvent>,
}

/// Result of waiting for reactor events.
#[derive(Clone, Copy, PartialEq, Eq, Structural, Debug)]
pub enum Wait {
    /// One or more task file descriptors may have been queued.
    Ready,
    /// Shutdown was requested.
    Shutdown,
}

/// Coordinates readiness notifications for task-owned file descriptors.
pub struct Reactor {
    /// epoll instance used to wait for I/O readiness.
    pub epfd: RawFd,
    /// signalfd monitored to initiate graceful shutdown on `SIGINT`.
    pub shutdown_fd: RawFd,
    /// Number of events that one wait can take.
    pub event_capacity: usize,
}

/// The value of `libc::EPOLL_CTL_ADD`, which is 1 wherever libc defines it.
#[verifier::external_body]
fn ctl_add() -> (op: i32)
    ensures
        op == 1,
{
    libc::EPOLL_CTL_ADD
}

/// The value of `libc::EPOLL_CTL_DEL`, which is 2 wherever libc defines it.
#[verifier::external_body]
fn ctl_del() -> (op: i32)
    ensures
        op == 2,
{
    libc::EPOLL_CTL_DEL
}

/// The value of `libc::EPOLL_CTL_MOD`, which is 3 wherever libc defines it.
#[verifier::external_body]
fn ctl_mod() -> (op: i32)
    ensures
        op == 3,
{
    libc::EPOLL_CTL_MOD
}

/// The value of `libc::EPOLLIN`, which is 1 wherever libc defines it.
#[verifier::external_body]
fn epollin() -> (flag: i32)
    ensures
        flag == 1,
{
    libc::EPOLLIN
}

/// The value of `libc::EPOLLOUT`, which is 4 wherever libc defines it.
#[verifier::external_body]
fn epollout() -> (flag: i32)
    ensures
        flag == 4,
{
    libc::EPOLLOUT
}

/// The value of `libc::EPOLLONESHOT`, which is bit 30 wherever libc defines it.
#[verifier::external_body]
fn epolloneshot() -> (flag: i32)
    ensures
        flag == 0x4000_0000,
{
    libc::EPOLLONESHOT
}

/// Flags of a one-shot registration for readable events.
pub open spec fn read_once() -> u32 {
    0x4000_0001
}

/// Flags of a one-shot registration for readable and writable events.
pub open spec fn read_write_once() -> u32 {
    0x4000_0005
}

/// The user data that stands for `fd`.
pub open spec fn token(fd: RawFd) -> u64 {
    fd as u64
}

/// The descriptor that an event is about.
pub open spec fn fd_of(event: EpollEvent) -> RawFd {
    event.data as i32
}

/// The descriptors that `events` are about, in order.
pub open spec fn fds_of(events: Seq<EpollEvent>) -> Seq<RawFd> {
    events.map_values(|event: EpollEvent| fd_of(event))
}

/// Position of the first `stop` in `fds`, or their number if there is none.
pub open spec fn position(fds: Seq<RawFd>, stop: RawFd) -> int
    decreases fds.len(),
{
    if fds.len() == 0 || fds[0] == stop {
        0
    } else {
        1 + position(fds.skip(1), stop)
    }
}

/// [`position`] is the only place that has no `stop` before it and is the end or a `stop`.
proof fn lemma_position(fds: Seq<RawFd>, stop: RawFd, at: int)
    requires
        0 <= at <= fds.len(),
        forall|i: int| 0 <= i < at ==> fds[i] != stop,
        at < fds.len() ==> fds[at] == stop,
    ensures
        position(fds, stop) == at,
    decreases at,
{
    if at > 0 {
        lemma_position(fds.skip(1), stop, at - 1);
    }
}

impl Reactor {
    /// The reactor over an epoll instance and a shutdown descriptor; it takes at least one event
    /// per wait.
    pub fn new(epfd: RawFd, shutdown_fd: RawFd, event_capacity: usize) -> (reactor: Self)
        requires
            epfd >= 0,
            shutdown_fd >= 0,
        ensures
            reactor.wf(),
            reactor.epfd == epfd,
            reactor.shutdown_fd == shutdown_fd,
            reactor.event_capacity == if event_capacity == 0 {
                1
            } else {
                event_capacity
            },
    {
        let event_capacity: usize = if event_capacity < 1 {
            1
        } else {
            event_capacity
        };
        Reactor { epfd, shutdown_fd, event_capacity }
    }

    /// Both descriptors are descriptors, and a wait takes at least one event.
    pub open spec fn wf(self) -> bool {
        &&& self.epfd >= 0
        &&& self.shutdown_fd >= 0
        &&& self.event_capacity >= 1
    }

    /// The call that registers `fd` for readable events, once.
    pub open spec fn adding_read(self, fd: RawFd) -> Control {
        Control {
            epfd: self.epfd,
            op: 1,
            fd,
            event: Some(EpollEvent { events: read_once(), data: token(fd) }),
        }
    }

    /// The call that rearms `fd` for readable events, once.
    pub open spec fn modifying_read(self, fd: RawFd) -> Control {
        Control {
            epfd: self.epfd,
            op: 3,
            fd,
            event: Some(EpollEvent { events: read_once(), data: token(fd) }),
        }
    }

    /// The call that rearms `fd` for readable and writable events, once.
    pub open spec fn modifying_read_write(self, fd: RawFd) -> Control {
        Control {
            epfd: self.epfd,
            op: 3,
            fd,
            event: Some(EpollEvent { events: read_write_once(), data: token(fd) }),
        }
    }

    /// The call that removes `fd`.
    pub open spec fn unregistering(self, fd: RawFd) -> Control {
        Control { epfd: self.epfd, op: 2, fd, event: None }
    }

    /// What the ready queue and the result are once a wait has ended with `polled`.
    ///
    /// The descriptors of all events before the first one of the shutdown descriptor join the
    /// queue in order, and shutdown is reported if there is such an event. A wait that a signal
    /// interrupted counts as one without events; any other error is returned.
    pub open spec fn waited(
        self,
        ready: Seq<RawFd>,
        polled: Result<Vec<EpollEvent>, IoError>,
    ) -> (Seq<RawFd>, Result<Wait, IoError>) {
        match polled {
            Ok(events) => {
                let fds = fds_of(events@);
                let at = position(fds, self.shutdown_fd);
                (
                    ready + fds.take(at),
                    Ok(
                        if at < fds.len() {
                            Wait::Shutdown
                        } else {
                            Wait::Ready
                        },
                    ),
                )
            },
            Err(error) => (
                ready,
                if error.kind == ErrorKind::Interrupted {
                    Ok(Wait::Ready)
                } else {
                    Err(error)
                },
            ),
        }
    }

    /// Registers `fd` for readable events.
    pub fn add_read(&self, fd: RawFd) -> (call: Control)
        ensures
            call == self.adding_read(fd),
    {
        assert((1i32 | 0x4000_0000i32) as u32 == 0x4000_0001u32) by (bit_vector);
        self.control(fd, ctl_add(), epollin() | epolloneshot())
    }

    /// Updates `fd` to readable events.
    pub fn modify_read(&self, fd: RawFd) -> (call: Control)
        ensures
            call == self.modifying_read(fd),
    {
        assert((1i32 | 0x4000_0000i32) as u32 == 0x4000_0001u32) by (bit_vector);
        self.control(fd, ctl_mod(), epollin() | epolloneshot())
    }

    /// Updates `fd` to readable and writable events.
    pub fn modify_read_write(&self, fd: RawFd) -> (call: Control)
        ensures
            call == self.modifying_read_write(fd),
    {
        assert((1i32 | 4i32 | 0x4000_0000i32) as u32 == 0x4000_0005u32) by (bit_vector);
        self.control(fd, ctl_mod(), epollin() | epollout() | epolloneshot())
    }

    /// Removes `fd` from the epoll interest list.
    pub fn unregister(&self, fd: RawFd) -> (call: Control)
        ensures
            call == self.unregistering(fd),
    {
        Control { epfd: self.epfd, op: ctl_del(), fd, event: None }
    }

    /// An epoll control operation with explicit readiness flags.
    pub fn control(&self, fd: RawFd, operation: i32, flags: i32) -> (call: Control)
        ensures
            call == (Control {
                epfd: self.epfd,
                op: operation,
                fd,
                event: Some(EpollEvent { events: flags as u32, data: token(fd) }),
            }),
    {
        Control {
            epfd: self.epfd,
            op: operation,
            fd,
            event: Some(EpollEvent { events: flags as u32, data: fd as u64 }),
        }
    }

    /// Size of the event buffer, as the wait call takes it.
    pub fn max_events(&self) -> (count: i32)
        ensures
            count == self.event_capacity as i32,
    {
        self.event_capacity as i32
    }

    /// Takes the outcome of a wait and enqueues the file descriptors of its events.
    pub fn wait(
        &self,
        polled: Result<Vec<EpollEvent>, IoError>,
        ready: &mut ReadyQueue,
    ) -> (result: Result<Wait, IoError>)
        ensures
            (final(ready)@, result) == self.waited(old(ready)@, polled),
    {
        match polled {
            Err(error) => {
                if error.kind == ErrorKind::Interrupted {
                    return Ok(Wait::Ready);
                }
                Err(error)
            },
            Ok(events) => {
                let ghost fds = fds_of(events@);
                let mut i: usize = 0;
                assert(old(ready)@ + fds.take(0) =~= old(ready)@);
                while i < events.len()
                    invariant
                        i <= events@.len(),
                        polled == Ok::<Vec<EpollEvent>, IoError>(events),
                        fds == fds_of(events@),
                        forall|j: int| 0 <= j < i ==> fds[j] != self.shutdown_fd,
                        ready@ == old(ready)@ + fds.take(i as int),
                    decreases events@.len() - i,
                {
                    let fd: RawFd = events[i].data as RawFd;
                    assert(fd == fds[i as int]);
                    if fd == self.shutdown_fd {
                        proof {
                            lemma_position(fds, self.shutdown_fd, i as int);
                        }
                        return Ok(Wait::Shutdown);
                    }
                    ready.push_back(fd);
                    i = i + 1;
                    assert(ready@ =~= old(ready)@ + fds.take(i as int));
                }
                proof {
                    lemma_position(fds, self.shutdown_fd, i as int);
                }
                Ok(Wait::Ready)
            },
        }
    }

    /// The descriptors that the reactor owns, in the order in which they are to be closed.
    pub fn into_fds(self) -> (fds: Vec<RawFd>)
        ensures
            fds@ == seq![self.shutdown_fd, self.epfd],
    {
        let mut fds: Vec<RawFd> = Vec::new();
        fds.push(self.shutdown_fd);
        fds.push(self.epfd);
        assert(fds@ =~= seq![self.shutdown_fd, self.epfd]);
        fds
    }
}

/// The descriptor that an event hands back is the one that was registered, whatever flags the
/// event has.
pub proof fn token_gives_the_descriptor_back(fd: RawFd, flags: u32)
    ensures
        fd_of(EpollEvent { events: flags, data: token(fd) }) == fd,
{
    assert((fd as u64) as i32 == fd) by (bit_vector);
}

/// Every registration is for readable events and for one event only.
pub proof fn registrations_are_one_shot(reactor: Reactor, fd: RawFd, call: Control)
    requires
        call == reactor.adding_read(fd) || call == reactor.modifying_read(fd) || call
            == reactor.modifying_read_write(fd),
    ensures
        call.fd == fd,
        call.epfd == reactor.epfd,
        call.event is Some,
        call.event->0.events & 0x4000_0000 == 0x4000_0000,
        call.event->0.events & 1 == 1,
        fd_of(call.event->0) == fd,
{
    assert(0x4000_0001u32 & 0x4000_0000u32 == 0x4000_0000u32) by (bit_vector);
    assert(0x4000_0001u32 & 1u32 == 1u32) by (bit_vector);
    assert(0x4000_0005u32 & 0x4000_0000u32 == 0x4000_0000u32) by (bit_vector);
    assert(0x4000_0005u32 & 1u32 == 1u32) by (bit_vector);
    assert((fd as u64) as i32 == fd) by (bit_vector);
}

/// A wait queues nothing that follows a shutdown event, and reports shutdown exactly if the
/// shutdown descriptor is among the events.
pub proof fn shutdown_is_reported_once_seen(
    reactor: Reactor,
    ready: Seq<RawFd>,
    events: Vec<EpollEvent>,
)
    ensures
        ({
            let (queued, result) = reactor.waited(ready, Ok(events));
            let fds = fds_of(events@);
            &&& result == Ok::<Wait, IoError>(
                if fds.contains(reactor.shutdown_fd) {
                    Wait::Shutdown
                } else {
                    Wait::Ready
                },
            )
            &&& ready.is_prefix_of(queued)
            &&& queued.skip(ready.len() as int).is_prefix_of(fds)
            &&& !queued.skip(ready.len() as int).contains(reactor.shutdown_fd)
            &&& !fds.contains(reactor.shutdown_fd) ==> queued == ready + fds
        }),
{
    let fds = fds_of(events@);
    let at = position(fds, reactor.shutdown_fd);
    lemma_position_is_first(fds, reactor.shutdown_fd);
    let queued = ready + fds.take(at);
    assert(queued.skip(ready.len() as int) =~= fds.take(at));
    assert(fds.take(fds.len() as int) =~= fds);
    if at < fds.len() {
        assert(fds[at] == reactor.shutdown_fd);
    }
}

/// Nothing before [`position`] is `stop`, and it is the end or a `stop`.
proof fn lemma_position_is_first(fds: Seq<RawFd>, stop: RawFd)
    ensures
        0 <= position(fds, stop) <= fds.len(),
        forall|i: int| 0 <= i < position(fds, stop) ==> fds[i] != stop,
        position(fds, stop) < fds.len() ==> fds[position(fds, stop)] == stop,
    decreases fds.len(),
{
    if fds.len() > 0 && fds[0] != stop {
        lemma_position_is_first(fds.skip(1), stop);
        assert forall|i: int| 0 <= i < position(fds, stop) implies fds[i] != stop by {
            if i > 0 {
                assert(fds.skip(1)[i - 1] == fds[i]);
            }
        }
    }
}

} // verus!
