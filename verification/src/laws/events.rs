//! The reactor's calls and events, in numbers.

use vstd::prelude::*;

use crate::io::{ErrorKind, IoError, RawFd};
use crate::reactor::{fd_of, fds_of, position, token, EpollEvent, Reactor, Wait};

verus! {

/// A descriptor stands in the user data as its own number, the low 32 bits of which are the
/// descriptor again; those bits are the descriptor of an event, whatever its flags.
pub proof fn user_data_is_the_descriptor(fd: RawFd, event: EpollEvent)
    ensures
        token(fd) == fd as u64,
        fd_of(event) == event.data as i32,
        token(fd) as i32 == fd,
{
    assert((fd as u64) as i32 == fd) by (bit_vector);
}

/// Registering a descriptor is adding it, rearming it is modifying it, both with its own number
/// as user data; removing it carries no event.
pub proof fn control_calls_are_about_their_descriptor(reactor: Reactor, fd: RawFd)
    ensures
        ({
            let call = reactor.adding_read(fd);
            &&& call.op == 1 && call.epfd == reactor.epfd && call.fd == fd
            &&& call.event is Some && (call.event->0).data == fd as u64
        }),
        ({
            let call = reactor.modifying_read(fd);
            &&& call.op == 3 && call.epfd == reactor.epfd && call.fd == fd
            &&& call.event is Some && (call.event->0).data == fd as u64
        }),
        ({
            let call = reactor.modifying_read_write(fd);
            &&& call.op == 3 && call.epfd == reactor.epfd && call.fd == fd
            &&& call.event is Some && (call.event->0).data == fd as u64
        }),
        ({
            let call = reactor.unregistering(fd);
            &&& call.op == 2 && call.epfd == reactor.epfd && call.fd == fd
            &&& call.event is None
        }),
{
}

/// Waiting for reading sets the readable bit (0) and the one-shot bit (30) and no other; waiting
/// for room to write sets the writable bit (2) as well, and no other.
pub proof fn control_flags_are_exact(reactor: Reactor, fd: RawFd)
    ensures
        (reactor.adding_read(fd).event->0).events == 1u32 | 0x4000_0000u32,
        (reactor.modifying_read(fd).event->0).events == 1u32 | 0x4000_0000u32,
        (reactor.modifying_read_write(fd).event->0).events == 1u32 | 4u32 | 0x4000_0000u32,
        (reactor.modifying_read_write(fd).event->0).events & 4u32 == 4u32,
        (reactor.modifying_read(fd).event->0).events & 4u32 == 0u32,
        (reactor.adding_read(fd).event->0).events & 4u32 == 0u32,
{
    assert(1u32 | 0x4000_0000u32 == 0x4000_0001u32) by (bit_vector);
    assert(1u32 | 4u32 | 0x4000_0000u32 == 0x4000_0005u32) by (bit_vector);
    assert(0x4000_0005u32 & 4u32 == 4u32) by (bit_vector);
    assert(0x4000_0001u32 & 4u32 == 0u32) by (bit_vector);
}

/// Without an event of the shutdown descriptor, a wait queues for each event in order the low 32
/// bits of its user data, whatever its flags, behind what was queued.
pub proof fn every_event_is_queued(
    reactor: Reactor,
    ready: Seq<RawFd>,
    events: Vec<EpollEvent>,
)
    requires
        forall|i: int|
            0 <= i < events@.len() ==> (#[trigger] events@[i]).data as i32 != reactor.shutdown_fd,
    ensures
        ({
            let (queued, result) = reactor.waited(ready, Ok(events));
            &&& result == Ok::<Wait, IoError>(Wait::Ready)
            &&& queued.len() == ready.len() + events@.len()
            &&& forall|i: int| 0 <= i < ready.len() ==> queued[i] == ready[i]
            &&& forall|i: int|
                0 <= i < events@.len() ==> queued[ready.len() + i] == (
                #[trigger] events@[i]).data as i32
        }),
{
    let fds = fds_of(events@);
    assert forall|i: int| 0 <= i < fds.len() implies fds[i] != reactor.shutdown_fd by {
        assert(fds[i] == events@[i].data as i32);
    }
    lemma_position(fds, reactor.shutdown_fd, fds.len() as int);
    let (queued, _) = reactor.waited(ready, Ok(events));
    assert forall|i: int| 0 <= i < events@.len() implies queued[ready.len() + i] == (
    #[trigger] events@[i]).data as i32 by {
        assert(queued[ready.len() + i] == fds[i]);
    }
}

/// With an event of the shutdown descriptor, a wait queues for each event before the first such
/// one the low 32 bits of its user data, and reports shutdown.
pub proof fn events_before_shutdown_are_queued(
    reactor: Reactor,
    ready: Seq<RawFd>,
    events: Vec<EpollEvent>,
    at: int,
)
    requires
        0 <= at < events@.len(),
        events@[at].data as i32 == reactor.shutdown_fd,
        forall|i: int|
            0 <= i < at ==> (#[trigger] events@[i]).data as i32 != reactor.shutdown_fd,
    ensures
        ({
            let (queued, result) = reactor.waited(ready, Ok(events));
            &&& result == Ok::<Wait, IoError>(Wait::Shutdown)
            &&& queued.len() == ready.len() + at
            &&& forall|i: int| 0 <= i < ready.len() ==> queued[i] == ready[i]
            &&& forall|i: int|
                0 <= i < at ==> queued[ready.len() + i] == (#[trigger] events@[i]).data as i32
        }),
{
    let fds = fds_of(events@);
    assert forall|i: int| 0 <= i < at implies fds[i] != reactor.shutdown_fd by {
        assert(fds[i] == events@[i].data as i32);
    }
    assert(fds[at] == events@[at].data as i32);
    lemma_position(fds, reactor.shutdown_fd, at);
    let (queued, _) = reactor.waited(ready, Ok(events));
    assert forall|i: int| 0 <= i < at implies queued[ready.len() + i] == (
    #[trigger] events@[i]).data as i32 by {
        assert(queued[ready.len() + i] == fds[i]);
    }
}

/// A failed wait queues nothing. An interruption counts as a wait without events, whatever its
/// number; any other error is returned as it came.
pub proof fn failed_wait_queues_nothing(reactor: Reactor, ready: Seq<RawFd>, error: IoError)
    ensures
        reactor.waited(ready, Err(error)).0 == ready,
        error.kind == ErrorKind::Interrupted ==> reactor.waited(ready, Err(error)).1 == Ok::<
            Wait,
            IoError,
        >(Wait::Ready),
        error.kind != ErrorKind::Interrupted ==> reactor.waited(ready, Err(error)).1 == Err::<
            Wait,
            IoError,
        >(error),
{
}

/// A place with no `stop` before it that is the end or a `stop` is the position of `stop`.
proof fn lemma_position(fds: Seq<RawFd>, stop: RawFd, at: int)
    requires
        0 <= at <= fds.len(),
        forall|i: int| 0 <= i < at ==> fds[i] != stop,
        at < fds.len() ==> fds[at] == stop,
    ensures
        position(fds, stop) == at,
    decreases at,
{
    if at > 0 {
        lemma_position(fds.skip(1), stop, at - 1);
    }
}

} // verus!
