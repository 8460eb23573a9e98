//! Listener accept task.

use std::marker::PhantomData;

use vstd::prelude::*;

use crate::connection::Connection;
use crate::io::{ErrorKind, IoError, RawFd};
use crate::step::{Interest, Phase, Step};
use crate::task::{fresh_entry, larger, ReadyQueue, Task, TaskStorage};

verus! {

/// Accepts client connections and schedules per-connection tasks.
///
/// Its view is the listening socket.
pub struct Acceptor<P> {
    /// Non-blocking listening socket.
    listener: RawFd,
    /// Protocol marker for accepted connections.
    protocol: PhantomData<P>,
}

impl<P> View for Acceptor<P> {
    type V = RawFd;

    closed spec fn view(&self) -> RawFd {
        self.listener
    }
}

/// The step after an accept: a client is set up, an empty backlog is waited for, and any other
/// error takes the listening socket out of the reactor.
pub open spec fn accepted(outcome: Result<RawFd, IoError>) -> Step {
    match outcome {
        Ok(fd) => Step::Ask(Phase::SetNonblocking(fd)),
        Err(error) => if error.kind == ErrorKind::WouldBlock {
            Step::Ask(Phase::Rearm(Interest::Read))
        } else {
            Step::Ask(Phase::Unregister(error))
        },
    }
}

/// The step after setting an option of the accepted socket `fd`: without the option the client is
/// dropped.
pub open spec fn configured(fd: RawFd, result: Result<(), IoError>, next: Phase) -> Step {
    match result {
        Ok(_) => Step::Ask(next),
        Err(_) => Step::Ask(Phase::Discard(fd)),
    }
}

/// The step after a call of the reactor, which must not fail.
pub open spec fn required(result: Result<(), IoError>, next: Phase) -> Step {
    match result {
        Ok(_) => Step::Ask(next),
        Err(error) => Step::Fail(error),
    }
}

impl<P> Acceptor<P> {
    /// Creates a new accept task.
    pub fn new(listener: RawFd) -> (acceptor: Self)
        ensures
            acceptor@ == listener,
    {
        Acceptor { listener, protocol: PhantomData }
    }

    /// The listening socket.
    pub fn fd(&self) -> (fd: RawFd)
        ensures
            fd == self@,
    {
        self.listener
    }

    /// Starts accepting all currently available clients.
    pub fn handle(&self) -> (step: Step)
        ensures
            step == Step::Ask(Phase::Accept),
    {
        Step::Ask(Phase::Accept)
    }

    /// Takes the outcome of an accept.
    pub fn on_accept(&self, outcome: Result<RawFd, IoError>) -> (step: Step)
        ensures
            step == accepted(outcome),
    {
        match outcome {
            Ok(fd) => Step::Ask(Phase::SetNonblocking(fd)),
            Err(error) => {
                if error.kind == ErrorKind::WouldBlock {
                    Step::Ask(Phase::Rearm(Interest::Read))
                } else {
                    Step::Ask(Phase::Unregister(error))
                }
            },
        }
    }

    /// Takes the outcome of making the accepted socket `fd` non-blocking.
    pub fn on_nonblocking(&self, fd: RawFd, result: Result<(), IoError>) -> (step: Step)
        ensures
            step == configured(fd, result, Phase::SetNodelay(fd)),
    {
        match result {
            Ok(_) => Step::Ask(Phase::SetNodelay(fd)),
            Err(_) => Step::Ask(Phase::Discard(fd)),
        }
    }

    /// Takes the outcome of setting `TCP_NODELAY` on the accepted socket `fd`.
    pub fn on_nodelay(&self, fd: RawFd, result: Result<(), IoError>) -> (step: Step)
        ensures
            step == configured(fd, result, Phase::Register(fd)),
    {
        match result {
            Ok(_) => Step::Ask(Phase::Register(fd)),
            Err(_) => Step::Ask(Phase::Discard(fd)),
        }
    }

    /// Takes the outcome of registering the accepted socket `fd`. A registered one gets a
    /// connection task, which is queued at once, and the next client is accepted.
    pub fn on_register(
        &self,
        fd: RawFd,
        result: Result<(), IoError>,
        ready: &mut ReadyQueue,
        tasks: &mut TaskStorage<P>,
    ) -> (step: Step)
        requires
            fd >= 0,
        ensures
            step == required(result, Phase::Accept),
            match result {
                Ok(_) => {
                    &&& final(ready)@ == old(ready)@.push(fd)
                    &&& final(tasks).slots() == larger(old(tasks).slots(), (fd + 1) as nat)
                    &&& final(tasks)@[fd as int]@ == fresh_entry(fd)
                    &&& final(tasks)@ == old(tasks)@.insert(fd as int, final(tasks)@[fd as int])
                },
                Err(_) => {
                    &&& final(ready)@ == old(ready)@
                    &&& final(tasks)@ == old(tasks)@
                    &&& final(tasks).slots() == old(tasks).slots()
                },
            },
    {
        match result {
            Ok(_) => {
                let connection = Connection::<P>::new(fd);
                ready.push_back(fd);
                tasks.insert(fd, Task::from(connection));
                Step::Ask(Phase::Accept)
            },
            Err(error) => Step::Fail(error),
        }
    }
}

} // verus!
