//! How a task proceeds from one call to the next.

use vstd::prelude::*;

use crate::io::{IoError, RawFd};
use crate::task::TaskStatus;

verus! {

/// The readiness a task waits for when it is rearmed.
#[derive(Clone, Copy, PartialEq, Eq, Structural, Debug)]
pub enum Interest {
    /// Readable.
    Read,
    /// Readable or writable.
    ReadWrite,
}

/// The call that a running task waits for.
#[derive(Clone, Copy, PartialEq, Eq, Structural, Debug)]
pub enum Phase {
    /// Accepting the next client.
    Accept,
    /// Making an accepted socket non-blocking.
    SetNonblocking(RawFd),
    /// Setting `TCP_NODELAY` on an accepted socket.
    SetNodelay(RawFd),
    /// Registering an accepted socket with the reactor.
    Register(RawFd),
    /// Closing an accepted socket that could not be set up.
    Discard(RawFd),
    /// Removing the listening socket from the reactor, because of an error.
    Unregister(IoError),
    /// Reading a request.
    Read,
    /// Writing what is left of a response.
    Write,
    /// Rearming the task's own socket, after which the task rests.
    Rearm(Interest),
    /// Reporting an error, after which the task ends.
    Report(IoError),
}

/// What a task does next.
#[derive(Clone, Copy, PartialEq, Eq, Debug)]
pub enum Step {
    /// It needs the outcome of a call.
    Ask(Phase),
    /// It has advanced as far as it can.
    Finish(TaskStatus),
    /// A call failed that the event loop cannot do without.
    Fail(IoError),
}

} // verus!
