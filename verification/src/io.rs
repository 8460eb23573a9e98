//! Calls the server asks for, and their outcomes.

use vstd::prelude::*;

use crate::reactor::{Control, EpollEvent};

verus! {

/// A file descriptor.
pub type RawFd = i32;

/// The kinds of error that the server tells apart.
#[derive(Clone, Copy, PartialEq, Eq, Structural, Debug)]
pub enum ErrorKind {
    /// The call would have to wait.
    WouldBlock,
    /// The peer reset the connection.
    ConnectionReset,
    /// A signal interrupted the call.
    Interrupted,
    /// Any other error.
    Other,
}

/// A failed call.
#[derive(Clone, Copy, PartialEq, Eq, Structural, Debug)]
pub struct IoError {
    /// What went wrong, as far as the server distinguishes it.
    pub kind: ErrorKind,
    /// Error number of the operating system.
    pub code: i32,
}

/// The task in whose name an error is reported.
#[derive(Clone, Copy, PartialEq, Eq, Structural, Debug)]
pub enum Origin {
    /// The accept task.
    Acceptor,
    /// A connection task.
    Handler,
}

/// The next call the server asks for.
#[derive(Clone, Copy, PartialEq, Eq, Debug)]
pub enum Request {
    /// Accept one client on the listening socket.
    Accept {
        /// The listening socket.
        listener: RawFd,
    },
    /// Make a socket non-blocking.
    SetNonblocking {
        /// The socket.
        fd: RawFd,
    },
    /// Set or clear `TCP_NODELAY` on a socket.
    SetNodelay {
        /// The socket.
        fd: RawFd,
        /// Whether to enable the option.
        nodelay: bool,
    },
    /// Change the epoll interest list.
    Control {
        /// The arguments of the call.
        call: Control,
    },
    /// Read once from a socket.
    Read {
        /// The socket.
        fd: RawFd,
        /// Size of the buffer to read into.
        len: usize,
    },
    /// Write the server's outgoing bytes to a socket, once.
    Write {
        /// The socket.
        fd: RawFd,
    },
    /// Wait for epoll events without a time limit.
    Poll {
        /// The epoll instance.
        epfd: RawFd,
        /// Most events to take.
        max_events: i32,
    },
    /// Print an error.
    Report {
        /// The task that met it.
        origin: Origin,
        /// The error.
        error: IoError,
    },
    /// Close the socket of a task that has ended.
    Close {
        /// The socket.
        fd: RawFd,
    },
    /// The event loop has ended: release everything and return the result.
    Exit {
        /// Result of the event loop.
        result: Result<(), IoError>,
    },
}

/// Outcome of the call last asked for.
#[derive(PartialEq, Eq, Debug)]
pub enum Reply {
    /// Outcome of `Accept`: the accepted socket.
    Accepted(Result<RawFd, IoError>),
    /// Outcome of `Read`: the bytes read, none at the end of the stream.
    Received(Result<Vec<u8>, IoError>),
    /// Outcome of `Write`: the number of bytes taken.
    Wrote(Result<usize, IoError>),
    /// Outcome of `Poll`: the events taken.
    Polled(Result<Vec<EpollEvent>, IoError>),
    /// Outcome of any other call.
    Done(Result<(), IoError>),
}

} // verus!
