//! Per-connection read/write task.

use std::marker::PhantomData;

use vstd::prelude::*;

use crate::io::{ErrorKind, IoError, RawFd};
use crate::protocol::{may_answer, answered_by, Protocol};
use crate::step::{Interest, Phase, Step};
use crate::task::TaskStatus;

verus! {

/// Number of bytes attempted per socket read.
pub const READ_BUFFER_LEN: usize = 1024;

/// Handles reads and writes for one TCP connection.
pub struct Connection<P> {
    /// Non-blocking TCP stream.
    fd: RawFd,
    /// Pending response bytes.
    write_buf: Option<WriteSource>,
    /// Number of pending response bytes already written.
    written: usize,
    /// Protocol marker for static specialization.
    protocol: PhantomData<P>,
}

/// Source of the currently pending write.
pub enum WriteSource {
    /// Static protocol response.
    Static(&'static [u8]),
    /// Bytes stored in the connection-owned write buffer.
    Buffered(Vec<u8>),
}

impl View for WriteSource {
    type V = Seq<u8>;

    open spec fn view(&self) -> Seq<u8> {
        match *self {
            WriteSource::Static(response) => response@,
            WriteSource::Buffered(response) => response@,
        }
    }
}

/// The bytes of an optional write source.
pub open spec fn bytes_of(source: Option<WriteSource>) -> Option<Seq<u8>> {
    match source {
        Some(bytes) => Some(bytes@),
        None => None,
    }
}

/// What a connection remembers between calls.
#[verifier::ext_equal]
pub struct ConnectionState {
    /// Its socket.
    pub fd: RawFd,
    /// The response being written, if any.
    pub response: Option<Seq<u8>>,
    /// How many of its bytes have been written.
    pub written: nat,
}

impl ConnectionState {
    /// A connection that has no response to write.
    pub open spec fn idle(fd: RawFd) -> Self {
        ConnectionState { fd, response: None, written: 0 }
    }

    /// A response is kept only as long as some of it is unwritten.
    pub open spec fn wf(self) -> bool {
        match self.response {
            Some(response) => self.written < response.len(),
            None => self.written == 0,
        }
    }

    /// The bytes still to be written.
    pub open spec fn outgoing(self) -> Seq<u8> {
        match self.response {
            Some(response) => response.skip(self.written as int),
            None => Seq::empty(),
        }
    }

    /// Starting to write, or going on: the rest of the response is next; once there is none, the
    /// connection is idle and waits for another request.
    pub open spec fn flushed(self) -> (Self, Step) {
        match self.response {
            None => (self, Step::Finish(TaskStatus::Pending)),
            Some(response) => if self.written < response.len() {
                (self, Step::Ask(Phase::Write))
            } else {
                (Self::idle(self.fd), Step::Ask(Phase::Rearm(Interest::Read)))
            },
        }
    }

    /// Being scheduled: a pending response comes before a new request.
    pub open spec fn handled(self) -> (Self, Step) {
        if self.response is Some {
            self.flushed()
        } else {
            (self, Step::Ask(Phase::Read))
        }
    }

    /// Getting the protocol's answer to a request; a refusal ends the connection.
    pub open spec fn answered(self, answer: Option<Seq<u8>>) -> (Self, Step) {
        match answer {
            Some(_) => (ConnectionState { response: answer, written: 0, ..self }).flushed(),
            None => (Self::idle(self.fd), Step::Finish(TaskStatus::Complete)),
        }
    }

    /// Getting the outcome of a read, where `answer` is the protocol's answer to the bytes read.
    pub open spec fn received(
        self,
        outcome: Result<Vec<u8>, IoError>,
        answer: Option<Seq<u8>>,
    ) -> (Self, Step) {
        match outcome {
            Ok(request) => if request@.len() == 0 {
                (self, Step::Finish(TaskStatus::Complete))
            } else {
                self.answered(answer)
            },
            Err(error) => (
                self,
                if error.kind == ErrorKind::WouldBlock {
                    Step::Ask(Phase::Rearm(Interest::Read))
                } else if error.kind == ErrorKind::ConnectionReset {
                    Step::Finish(TaskStatus::Complete)
                } else {
                    Step::Ask(Phase::Report(error))
                },
            ),
        }
    }

    /// Getting the outcome of a write: progress goes on, a full socket is waited for, any error
    /// ends the connection.
    pub open spec fn wrote(self, outcome: Result<usize, IoError>) -> (Self, Step) {
        match outcome {
            Ok(count) => if count == 0 {
                (self, Step::Ask(Phase::Rearm(Interest::ReadWrite)))
            } else {
                (ConnectionState { written: self.written + count as nat, ..self }).flushed()
            },
            Err(error) => (
                self,
                if error.kind == ErrorKind::WouldBlock {
                    Step::Ask(Phase::Rearm(Interest::ReadWrite))
                } else {
                    Step::Finish(TaskStatus::Complete)
                },
            ),
        }
    }
}

/// The step after rearming a task's own socket: the task rests, unless that failed.
pub open spec fn rearmed(result: Result<(), IoError>) -> Step {
    match result {
        Ok(_) => Step::Finish(TaskStatus::Pending),
        Err(error) => Step::Fail(error),
    }
}

/// Whether `answer` may be the protocol's answer to what a read brought. Where it brought no
/// request the protocol is not asked, and nothing is said of `answer`.
pub open spec fn may_follow<P: Protocol>(
    outcome: Result<Vec<u8>, IoError>,
    answer: Option<Seq<u8>>,
) -> bool {
    match outcome {
        Ok(request) => request@.len() > 0 ==> may_answer::<P>(request@, answer),
        Err(_) => true,
    }
}

/// Asks the protocol for its answer to `request`.
pub fn answer<P: Protocol>(request: &[u8]) -> (source: Option<WriteSource>)
    ensures
        may_answer::<P>(request@, bytes_of(source)),
{
    let fixed = P::static_response(request);
    if let Some(response) = fixed {
        assert(answered_by::<P>(request, fixed, request@, Some(response@)));
        Some(WriteSource::Static(response))
    } else {
        let mut buf: Vec<u8> = Vec::new();
        if P::prepare_response(request, &mut buf) {
            assert(answered_by::<P>(request, fixed, request@, Some(buf@)));
            Some(WriteSource::Buffered(buf))
        } else {
            assert(answered_by::<P>(request, fixed, request@, None));
            None
        }
    }
}

impl<P> View for Connection<P> {
    type V = ConnectionState;

    closed spec fn view(&self) -> ConnectionState {
        ConnectionState {
            fd: self.fd,
            response: bytes_of(self.write_buf),
            written: self.written as nat,
        }
    }
}

impl<P> Connection<P> {
    /// Creates a connection task from an accepted stream.
    pub fn new(fd: RawFd) -> (connection: Self)
        ensures
            connection@ == ConnectionState::idle(fd),
    {
        Connection { fd, write_buf: None, written: 0, protocol: PhantomData }
    }

    /// Returns the connection file descriptor.
    pub fn fd(&self) -> (fd: RawFd)
        ensures
            fd == self@.fd,
    {
        self.fd
    }

    /// Number of pending response bytes already written.
    pub fn written(&self) -> (written: usize)
        ensures
            written == self@.written,
    {
        self.written
    }

    /// The bytes still to be written.
    pub fn outgoing(&self) -> (bytes: &[u8])
        requires
            self@.wf(),
        ensures
            bytes@ == self@.outgoing(),
    {
        let response: &[u8] = match &self.write_buf {
            Some(WriteSource::Static(response)) => *response,
            Some(WriteSource::Buffered(response)) => response.as_slice(),
            None => &[],
        };
        assert(response@.subrange(self.written as int, response@.len() as int)
            =~= self@.outgoing());
        vstd::slice::slice_subrange(response, self.written, response.len())
    }

    /// Writes as much of the pending response as the socket accepts.
    pub fn flush(&mut self) -> (step: Step)
        ensures
            (final(self)@, step) == old(self)@.flushed(),
    {
        let len: usize = match &self.write_buf {
            Some(WriteSource::Static(response)) => response.len(),
            Some(WriteSource::Buffered(response)) => response.len(),
            None => {
                return Step::Finish(TaskStatus::Pending);
            },
        };
        if self.written < len {
            return Step::Ask(Phase::Write);
        }
        self.write_buf = None;
        self.written = 0;
        Step::Ask(Phase::Rearm(Interest::Read))
    }

    /// Takes the outcome of writing the outgoing bytes.
    pub fn on_write(&mut self, outcome: Result<usize, IoError>) -> (step: Step)
        requires
            outcome matches Ok(count) ==> old(self)@.written + count <= usize::MAX,
        ensures
            (final(self)@, step) == old(self)@.wrote(outcome),
    {
        match outcome {
            Ok(count) => {
                if count == 0 {
                    return Step::Ask(Phase::Rearm(Interest::ReadWrite));
                }
                self.written = self.written + count;
                self.flush()
            },
            Err(error) => {
                if error.kind == ErrorKind::WouldBlock {
                    Step::Ask(Phase::Rearm(Interest::ReadWrite))
                } else {
                    Step::Finish(TaskStatus::Complete)
                }
            },
        }
    }

    /// Takes the protocol's answer to a request.
    pub fn respond(&mut self, source: Option<WriteSource>) -> (step: Step)
        ensures
            (final(self)@, step) == old(self)@.answered(bytes_of(source)),
    {
        self.write_buf = source;
        self.written = 0;
        if self.write_buf.is_some() {
            self.flush()
        } else {
            Step::Finish(TaskStatus::Complete)
        }
    }

    /// Advances this connection once.
    pub fn handle(&mut self) -> (step: Step)
        ensures
            (final(self)@, step) == old(self)@.handled(),
    {
        if self.write_buf.is_some() {
            return self.flush();
        }
        Step::Ask(Phase::Read)
    }
}

impl<P> Connection<P> where P: Protocol {
    /// Takes the outcome of reading a request.
    pub fn on_read(&mut self, outcome: Result<Vec<u8>, IoError>) -> (step: Step)
        ensures
            exists|answer: Option<Seq<u8>>|
                {
                    &&& may_follow::<P>(outcome, answer)
                    &&& (final(self)@, step) == #[trigger] old(self)@.received(outcome, answer)
                },
    {
        match outcome {
            Ok(request) => {
                if request.len() == 0 {
                    assert((self@, Step::Finish(TaskStatus::Complete)) == old(self)@.received(
                        outcome,
                        None,
                    ));
                    return Step::Finish(TaskStatus::Complete);
                }
                let source = answer::<P>(request.as_slice());
                let ghost bytes = bytes_of(source);
                let step = self.respond(source);
                assert((self@, step) == old(self)@.received(outcome, bytes));
                step
            },
            Err(error) => {
                let step = if error.kind == ErrorKind::WouldBlock {
                    Step::Ask(Phase::Rearm(Interest::Read))
                } else if error.kind != ErrorKind::ConnectionReset {
                    Step::Ask(Phase::Report(error))
                } else {
                    Step::Finish(TaskStatus::Complete)
                };
                assert((self@, step) == old(self)@.received(outcome, None));
                step
            },
        }
    }
}

} // verus!
