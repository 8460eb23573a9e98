use echo_server::connection::{answer, Connection, WriteSource, READ_BUFFER_LEN};
use echo_server::io::{ErrorKind, IoError};
use echo_server::protocol::{Echo, HttpHelloWorld, Protocol};
use echo_server::step::{Interest, Phase, Step};
use echo_server::task::TaskStatus;

struct Fixed;

impl Protocol for Fixed {
    const TCP_NODELAY: bool = true;

    fn static_response(request: &[u8]) -> Option<&'static [u8]> {
        if request == b"fixed" {
            Some(b"static bytes")
        } else {
            None
        }
    }

    fn prepare_response(request: &[u8], response: &mut Vec<u8>) -> bool {
        response.push(b'!');
        request != b"refuse"
    }
}

struct Silent;

impl Protocol for Silent {
    const TCP_NODELAY: bool = false;

    fn prepare_response(_request: &[u8], _response: &mut Vec<u8>) -> bool {
        true
    }
}

fn failure(kind: ErrorKind) -> IoError {
    IoError { kind, code: 5 }
}

const WRITE: Step = Step::Ask(Phase::Write);
const WAIT_FOR_REQUEST: Step = Step::Ask(Phase::Rearm(Interest::Read));
const WAIT_FOR_ROOM: Step = Step::Ask(Phase::Rearm(Interest::ReadWrite));
const END: Step = Step::Finish(TaskStatus::Complete);

#[test]
fn reads_ask_for_a_full_buffer() {
    assert_eq!(READ_BUFFER_LEN, 1024);
}

#[test]
fn idle_connection_reads() {
    let mut connection: Connection<Echo> = Connection::new(8);
    assert_eq!(connection.fd(), 8);
    assert_eq!(connection.handle(), Step::Ask(Phase::Read));
    assert!(connection.outgoing().is_empty());
}

#[test]
fn echo_is_written_in_pieces() {
    let mut connection: Connection<Echo> = Connection::new(8);
    assert_eq!(connection.on_read(Ok(b"hello".to_vec())), WRITE);
    let mut sent = Vec::new();
    for count in [2, 1, 2] {
        sent.extend_from_slice(&connection.outgoing()[..count]);
        let step = connection.on_write(Ok(count));
        assert_eq!(step, if sent.len() < 5 { WRITE } else { WAIT_FOR_REQUEST });
    }
    assert_eq!(sent, b"hello");
    assert_eq!(connection.written(), 0);
    assert_eq!(connection.handle(), Step::Ask(Phase::Read));
}

#[test]
fn pending_response_comes_before_the_next_request() {
    let mut connection: Connection<Echo> = Connection::new(8);
    connection.on_read(Ok(b"hello".to_vec()));
    connection.on_write(Ok(2));
    assert_eq!(connection.on_write(Err(failure(ErrorKind::WouldBlock))), WAIT_FOR_ROOM);
    assert_eq!(connection.handle(), WRITE);
    assert_eq!(connection.outgoing(), b"llo");
    assert_eq!(connection.on_write(Ok(0)), WAIT_FOR_ROOM);
    assert_eq!(connection.handle(), WRITE);
    assert_eq!(connection.outgoing(), b"llo");
    assert_eq!(connection.on_write(Ok(3)), WAIT_FOR_REQUEST);
}

#[test]
fn write_errors_end_the_connection() {
    for kind in [ErrorKind::ConnectionReset, ErrorKind::Interrupted, ErrorKind::Other] {
        let mut connection: Connection<Echo> = Connection::new(8);
        connection.on_read(Ok(b"hello".to_vec()));
        assert_eq!(connection.on_write(Err(failure(kind))), END);
    }
}

#[test]
fn read_outcomes_without_a_request() {
    let mut connection: Connection<Echo> = Connection::new(8);
    assert_eq!(connection.on_read(Ok(vec![])), END);
    assert_eq!(connection.on_read(Err(failure(ErrorKind::WouldBlock))), WAIT_FOR_REQUEST);
    assert_eq!(connection.on_read(Err(failure(ErrorKind::ConnectionReset))), END);
    for kind in [ErrorKind::Interrupted, ErrorKind::Other] {
        let error = failure(kind);
        assert_eq!(connection.on_read(Err(error)), Step::Ask(Phase::Report(error)));
    }
}

#[test]
fn refused_request_ends_the_connection() {
    let mut connection: Connection<HttpHelloWorld> = Connection::new(8);
    assert_eq!(connection.on_read(Ok(b"GET /nope HTTP/1.1\r\n\r\n".to_vec())), END);
    assert!(connection.outgoing().is_empty());
}

#[test]
fn accepted_request_is_answered() {
    let mut connection: Connection<HttpHelloWorld> = Connection::new(8);
    assert_eq!(connection.on_read(Ok(b"GET / HTTP/1.1\r\n\r\n".to_vec())), WRITE);
    assert!(connection.outgoing().ends_with(b"\r\n\r\nHello, world!\r\n"));
}

#[test]
fn fixed_response_comes_first() {
    let mut connection: Connection<Fixed> = Connection::new(8);
    assert_eq!(connection.on_read(Ok(b"fixed".to_vec())), WRITE);
    assert_eq!(connection.outgoing(), b"static bytes");
    assert_eq!(connection.on_write(Ok(7)), WRITE);
    assert_eq!(connection.outgoing(), b"bytes");

    assert!(matches!(answer::<Fixed>(b"fixed"), Some(WriteSource::Static(b"static bytes"))));
    assert!(matches!(answer::<Fixed>(b"other"), Some(WriteSource::Buffered(_))));
    assert!(answer::<Fixed>(b"refuse").is_none());
}

#[test]
fn empty_response_is_done_at_once() {
    let mut connection: Connection<Silent> = Connection::new(8);
    assert_eq!(connection.on_read(Ok(b"x".to_vec())), WAIT_FOR_REQUEST);
    assert_eq!(connection.handle(), Step::Ask(Phase::Read));
}

#[test]
fn flush_without_a_response_rests() {
    let mut connection: Connection<Echo> = Connection::new(8);
    assert_eq!(connection.flush(), Step::Finish(TaskStatus::Pending));
}
