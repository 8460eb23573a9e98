//! Compile-time protocol implementations.

use vstd::prelude::*;
use vstd::string::*;

verus! {

/// Protocol behavior used by a statically specialized server.
///
/// An implementation can say in [`Protocol::prepares`] which outcomes its `prepare_response` may
/// have; they need not be determined by the request. One that does not say so may have any.
pub trait Protocol {
    /// Whether accepted sockets should enable `TCP_NODELAY`.
    const TCP_NODELAY: bool;

    /// Whether `prepare_response`, given `request` and a buffer that holds `before`, may return
    /// `accepted` and leave `after` in the buffer.
    open spec fn prepares(
        request: Seq<u8>,
        before: Seq<u8>,
        accepted: bool,
        after: Seq<u8>,
    ) -> bool {
        true
    }

    /// Returns the fixed response for `request`, for a protocol that has one.
    fn static_response(request: &[u8]) -> (response: Option<&'static [u8]>)
        default_ensures
            response is None,
    {
        None
    }

    /// Builds a response for `request` into `response`.
    fn prepare_response(request: &[u8], response: &mut Vec<u8>) -> (accepted: bool)
        ensures
            Self::prepares(request@, old(response)@, accepted, final(response)@),
    ;
}

/// Whether `P` may answer `request` with `answer`, `None` standing for a refusal.
///
/// A fixed response comes first. Without one, the response is what `prepare_response` leaves in
/// a buffer that was empty, if it accepts the request.
pub open spec fn may_answer<P: Protocol>(request: Seq<u8>, answer: Option<Seq<u8>>) -> bool {
    exists|bytes: &[u8], fixed: Option<&'static [u8]>| #[trigger]
        answered_by::<P>(bytes, fixed, request, answer)
}

/// The case of [`may_answer`] in which `static_response(bytes)` returned `fixed`.
pub open spec fn answered_by<P: Protocol>(
    bytes: &[u8],
    fixed: Option<&'static [u8]>,
    request: Seq<u8>,
    answer: Option<Seq<u8>>,
) -> bool {
    &&& bytes@ == request
    &&& call_ensures(P::static_response, (bytes,), fixed)
    &&& match fixed {
        Some(response) => answer == Some(response@),
        None => match answer {
            Some(response) => P::prepares(request, Seq::empty(), true, response),
            None => exists|left: Seq<u8>| P::prepares(request, Seq::empty(), false, left),
        },
    }
}

/// Echo protocol that writes back exactly the bytes read from the socket.
pub struct Echo;

impl Protocol for Echo {
    const TCP_NODELAY: bool = false;

    open spec fn prepares(
        request: Seq<u8>,
        before: Seq<u8>,
        accepted: bool,
        after: Seq<u8>,
    ) -> bool {
        accepted && after == before + request
    }

    fn prepare_response(request: &[u8], response: &mut Vec<u8>) -> (accepted: bool) {
        response.extend_from_slice(request);
        assert(response@ =~= old(response)@ + request@);
        true
    }
}

/// Fixed-response HTTP protocol for `GET / HTTP/1.1`.
pub struct HttpHelloWorld;

impl Protocol for HttpHelloWorld {
    const TCP_NODELAY: bool = true;

    open spec fn prepares(
        request: Seq<u8>,
        before: Seq<u8>,
        accepted: bool,
        after: Seq<u8>,
    ) -> bool {
        &&& accepted == is_root_get(request)
        &&& after == if accepted {
            before + ascii(HTTP_RESPONSE@)
        } else {
            before
        }
    }

    fn prepare_response(request: &[u8], response: &mut Vec<u8>) -> (accepted: bool) {
        let request_line = first_line(request);

        if !same_bytes(trim_ascii(request_line), http_request_line()) {
            return false;
        }
        response.extend_from_slice(http_response());
        assert(response@ =~= old(response)@ + ascii(HTTP_RESPONSE@));
        true
    }
}

/// Request line accepted by the HTTP protocol.
pub const HTTP_REQUEST_LINE: &'static str = "GET / HTTP/1.1";

/// Full HTTP response emitted by the HTTP protocol.
pub const HTTP_RESPONSE: &'static str =
    "HTTP/1.1 200\r\nContent-Type: text/plain\r\nContent-Length: 15\r\nConnection: keep-alive\r\n\r\nHello, world!\r\n";

/// Byte that ends a line.
pub const LINE_FEED: u8 = 0x0A;

/// The bytes of a string of ASCII characters.
pub open spec fn ascii(text: Seq<char>) -> Seq<u8> {
    text.map_values(|c: char| c as u8)
}

/// Whether the HTTP protocol accepts `request`: its first line, without surrounding white
/// space, is [`HTTP_REQUEST_LINE`].
pub open spec fn is_root_get(request: Seq<u8>) -> bool {
    trimmed(line_of(request)) == ascii(HTTP_REQUEST_LINE@)
}

/// The bytes before the first line feed, or all of them if there is none.
pub open spec fn line_of(bytes: Seq<u8>) -> Seq<u8>
    decreases bytes.len(),
{
    if bytes.len() == 0 || bytes[0] == LINE_FEED {
        Seq::empty()
    } else {
        seq![bytes[0]] + line_of(bytes.skip(1))
    }
}

/// ASCII white space: space, tab, line feed, form feed and carriage return.
pub open spec fn is_white_space(byte: u8) -> bool {
    byte == 0x20 || byte == 0x09 || byte == 0x0A || byte == 0x0C || byte == 0x0D
}

/// `bytes` without the white space at its start.
pub open spec fn trimmed_start(bytes: Seq<u8>) -> Seq<u8>
    decreases bytes.len(),
{
    if bytes.len() > 0 && is_white_space(bytes[0]) {
        trimmed_start(bytes.skip(1))
    } else {
        bytes
    }
}

/// `bytes` without the white space at its end.
pub open spec fn trimmed_end(bytes: Seq<u8>) -> Seq<u8>
    decreases bytes.len(),
{
    if bytes.len() > 0 && is_white_space(bytes.last()) {
        trimmed_end(bytes.drop_last())
    } else {
        bytes
    }
}

/// `bytes` without the white space at its start and at its end.
pub open spec fn trimmed(bytes: Seq<u8>) -> Seq<u8> {
    trimmed_end(trimmed_start(bytes))
}

/// The bytes of [`HTTP_REQUEST_LINE`].
fn http_request_line() -> (bytes: &'static [u8])
    ensures
        bytes@ == ascii(HTTP_REQUEST_LINE@),
{
    proof {
        reveal_strlit("GET / HTTP/1.1");
        broadcast use is_ascii_spec_bytes;

        assert(is_ascii(HTTP_REQUEST_LINE));
        assert(HTTP_REQUEST_LINE.spec_bytes() =~= ascii(HTTP_REQUEST_LINE@));
    }
    HTTP_REQUEST_LINE.as_bytes()
}

/// The bytes of [`HTTP_RESPONSE`].
fn http_response() -> (bytes: &'static [u8])
    ensures
        bytes@ == ascii(HTTP_RESPONSE@),
{
    proof {
        reveal_strlit(
            "HTTP/1.1 200\r\nContent-Type: text/plain\r\nContent-Length: 15\r\nConnection: keep-alive\r\n\r\nHello, world!\r\n",
        );
        broadcast use is_ascii_spec_bytes;

        assert(is_ascii(HTTP_RESPONSE));
        assert(HTTP_RESPONSE.spec_bytes() =~= ascii(HTTP_RESPONSE@));
    }
    HTTP_RESPONSE.as_bytes()
}

/// If no byte of `bytes` before `end` is a line feed, and `end` is the end or a line feed,
/// the first line is what stands before `end`.
proof fn lemma_line_of(bytes: Seq<u8>, end: int)
    requires
        0 <= end <= bytes.len(),
        forall|i: int| 0 <= i < end ==> bytes[i] != LINE_FEED,
        end < bytes.len() ==> bytes[end] == LINE_FEED,
    ensures
        line_of(bytes) == bytes.take(end),
    decreases end,
{
    if end > 0 {
        lemma_line_of(bytes.skip(1), end - 1);
        assert(seq![bytes[0]] + bytes.skip(1).take(end - 1) =~= bytes.take(end));
    } else {
        assert(bytes.take(0) =~= Seq::empty());
    }
}

/// The part of `bytes` before its first line feed.
fn first_line(bytes: &[u8]) -> (line: &[u8])
    ensures
        line@ == line_of(bytes@),
{
    let mut end: usize = 0;
    while end < bytes.len() && bytes[end] != LINE_FEED
        invariant
            end <= bytes@.len(),
            forall|i: int| 0 <= i < end ==> bytes@[i] != LINE_FEED,
        decreases bytes@.len() - end,
    {
        end = end + 1;
    }
    proof {
        lemma_line_of(bytes@, end as int);
        assert(bytes@.subrange(0, end as int) =~= bytes@.take(end as int));
    }
    vstd::slice::slice_subrange(bytes, 0, end)
}

/// Whether `byte` is ASCII white space.
fn white_space(byte: u8) -> (white: bool)
    ensures
        white == is_white_space(byte),
{
    byte == 0x20 || byte == 0x09 || byte == 0x0A || byte == 0x0C || byte == 0x0D
}

/// `bytes` without the white space at its start and at its end.
fn trim_ascii(bytes: &[u8]) -> (trim: &[u8])
    ensures
        trim@ == trimmed(bytes@),
{
    let mut start: usize = 0;
    assert(bytes@.skip(0) =~= bytes@);
    while start < bytes.len() && white_space(bytes[start])
        invariant
            start <= bytes@.len(),
            trimmed_start(bytes@) == trimmed_start(bytes@.skip(start as int)),
        decreases bytes@.len() - start,
    {
        assert(bytes@.skip(start as int).skip(1) =~= bytes@.skip(start + 1));
        start = start + 1;
    }
    let mut end: usize = bytes.len();
    assert(bytes@.subrange(start as int, end as int) =~= bytes@.skip(start as int));
    while start < end && white_space(bytes[end - 1])
        invariant
            start <= end <= bytes@.len(),
            trimmed(bytes@) == trimmed_end(bytes@.subrange(start as int, end as int)),
        decreases end,
    {
        assert(bytes@.subrange(start as int, end as int).drop_last() =~= bytes@.subrange(
            start as int,
            end - 1,
        ));
        end = end - 1;
    }
    vstd::slice::slice_subrange(bytes, start, end)
}

/// Whether two slices hold the same bytes.
fn same_bytes(left: &[u8], right: &[u8]) -> (same: bool)
    ensures
        same == (left@ == right@),
{
    if left.len() != right.len() {
        return false;
    }
    let mut i: usize = 0;
    while i < left.len()
        invariant
            i <= left@.len(),
            left@.len() == right@.len(),
            forall|j: int| 0 <= j < i ==> left@[j] == right@[j],
        decreases left@.len() - i,
    {
        if left[i] != right[i] {
            return false;
        }
        i = i + 1;
    }
    assert(left@ =~= right@);
    true
}

/// The HTTP protocol sends without delay; the echo protocol leaves the delay on.
pub proof fn only_http_sets_nodelay()
    ensures
        Echo::TCP_NODELAY == false,
        HttpHelloWorld::TCP_NODELAY == true,
{
}

/// The echo protocol answers every request, and the answer is the request.
pub proof fn echo_answers_with_the_request(request: Seq<u8>, answer: Option<Seq<u8>>)
    requires
        may_answer::<Echo>(request, answer),
    ensures
        answer == Some(request),
{
    assert(Seq::<u8>::empty() + request =~= request);
}

/// The HTTP protocol answers exactly the requests whose first line asks for the root, always
/// with the same response.
pub proof fn http_answers_root_get_only(request: Seq<u8>, answer: Option<Seq<u8>>)
    requires
        may_answer::<HttpHelloWorld>(request, answer),
    ensures
        answer == if is_root_get(request) {
            Some(ascii(HTTP_RESPONSE@))
        } else {
            None
        },
{
    assert(Seq::<u8>::empty() + ascii(HTTP_RESPONSE@) =~= ascii(HTTP_RESPONSE@));
}

/// Whatever follows the first line does not matter to the HTTP protocol.
pub proof fn http_reads_the_first_line_only(line: Seq<u8>, rest: Seq<u8>)
    requires
        !line.contains(LINE_FEED),
    ensures
        is_root_get(line.push(LINE_FEED) + rest) == is_root_get(line),
{
    let request = line.push(LINE_FEED) + rest;
    assert forall|i: int| 0 <= i < line.len() implies line[i] != LINE_FEED by {
        assert(line.contains(line[i]));
    }
    lemma_line_of(request, line.len() as int);
    lemma_line_of(line, line.len() as int);
    assert(request.take(line.len() as int) =~= line);
    assert(line.take(line.len() as int) =~= line);
}

} // verus!
