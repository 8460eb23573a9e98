//! What the protocols answer, byte by byte.

use vstd::prelude::*;

use crate::connection::{bytes_of, may_follow, WriteSource};
use crate::io::{IoError, Reply};
use crate::protocol::{ascii, is_white_space, line_of, trimmed, trimmed_end, trimmed_start};
use crate::protocol::{may_answer, Echo, HttpHelloWorld, Protocol};
use crate::protocol::{HTTP_REQUEST_LINE, HTTP_RESPONSE};
use crate::task::may_answer_reply;

verus! {

/// The first line ends at the first line feed, or with the request.
proof fn lemma_line_end(bytes: Seq<u8>)
    ensures
        line_of(bytes).len() <= bytes.len(),
        line_of(bytes) == bytes.take(line_of(bytes).len() as int),
        forall|i: int| 0 <= i < line_of(bytes).len() ==> bytes[i] != 0x0A,
        line_of(bytes).len() < bytes.len() ==> bytes[line_of(bytes).len() as int] == 0x0A,
    decreases bytes.len(),
{
    if bytes.len() > 0 && bytes[0] != 0x0A {
        let rest = bytes.skip(1);
        lemma_line_end(rest);
        assert forall|i: int| 0 <= i < line_of(bytes).len() implies bytes[i] != 0x0A by {
            if i > 0 {
                assert(rest[i - 1] == bytes[i]);
            }
        }
        assert(line_of(bytes) =~= bytes.take(line_of(bytes).len() as int));
    } else {
        assert(line_of(bytes) =~= bytes.take(0));
    }
}

/// Trimming the start takes away the white space there, and nothing else.
proof fn lemma_start(bytes: Seq<u8>) -> (start: int)
    ensures
        0 <= start <= bytes.len(),
        trimmed_start(bytes) == bytes.skip(start),
        forall|i: int| 0 <= i < start ==> is_white_space(#[trigger] bytes[i]),
        start < bytes.len() ==> !is_white_space(bytes[start]),
    decreases bytes.len(),
{
    if bytes.len() > 0 && is_white_space(bytes[0]) {
        let rest = bytes.skip(1);
        let start = lemma_start(rest);
        assert(rest.skip(start) =~= bytes.skip(start + 1));
        assert forall|i: int| 0 <= i < start + 1 implies is_white_space(#[trigger] bytes[i]) by {
            if i > 0 {
                assert(rest[i - 1] == bytes[i]);
            }
        }
        start + 1
    } else {
        assert(bytes.skip(0) =~= bytes);
        0
    }
}

/// Trimming the end takes away the white space there, and nothing else.
proof fn lemma_end(bytes: Seq<u8>) -> (end: int)
    ensures
        0 <= end <= bytes.len(),
        trimmed_end(bytes) == bytes.take(end),
        forall|i: int| end <= i < bytes.len() ==> is_white_space(#[trigger] bytes[i]),
        end > 0 ==> !is_white_space(bytes[end - 1]),
    decreases bytes.len(),
{
    if bytes.len() > 0 && is_white_space(bytes.last()) {
        let rest = bytes.drop_last();
        let end = lemma_end(rest);
        assert(rest.take(end) =~= bytes.take(end));
        assert forall|i: int| end <= i < bytes.len() implies is_white_space(
            #[trigger] bytes[i],
        ) by {
            if i < bytes.len() - 1 {
                assert(rest[i] == bytes[i]);
            }
        }
        end
    } else {
        assert(bytes.take(bytes.len() as int) =~= bytes);
        bytes.len() as int
    }
}

/// The bytes of the accepted request line.
proof fn lemma_request_line()
    ensures
        ascii(HTTP_REQUEST_LINE@) == seq![
            71u8, 69u8, 84u8, 32u8, 47u8, 32u8, 72u8, 84u8, 84u8, 80u8, 47u8, 49u8, 46u8, 49u8,
        ],
{
    reveal_strlit("GET / HTTP/1.1");
    assert(ascii(HTTP_REQUEST_LINE@) =~= seq![
        71u8, 69u8, 84u8, 32u8, 47u8, 32u8, 72u8, 84u8, 84u8, 80u8, 47u8, 49u8, 46u8, 49u8,
    ]);
}

/// A request that the HTTP protocol accepts holds, before its first line feed, white space, the
/// 14 bytes of `GET / HTTP/1.1`, and white space, and nothing more. The 14 bytes stand at the
/// returned `start`, and the line ends at the returned `end`.
pub proof fn http_accepts_no_other_line(
    request: Seq<u8>,
    before: Seq<u8>,
    accepted: bool,
    after: Seq<u8>,
) -> (place: (int, int))
    requires
        HttpHelloWorld::prepares(request, before, accepted, after),
        accepted,
    ensures
        ({
            let (start, end) = place;
            &&& 0 <= start && start + 14 <= end && end <= request.len()
            &&& forall|i: int| 0 <= i < end ==> #[trigger] request[i] != 0x0A
            &&& end < request.len() ==> request[end] == 0x0A
            &&& request.subrange(start, start + 14) == seq![
                71u8, 69u8, 84u8, 32u8, 47u8, 32u8, 72u8, 84u8, 84u8, 80u8, 47u8, 49u8, 46u8,
                49u8,
            ]
            &&& forall|i: int|
                (0 <= i < start || start + 14 <= i < end) ==> {
                    ||| #[trigger] request[i] == 0x20
                    ||| request[i] == 0x09
                    ||| request[i] == 0x0C
                    ||| request[i] == 0x0D
                }
        }),
{
    lemma_request_line();
    lemma_line_end(request);
    let line = line_of(request);
    let end = line.len() as int;
    let start = lemma_start(line);
    let tail = line.skip(start);
    let cut = lemma_end(tail);
    assert(trimmed(line) == tail.take(cut));
    assert(cut == 14);
    assert(request.subrange(start, start + 14) =~= tail.take(14));
    assert forall|i: int| (0 <= i < start || start + 14 <= i < end) implies {
        ||| #[trigger] request[i] == 0x20
        ||| request[i] == 0x09
        ||| request[i] == 0x0C
        ||| request[i] == 0x0D
    } by {
        assert(line[i] == request[i]);
        if i >= start + 14 {
            assert(tail[i - start] == line[i]);
        }
    }
    (start, end)
}

/// Every request with such a first line is accepted, whatever follows the line.
pub proof fn http_accepts_every_root_get(
    request: Seq<u8>,
    before: Seq<u8>,
    accepted: bool,
    after: Seq<u8>,
    start: int,
    end: int,
)
    requires
        HttpHelloWorld::prepares(request, before, accepted, after),
        0 <= start,
        start + 14 <= end,
        end <= request.len(),
        forall|i: int| 0 <= i < end ==> #[trigger] request[i] != 0x0A,
        end < request.len() ==> request[end] == 0x0A,
        request.subrange(start, start + 14) == seq![
            71u8, 69u8, 84u8, 32u8, 47u8, 32u8, 72u8, 84u8, 84u8, 80u8, 47u8, 49u8, 46u8, 49u8,
        ],
        forall|i: int|
            (0 <= i < start || start + 14 <= i < end) ==> {
                ||| #[trigger] request[i] == 0x20
                ||| request[i] == 0x09
                ||| request[i] == 0x0C
                ||| request[i] == 0x0D
            },
    ensures
        accepted,
{
    lemma_request_line();
    lemma_line_end(request);
    let line = line_of(request);
    assert(line.len() == end) by {
        if line.len() < end {
            assert(request[line.len() as int] == 0x0A);
        }
        if line.len() > end {
            assert(request[end] == 0x0A);
        }
    }
    let wanted = request.subrange(start, start + 14);
    assert(wanted[0] == request[start] && wanted[13] == request[start + 13]);
    let at = lemma_start(line);
    assert(at == start) by {
        assert(line[start] == 71);
        if at < start {
            assert(line[at] == request[at]);
        }
    }
    let tail = line.skip(start);
    let cut = lemma_end(tail);
    assert(cut == 14) by {
        assert(tail[13] == 49);
        if cut > 14 {
            assert(tail[cut - 1] == request[start + cut - 1]);
        }
    }
    assert(tail.take(14) =~= wanted);
}

/// A refused request leaves the buffer as it was; an accepted one gets the response behind what
/// the buffer held, byte for byte.
pub proof fn http_response_bytes(
    request: Seq<u8>,
    before: Seq<u8>,
    accepted: bool,
    after: Seq<u8>,
)
    requires
        HttpHelloWorld::prepares(request, before, accepted, after),
    ensures
        !accepted ==> after == before,
        accepted ==> {
            &&& after.len() == before.len() + 101
            &&& forall|i: int| 0 <= i < before.len() ==> after[i] == before[i]
            &&& forall|i: int|
                0 <= i < 101 ==> #[trigger] after[before.len() + i]
                    == "HTTP/1.1 200\r\nContent-Type: text/plain\r\nContent-Length: 15\r\nConnection: keep-alive\r\n\r\nHello, world!\r\n"@[i] as u8
        },
{
    reveal_strlit(
        "HTTP/1.1 200\r\nContent-Type: text/plain\r\nContent-Length: 15\r\nConnection: keep-alive\r\n\r\nHello, world!\r\n",
    );
    if accepted {
        assert forall|i: int| 0 <= i < 101 implies #[trigger] after[before.len() + i]
            == "HTTP/1.1 200\r\nContent-Type: text/plain\r\nContent-Length: 15\r\nConnection: keep-alive\r\n\r\nHello, world!\r\n"@[i] as u8 by {
            assert(ascii(HTTP_RESPONSE@)[i] == HTTP_RESPONSE@[i] as u8);
        }
    }
}

/// What the HTTP protocol answers is what it prepares in an empty buffer.
pub proof fn http_answer_is_what_it_prepares(request: Seq<u8>, answer: Option<Seq<u8>>)
    requires
        may_answer::<HttpHelloWorld>(request, answer),
    ensures
        match answer {
            Some(response) => HttpHelloWorld::prepares(request, Seq::empty(), true, response),
            None => HttpHelloWorld::prepares(request, Seq::empty(), false, Seq::empty()),
        },
{
}

/// The echo protocol accepts every request and puts its bytes, in order, behind what the buffer
/// held.
pub proof fn echo_appends_the_request(
    request: Seq<u8>,
    before: Seq<u8>,
    accepted: bool,
    after: Seq<u8>,
)
    requires
        Echo::prepares(request, before, accepted, after),
    ensures
        accepted,
        after.len() == before.len() + request.len(),
        forall|i: int| 0 <= i < before.len() ==> after[i] == before[i],
        forall|i: int| 0 <= i < request.len() ==> #[trigger] after[before.len() + i] == request[i],
{
}

/// A fixed response is the answer, whatever the protocol would prepare.
pub proof fn fixed_response_is_the_answer<P: Protocol>(
    request: Seq<u8>,
    answer: Option<Seq<u8>>,
    response: Seq<u8>,
)
    requires
        may_answer::<P>(request, answer),
        forall|bytes: &[u8], fixed: Option<&'static [u8]>| #[trigger]
            call_ensures(P::static_response, (bytes,), fixed) && bytes@ == request ==> {
                &&& fixed is Some
                &&& (fixed->0)@ == response
            },
    ensures
        answer == Some(response),
{
}

/// Whatever holds of every fixed response that the protocol can give, and of everything that it
/// can prepare in an empty buffer, holds of its answer.
pub proof fn answer_comes_from_the_protocol<P: Protocol>(
    request: Seq<u8>,
    answer: Option<Seq<u8>>,
    property: spec_fn(Option<Seq<u8>>) -> bool,
)
    requires
        may_answer::<P>(request, answer),
        forall|bytes: &[u8], fixed: Option<&'static [u8]>| #[trigger]
            call_ensures(P::static_response, (bytes,), fixed) && bytes@ == request ==> (
            fixed matches Some(response) ==> property(Some(response@))),
        forall|accepted: bool, left: Seq<u8>| #[trigger]
            P::prepares(request, Seq::empty(), accepted, left) ==> property(
                if accepted {
                    Some(left)
                } else {
                    None
                },
            ),
    ensures
        property(answer),
{
}

/// The answer to what a read brought is the protocol's answer to those bytes.
pub proof fn answer_is_to_the_bytes_read<P: Protocol>(
    bytes: Vec<u8>,
    outcome: Result<Vec<u8>, IoError>,
    answer: Option<Seq<u8>>,
)
    requires
        bytes@.len() > 0,
        outcome == Ok::<Vec<u8>, IoError>(bytes),
        may_follow::<P>(outcome, answer) || may_answer_reply::<P>(
            Reply::Received(outcome),
            answer,
        ),
    ensures
        may_answer::<P>(bytes@, answer),
{
}

/// A write source holds the bytes that it was made of.
pub proof fn write_source_holds_its_bytes(fixed: &'static [u8], buffer: Vec<u8>)
    ensures
        bytes_of(Some(WriteSource::Static(fixed))) == Some(fixed@),
        bytes_of(Some(WriteSource::Buffered(buffer))) == Some(buffer@),
        bytes_of(None) == None::<Seq<u8>>,
{
}

} // verus!
