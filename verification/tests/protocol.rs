use echo_server::protocol::{Echo, HttpHelloWorld, Protocol};

#[test]
fn echo_returns_exact_request_bytes() {
    let mut response = Vec::new();

    assert!(Echo::prepare_response(b"abc\0def", &mut response));
    assert_eq!(response, b"abc\0def");
}

#[test]
fn http_accepts_root_get_request() {
    let mut response = Vec::new();

    assert!(HttpHelloWorld::prepare_response(
        b"GET / HTTP/1.1\r\nHost: localhost\r\n\r\n",
        &mut response,
    ));
    assert!(response.starts_with(b"HTTP/1.1 200\r\n"));
}

#[test]
fn http_rejects_other_request_lines() {
    let mut response = Vec::new();

    assert!(!HttpHelloWorld::prepare_response(
        b"GET /nope HTTP/1.1\r\n\r\n",
        &mut response,
    ));
    assert!(response.is_empty());
}

#[test]
fn http_response_is_exact() {
    let mut response = Vec::new();

    assert!(HttpHelloWorld::prepare_response(b"GET / HTTP/1.1", &mut response));
    assert_eq!(
        response,
        b"HTTP/1.1 200\r\nContent-Type: text/plain\r\nContent-Length: 15\r\nConnection: keep-alive\r\n\r\nHello, world!\r\n"
    );
    let text = String::from_utf8(response).unwrap();
    let (_, body) = text.split_once("\r\n\r\n").unwrap();
    assert_eq!(body.len(), 15);
}

#[test]
fn http_trims_the_request_line() {
    for request in [
        &b" \t\x0C\rGET / HTTP/1.1 \t\x0C\r\nHost: x"[..],
        b"GET / HTTP/1.1\n",
        b"GET / HTTP/1.1\r",
    ] {
        let mut response = Vec::new();
        assert!(HttpHelloWorld::prepare_response(request, &mut response));
        assert!(!response.is_empty());
    }
}

#[test]
fn http_reads_only_the_first_line() {
    for request in [
        &b""[..],
        b"\n",
        b"   ",
        b"\nGET / HTTP/1.1\r\n",
        b"\x0BGET / HTTP/1.1",
        b"GET / HTTP/1.1x",
        b"GET / HTTP/1.",
        b"get / http/1.1",
        b"GET  / HTTP/1.1",
    ] {
        let mut response = Vec::new();
        assert!(!HttpHelloWorld::prepare_response(request, &mut response));
        assert!(response.is_empty());
    }
}

#[test]
fn responses_are_appended() {
    let mut response = b"before ".to_vec();
    assert!(Echo::prepare_response(b"after", &mut response));
    assert_eq!(response, b"before after");

    let mut response = b"kept".to_vec();
    assert!(!HttpHelloWorld::prepare_response(b"POST / HTTP/1.1", &mut response));
    assert_eq!(response, b"kept");
}

#[test]
fn echo_answers_an_empty_request() {
    let mut response = Vec::new();
    assert!(Echo::prepare_response(b"", &mut response));
    assert!(response.is_empty());
}

#[test]
fn protocols_have_no_fixed_response_unless_they_define_one() {
    assert_eq!(Echo::static_response(b"abc"), None);
    assert_eq!(HttpHelloWorld::static_response(b"GET / HTTP/1.1"), None);
}

#[test]
fn only_http_disables_delays() {
    assert_eq!(Echo::TCP_NODELAY, false);
    assert_eq!(HttpHelloWorld::TCP_NODELAY, true);
}
