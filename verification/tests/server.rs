use echo_server::io::{ErrorKind, IoError, Origin, Reply, Request};
use echo_server::protocol::{Echo, HttpHelloWorld, Protocol};
use echo_server::reactor::{EpollEvent, Reactor};
use echo_server::server::SocketAddrV4;
use echo_server::startup::{MaskChange, Setup, SetupCall, Startup};
use echo_server::{Server, ServerConfig};

const LISTENER: i32 = 5;
const EPOLL: i32 = 6;
const SHUTDOWN: i32 = 7;

fn reactor() -> Reactor {
    Reactor::new(EPOLL, SHUTDOWN, 32)
}

fn failure(kind: ErrorKind) -> IoError {
    IoError { kind, code: 99 }
}

fn config() -> ServerConfig {
    ServerConfig {
        addr: SocketAddrV4 { octets: [127, 0, 0, 1], port: 8080 },
        task_capacity: 4,
        event_capacity: 32,
    }
}

fn proceed<P: Protocol>(startup: Startup<P>, value: i32) -> Startup<P> {
    assert!(startup.expects(&Ok(value)));
    match startup.resume(Ok(value)) {
        Setup::Continue(startup) => startup,
        _ => panic!("the set-up should go on"),
    }
}

fn server<P: Protocol>() -> Server<P> {
    let mut startup = Server::<P>::bind(config());
    for value in [LISTENER, 0, EPOLL, 0, 0, 0, SHUTDOWN, 0] {
        startup = proceed(startup, value);
    }
    match startup.resume(Ok(0)) {
        Setup::Ready(server) => server,
        _ => panic!("the server should be ready"),
    }
}

fn resume<P: Protocol>(server: &mut Server<P>, reply: Reply) -> Request {
    assert!(server.expects(&reply));
    server.resume(reply)
}

fn done() -> Reply {
    Reply::Done(Ok(()))
}

fn events(fds: &[i32]) -> Reply {
    Reply::Polled(Ok(fds
        .iter()
        .map(|fd| EpollEvent { events: 1, data: *fd as u64 })
        .collect()))
}

fn no_client() -> Reply {
    Reply::Accepted(Err(failure(ErrorKind::WouldBlock)))
}

fn rearm_read(fd: i32) -> Request {
    Request::Control { call: reactor().modify_read(fd) }
}

const POLL: Request = Request::Poll { epfd: EPOLL, max_events: 32 };
const ACCEPT: Request = Request::Accept { listener: LISTENER };

fn accept<P: Protocol>(server: &mut Server<P>, client: i32) {
    assert_eq!(
        resume(server, Reply::Accepted(Ok(client))),
        Request::SetNonblocking { fd: client },
    );
    assert_eq!(
        resume(server, done()),
        Request::SetNodelay { fd: client, nodelay: P::TCP_NODELAY },
    );
    assert_eq!(
        resume(server, done()),
        Request::Control { call: reactor().add_read(client) },
    );
    assert_eq!(resume(server, done()), ACCEPT);
}

#[test]
fn default_configuration() {
    let config = ServerConfig::default();
    assert_eq!(config.addr, SocketAddrV4 { octets: [0, 0, 0, 0], port: 1337 });
    assert_eq!(config.task_capacity, 1024);
    assert_eq!(config.event_capacity, 1024);
}

#[test]
fn set_up_calls_come_in_order() {
    let startup = Server::<Echo>::bind(config());
    assert_eq!(startup.call(), SetupCall::Listen { addr: config().addr });
    let startup = proceed(startup, LISTENER);
    assert_eq!(startup.call(), SetupCall::SetNonblocking { fd: LISTENER });
    let startup = proceed(startup, 0);
    assert_eq!(startup.call(), SetupCall::CreateEpoll { close_on_exec: true });
    let startup = proceed(startup, EPOLL);
    assert_eq!(startup.call(), SetupCall::EmptySignalSet);
    let startup = proceed(startup, 0);
    assert_eq!(startup.call(), SetupCall::AddSignal { signal: libc::SIGINT });
    assert_eq!(startup.call(), SetupCall::AddSignal { signal: 2 });
    let startup = proceed(startup, 0);
    assert_eq!(startup.call(), SetupCall::ChangeMask { how: MaskChange::Block });
    let startup = proceed(startup, 0);
    assert_eq!(
        startup.call(),
        SetupCall::CreateSignalFd { nonblocking: true, close_on_exec: true },
    );
    let startup = proceed(startup, SHUTDOWN);
    assert_eq!(startup.call(), SetupCall::Control { call: reactor().add_read(SHUTDOWN) });
    let startup = proceed(startup, 0);
    assert_eq!(startup.call(), SetupCall::Control { call: reactor().add_read(LISTENER) });
    assert!(matches!(startup.resume(Ok(0)), Setup::Ready(_)));
}

#[test]
fn failed_set_up_closes_what_it_owns() {
    let values = [LISTENER, 0, EPOLL, 0, 0, 0, SHUTDOWN, 0];
    for calls in 0..9 {
        let mut startup = Server::<Echo>::bind(config());
        for value in &values[..calls] {
            startup = proceed(startup, *value);
        }
        let expected: &[i32] = match calls {
            0 => &[],
            7 | 8 => &[SHUTDOWN, EPOLL, LISTENER],
            _ => &[LISTENER],
        };
        match startup.resume(Err(failure(ErrorKind::Other))) {
            Setup::Failed { error, close } => {
                assert_eq!(error, failure(ErrorKind::Other));
                assert_eq!(close, expected);
            }
            _ => panic!("the set-up should fail"),
        }
    }
}

#[test]
fn listening_socket_must_be_a_descriptor() {
    let startup = Server::<Echo>::bind(config());
    assert!(!startup.expects(&Ok(-1)));
    assert!(startup.expects(&Ok(0)));
    assert!(startup.expects(&Err(failure(ErrorKind::Other))));
}

#[test]
fn set_up_descriptors_must_not_be_negative() {
    let mut startup = Server::<Echo>::bind(config());
    for (value, descriptor) in [
        (LISTENER, true),
        (0, false),
        (EPOLL, true),
        (0, false),
        (0, false),
        (0, false),
        (SHUTDOWN, true),
        (0, false),
    ] {
        assert_eq!(startup.expects(&Ok(-1)), !descriptor);
        startup = proceed(startup, value);
    }
}

#[test]
fn idle_server_waits_for_shutdown() {
    let mut server = server::<Echo>();
    assert_eq!(server.run(), ACCEPT);
    assert_eq!(resume(&mut server, no_client()), rearm_read(LISTENER));
    assert_eq!(resume(&mut server, done()), POLL);
    assert_eq!(resume(&mut server, events(&[LISTENER])), ACCEPT);
    assert_eq!(resume(&mut server, no_client()), rearm_read(LISTENER));
    assert_eq!(resume(&mut server, done()), POLL);
    assert_eq!(resume(&mut server, events(&[SHUTDOWN])), Request::Exit { result: Ok(()) });
}

#[test]
fn client_without_its_options_is_dropped() {
    let mut server = server::<Echo>();
    assert_eq!(server.run(), ACCEPT);
    accept(&mut server, 8);

    let failed = || Reply::Done(Err(failure(ErrorKind::Other)));
    resume(&mut server, Reply::Accepted(Ok(9)));
    assert_eq!(resume(&mut server, failed()), Request::Close { fd: 9 });
    assert_eq!(resume(&mut server, done()), ACCEPT);

    resume(&mut server, Reply::Accepted(Ok(10)));
    resume(&mut server, done());
    assert_eq!(resume(&mut server, failed()), Request::Close { fd: 10 });
    assert_eq!(resume(&mut server, done()), ACCEPT);

    assert_eq!(resume(&mut server, no_client()), rearm_read(LISTENER));
    assert_eq!(resume(&mut server, done()), Request::Read { fd: 8, len: 1024 });
}

#[test]
fn client_that_cannot_be_registered_ends_the_loop() {
    let mut server = server::<Echo>();
    server.run();
    resume(&mut server, Reply::Accepted(Ok(9)));
    resume(&mut server, done());
    resume(&mut server, done());
    let error = failure(ErrorKind::Other);
    assert_eq!(
        resume(&mut server, Reply::Done(Err(error))),
        Request::Exit { result: Err(error) },
    );
}

/// Keeps the set of registered sockets as epoll does, and holds every modify call to it.
fn track(registered: &mut Vec<i32>, request: &Request) {
    match request {
        Request::Control { call } if call.op == libc::EPOLL_CTL_ADD => registered.push(call.fd),
        Request::Control { call } if call.op == libc::EPOLL_CTL_MOD => {
            assert!(registered.contains(&call.fd));
        }
        Request::Control { call } => registered.retain(|fd| *fd != call.fd),
        Request::Close { fd } => registered.retain(|other| other != fd),
        _ => {}
    }
}

#[test]
fn only_registered_sockets_are_modified() {
    let mut startup = Server::<Echo>::bind(config());
    let mut registered = vec![];
    for value in [LISTENER, 0, EPOLL, 0, 0, 0, SHUTDOWN, 0] {
        if let SetupCall::Control { call } = startup.call() {
            registered.push(call.fd);
        }
        startup = proceed(startup, value);
    }
    if let SetupCall::Control { call } = startup.call() {
        registered.push(call.fd);
    }
    assert_eq!(registered, [SHUTDOWN, LISTENER]);

    let mut server = server::<Echo>();
    let mut request = server.run();
    let blocked = || failure(ErrorKind::WouldBlock);
    let replies = [
        Reply::Accepted(Ok(9)),
        done(),
        done(),
        done(),
        no_client(),
        done(),
        Reply::Received(Ok(b"abc".to_vec())),
        Reply::Wrote(Err(blocked())),
        done(),
        events(&[LISTENER, 9]),
        no_client(),
        done(),
        Reply::Wrote(Ok(3)),
        done(),
        events(&[9]),
        Reply::Received(Ok(vec![])),
        done(),
        events(&[LISTENER]),
        no_client(),
    ];
    for reply in replies {
        track(&mut registered, &request);
        request = resume(&mut server, reply);
    }
    track(&mut registered, &request);
    assert_eq!(registered, [SHUTDOWN, LISTENER]);
}

#[test]
fn echo_session_sends_what_it_reads() {
    let mut server = server::<Echo>();
    server.run();
    accept(&mut server, 9);
    resume(&mut server, no_client());
    resume(&mut server, done());
    let mut read = Vec::new();
    let mut sent = Vec::new();
    for request in [&b"one"[..], b"second", b"3"] {
        read.extend_from_slice(request);
        resume(&mut server, Reply::Received(Ok(request.to_vec())));
        while !server.outgoing().is_empty() {
            sent.push(server.outgoing()[0]);
            resume(&mut server, Reply::Wrote(Ok(1)));
            assert!(read.starts_with(&sent));
        }
        resume(&mut server, done());
        resume(&mut server, events(&[9]));
    }
    assert_eq!(sent, b"onesecond3");
}

#[test]
fn server_accepts_first() {
    assert_eq!(server::<Echo>().run(), ACCEPT);
}

#[test]
fn echo_session() {
    let mut server = server::<Echo>();
    assert_eq!(server.run(), ACCEPT);
    accept(&mut server, 9);
    assert_eq!(resume(&mut server, no_client()), rearm_read(LISTENER));
    assert_eq!(resume(&mut server, done()), Request::Read { fd: 9, len: 1024 });

    let request = resume(&mut server, Reply::Received(Ok(b"hello".to_vec())));
    assert_eq!(request, Request::Write { fd: 9 });
    assert_eq!(server.outgoing(), b"hello");
    assert_eq!(resume(&mut server, Reply::Wrote(Ok(2))), Request::Write { fd: 9 });
    assert_eq!(server.outgoing(), b"llo");

    let request = resume(&mut server, Reply::Wrote(Err(failure(ErrorKind::WouldBlock))));
    assert_eq!(request, Request::Control { call: reactor().modify_read_write(9) });
    assert_eq!(resume(&mut server, done()), POLL);

    assert_eq!(resume(&mut server, events(&[9])), Request::Write { fd: 9 });
    assert_eq!(server.outgoing(), b"llo");
    assert_eq!(resume(&mut server, Reply::Wrote(Ok(3))), rearm_read(9));
    assert!(server.outgoing().is_empty());
    assert_eq!(resume(&mut server, done()), POLL);

    assert_eq!(resume(&mut server, events(&[9])), Request::Read { fd: 9, len: 1024 });
    assert_eq!(resume(&mut server, Reply::Received(Ok(vec![]))), Request::Close { fd: 9 });
    assert_eq!(resume(&mut server, done()), POLL);
    assert_eq!(resume(&mut server, events(&[9])), POLL);
}

#[test]
fn http_session() {
    let mut server = server::<HttpHelloWorld>();
    assert_eq!(server.run(), ACCEPT);
    accept(&mut server, 9);
    accept(&mut server, 10);
    assert_eq!(resume(&mut server, no_client()), rearm_read(LISTENER));
    assert_eq!(resume(&mut server, done()), Request::Read { fd: 9, len: 1024 });

    let request = Reply::Received(Ok(b"GET / HTTP/1.1\r\n\r\n".to_vec()));
    assert_eq!(resume(&mut server, request), Request::Write { fd: 9 });
    let len = server.outgoing().len();
    assert_eq!(len, 101);
    assert_eq!(resume(&mut server, Reply::Wrote(Ok(len))), rearm_read(9));
    assert_eq!(resume(&mut server, done()), Request::Read { fd: 10, len: 1024 });

    let request = Reply::Received(Ok(b"GET /nope HTTP/1.1\r\n\r\n".to_vec()));
    assert_eq!(resume(&mut server, request), Request::Close { fd: 10 });
    assert_eq!(resume(&mut server, done()), POLL);
}

#[test]
fn ready_tasks_run_in_order() {
    let mut server = server::<Echo>();
    server.run();
    accept(&mut server, 9);
    accept(&mut server, 10);
    resume(&mut server, no_client());
    assert_eq!(resume(&mut server, done()), Request::Read { fd: 9, len: 1024 });
    let blocked = || Reply::Received(Err(failure(ErrorKind::WouldBlock)));
    assert_eq!(resume(&mut server, blocked()), rearm_read(9));
    assert_eq!(resume(&mut server, done()), Request::Read { fd: 10, len: 1024 });
    assert_eq!(resume(&mut server, blocked()), rearm_read(10));
    assert_eq!(resume(&mut server, done()), POLL);

    let request = resume(&mut server, events(&[77, 10, LISTENER, 9]));
    assert_eq!(request, Request::Read { fd: 10, len: 1024 });
    resume(&mut server, blocked());
    assert_eq!(resume(&mut server, done()), ACCEPT);
    resume(&mut server, no_client());
    assert_eq!(resume(&mut server, done()), Request::Read { fd: 9, len: 1024 });
}

#[test]
fn shutdown_ends_the_loop() {
    let mut server = server::<Echo>();
    server.run();
    resume(&mut server, no_client());
    assert_eq!(resume(&mut server, done()), POLL);
    assert_eq!(
        resume(&mut server, events(&[LISTENER, SHUTDOWN])),
        Request::Exit { result: Ok(()) },
    );
    assert!(!server.expects(&done()));
    assert_eq!(server.release(), [SHUTDOWN, EPOLL]);
}

#[test]
fn interrupted_wait_is_repeated() {
    let mut server = server::<Echo>();
    server.run();
    resume(&mut server, no_client());
    assert_eq!(resume(&mut server, done()), POLL);
    assert_eq!(resume(&mut server, Reply::Polled(Err(failure(ErrorKind::Interrupted)))), POLL);
    let error = failure(ErrorKind::Other);
    assert_eq!(
        resume(&mut server, Reply::Polled(Err(error))),
        Request::Exit { result: Err(error) },
    );
}

#[test]
fn reactor_errors_end_the_loop() {
    let mut server = server::<Echo>();
    server.run();
    resume(&mut server, no_client());
    let error = failure(ErrorKind::Other);
    assert_eq!(
        resume(&mut server, Reply::Done(Err(error))),
        Request::Exit { result: Err(error) },
    );
}

#[test]
fn broken_listener_is_dropped() {
    let mut server = server::<Echo>();
    server.run();
    accept(&mut server, 9);
    let error = failure(ErrorKind::Other);
    assert_eq!(
        resume(&mut server, Reply::Accepted(Err(error))),
        Request::Control { call: reactor().unregister(LISTENER) },
    );
    assert_eq!(
        resume(&mut server, Reply::Done(Err(failure(ErrorKind::Other)))),
        Request::Report { origin: Origin::Acceptor, error },
    );
    assert_eq!(resume(&mut server, done()), Request::Close { fd: LISTENER });
    assert_eq!(resume(&mut server, done()), Request::Read { fd: 9, len: 1024 });
}

#[test]
fn read_error_is_reported_unless_it_is_a_reset() {
    let mut server = server::<Echo>();
    server.run();
    accept(&mut server, 9);
    accept(&mut server, 10);
    resume(&mut server, no_client());
    assert_eq!(resume(&mut server, done()), Request::Read { fd: 9, len: 1024 });
    let error = failure(ErrorKind::Other);
    assert_eq!(
        resume(&mut server, Reply::Received(Err(error))),
        Request::Report { origin: Origin::Handler, error },
    );
    assert_eq!(resume(&mut server, done()), Request::Close { fd: 9 });
    assert_eq!(resume(&mut server, done()), Request::Read { fd: 10, len: 1024 });
    let reset = failure(ErrorKind::ConnectionReset);
    assert_eq!(resume(&mut server, Reply::Received(Err(reset))), Request::Close { fd: 10 });
}

#[test]
fn other_tasks_are_untouched() {
    let mut server = server::<Echo>();
    server.run();
    accept(&mut server, 9);
    accept(&mut server, 10);
    resume(&mut server, no_client());
    resume(&mut server, done());
    resume(&mut server, Reply::Received(Ok(b"first".to_vec())));
    resume(&mut server, Reply::Wrote(Ok(1)));
    resume(&mut server, Reply::Wrote(Ok(0)));
    assert_eq!(resume(&mut server, done()), Request::Read { fd: 10, len: 1024 });
    resume(&mut server, Reply::Received(Ok(b"second".to_vec())));
    assert_eq!(server.outgoing(), b"second");
    let broken = Reply::Wrote(Err(failure(ErrorKind::Other)));
    assert_eq!(resume(&mut server, broken), Request::Close { fd: 10 });
    assert_eq!(resume(&mut server, done()), POLL);
    assert_eq!(resume(&mut server, events(&[10, 9])), Request::Write { fd: 9 });
    assert_eq!(server.outgoing(), b"irst");
}

#[test]
fn every_task_can_be_woken() {
    let mut server = server::<Echo>();
    server.run();
    for client in 10..20 {
        accept(&mut server, client);
    }
    resume(&mut server, no_client());
    for client in 10..20 {
        assert_eq!(resume(&mut server, done()), Request::Read { fd: client, len: 1024 });
        let blocked = Reply::Received(Err(failure(ErrorKind::WouldBlock)));
        assert_eq!(resume(&mut server, blocked), rearm_read(client));
    }
    assert_eq!(resume(&mut server, done()), POLL);
    for client in 10..20 {
        let woken = resume(&mut server, events(&[client]));
        assert_eq!(woken, Request::Read { fd: client, len: 1024 });
        assert_eq!(resume(&mut server, Reply::Received(Ok(vec![]))), Request::Close { fd: client });
        assert_eq!(resume(&mut server, done()), POLL);
    }
}
