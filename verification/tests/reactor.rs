use echo_server::io::{ErrorKind, IoError};
use echo_server::reactor::{Control, EpollEvent, Reactor, Wait};
use echo_server::task::ReadyQueue;

fn event(fd: i32) -> EpollEvent {
    EpollEvent { events: libc::EPOLLIN as u32, data: fd as u64 }
}

fn registration(op: i32, fd: i32, flags: i32) -> Control {
    Control { epfd: 3, op, fd, event: Some(EpollEvent { events: flags as u32, data: fd as u64 }) }
}

#[test]
fn control_calls_match_libc() {
    let reactor = Reactor::new(3, 4, 16);
    let read = libc::EPOLLIN | libc::EPOLLONESHOT;
    let read_write = libc::EPOLLIN | libc::EPOLLOUT | libc::EPOLLONESHOT;

    assert_eq!(reactor.add_read(7), registration(libc::EPOLL_CTL_ADD, 7, read));
    assert_eq!(reactor.modify_read(7), registration(libc::EPOLL_CTL_MOD, 7, read));
    assert_eq!(reactor.modify_read_write(7), registration(libc::EPOLL_CTL_MOD, 7, read_write));
    assert_eq!(
        reactor.unregister(7),
        Control { epfd: 3, op: libc::EPOLL_CTL_DEL, fd: 7, event: None },
    );
}

#[test]
fn registered_flags_have_exact_values() {
    let reactor = Reactor::new(3, 4, 16);
    assert_eq!(reactor.add_read(7).event.unwrap().events, 0x4000_0001);
    assert_eq!(reactor.modify_read_write(7).event.unwrap().events, 0x4000_0005);
    assert_eq!(reactor.add_read(7).op, 1);
    assert_eq!(reactor.unregister(7).op, 2);
    assert_eq!(reactor.modify_read(7).op, 3);
}

#[test]
fn event_capacity_is_at_least_one() {
    assert_eq!(Reactor::new(3, 4, 0).max_events(), 1);
    assert_eq!(Reactor::new(3, 4, 1).max_events(), 1);
    assert_eq!(Reactor::new(3, 4, 1024).max_events(), 1024);
}

#[test]
fn events_are_queued_in_order() {
    let reactor = Reactor::new(3, 4, 16);
    let mut ready = ReadyQueue::from([1]);
    let result = reactor.wait(Ok(vec![event(9), event(7), event(9)]), &mut ready);
    assert_eq!(result, Ok(Wait::Ready));
    assert_eq!(ready, [1, 9, 7, 9]);
}

#[test]
fn shutdown_cuts_the_events_short() {
    let reactor = Reactor::new(3, 4, 16);
    let mut ready = ReadyQueue::new();
    let result = reactor.wait(Ok(vec![event(9), event(4), event(7)]), &mut ready);
    assert_eq!(result, Ok(Wait::Shutdown));
    assert_eq!(ready, [9]);
}

#[test]
fn wait_without_events_queues_nothing() {
    let reactor = Reactor::new(3, 4, 16);
    let mut ready = ReadyQueue::from([5]);
    assert_eq!(reactor.wait(Ok(vec![]), &mut ready), Ok(Wait::Ready));
    assert_eq!(ready, [5]);
}

#[test]
fn wait_errors() {
    let reactor = Reactor::new(3, 4, 16);
    let mut ready = ReadyQueue::from([5]);

    let interrupted = IoError { kind: ErrorKind::Interrupted, code: libc::EINTR };
    assert_eq!(reactor.wait(Err(interrupted), &mut ready), Ok(Wait::Ready));
    assert_eq!(ready, [5]);

    let invalid = IoError { kind: ErrorKind::Other, code: libc::EINVAL };
    assert_eq!(reactor.wait(Err(invalid), &mut ready), Err(invalid));
    assert_eq!(ready, [5]);
}

#[test]
fn descriptors_survive_the_round_trip() {
    let reactor = Reactor::new(3, 4, 16);
    for fd in [0, 1, 7, i32::MAX, -1, i32::MIN] {
        let mut ready = ReadyQueue::new();
        let event = reactor.add_read(fd).event.unwrap();
        assert_eq!(reactor.wait(Ok(vec![event]), &mut ready), Ok(Wait::Ready));
        assert_eq!(ready, [fd]);
    }
}

#[test]
fn reactor_gives_up_its_descriptors_in_order() {
    assert_eq!(Reactor::new(3, 4, 16).into_fds(), [4, 3]);
}
