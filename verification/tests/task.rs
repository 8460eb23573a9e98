use echo_server::acceptor::Acceptor;
use echo_server::connection::Connection;
use echo_server::io::{ErrorKind, IoError, RawFd, Reply};
use echo_server::protocol::Protocol;
use echo_server::step::{Interest, Phase, Step};
use echo_server::task::{ReadyQueue, Task, TaskStatus, TaskStorage};

struct TestProtocol;

impl Protocol for TestProtocol {
    const TCP_NODELAY: bool = false;

    fn prepare_response(_request: &[u8], _response: &mut Vec<u8>) -> bool {
        false
    }
}

fn task() -> Task<TestProtocol> {
    Task::from(Acceptor::new(9))
}

#[test]
fn storage_takes_tasks_by_fd() {
    let mut storage = TaskStorage::with_capacity(4);

    storage.insert(3, task());
    storage.insert(5, task());

    let (_, entry) = storage.take(5).unwrap();
    assert_eq!(entry.fd, 5);
    assert!(storage.take(5).is_none());

    let (_, entry) = storage.take(3).unwrap();
    assert_eq!(entry.fd, 3);
}

#[test]
fn storage_grows_to_high_fd() {
    let mut storage = TaskStorage::with_capacity(1);
    let high_fd: RawFd = 128;

    storage.insert(high_fd, task());

    let (_, entry) = storage.take(high_fd).unwrap();
    assert_eq!(entry.fd, high_fd);
}

#[test]
fn storage_puts_and_removes_by_index() {
    let mut storage = TaskStorage::with_capacity(4);

    storage.insert(3, task());
    let (index, entry) = storage.take(3).unwrap();

    storage.put(index, entry);
    assert!(storage.take(3).is_some());

    storage.insert(3, task());
    let (index, _) = storage.take(3).unwrap();
    storage.remove(index);
    assert!(storage.take(3).is_none());
}

#[test]
fn storage_has_nothing_for_unknown_descriptors() {
    let mut storage: TaskStorage<TestProtocol> = TaskStorage::with_capacity(2);

    assert!(storage.take(0).is_none());
    assert!(storage.take(2).is_none());
    assert!(storage.take(RawFd::MAX).is_none());
    assert!(storage.take(-1).is_none());
    assert!(storage.take(RawFd::MIN).is_none());
}

#[test]
fn storage_replaces_a_task_of_the_same_descriptor() {
    let mut storage: TaskStorage<TestProtocol> = TaskStorage::with_capacity(0);

    storage.insert(2, task());
    storage.insert(2, Task::from(Connection::new(2)));

    let (index, entry) = storage.take(2).unwrap();
    assert_eq!(index, 2);
    assert!(matches!(entry.task, Task::Connection(_)));
    assert_eq!(entry.task.fd(), 2);
}

#[test]
fn pending_tasks_stay() {
    assert!(TaskStatus::Pending.is_pending());
    assert!(!TaskStatus::Complete.is_pending());
}

#[test]
fn tasks_start_with_their_first_call() {
    assert_eq!(task().handle(), Step::Ask(Phase::Accept));
    let mut connection: Task<TestProtocol> = Task::from(Connection::new(4));
    assert_eq!(connection.handle(), Step::Ask(Phase::Read));
}

fn failure(kind: ErrorKind) -> IoError {
    IoError { kind, code: 7 }
}

fn resume(phase: Phase, reply: Reply) -> (Step, ReadyQueue, TaskStorage<TestProtocol>) {
    let mut acceptor = task();
    let mut ready = ReadyQueue::new();
    let mut tasks = TaskStorage::with_capacity(0);
    assert!(acceptor.expects(phase, &reply));
    let step = acceptor.resume(phase, reply, &mut ready, &mut tasks);
    (step, ready, tasks)
}

#[test]
fn acceptor_sets_up_each_client() {
    let (step, _, _) = resume(Phase::Accept, Reply::Accepted(Ok(12)));
    assert_eq!(step, Step::Ask(Phase::SetNonblocking(12)));

    let (step, _, _) = resume(Phase::SetNonblocking(12), Reply::Done(Ok(())));
    assert_eq!(step, Step::Ask(Phase::SetNodelay(12)));

    let (step, ready, mut tasks) = resume(Phase::SetNodelay(12), Reply::Done(Ok(())));
    assert_eq!(step, Step::Ask(Phase::Register(12)));
    assert!(ready.is_empty());
    assert!(tasks.take(12).is_none());

    let (step, ready, mut tasks) = resume(Phase::Register(12), Reply::Done(Ok(())));
    assert_eq!(step, Step::Ask(Phase::Accept));
    assert_eq!(ready, [12]);
    let (_, entry) = tasks.take(12).unwrap();
    assert_eq!(entry.fd, 12);
    assert_eq!(entry.task.fd(), 12);
}

#[test]
fn acceptor_fails_when_a_client_cannot_be_registered() {
    let error = failure(ErrorKind::Other);
    let (step, ready, mut tasks) = resume(Phase::Register(12), Reply::Done(Err(error)));
    assert_eq!(step, Step::Fail(error));
    assert!(ready.is_empty());
    assert!(tasks.take(12).is_none());
}

#[test]
fn acceptor_drops_a_client_without_its_options() {
    let error = failure(ErrorKind::Other);
    for phase in [Phase::SetNonblocking(12), Phase::SetNodelay(12)] {
        let (step, ready, mut tasks) = resume(phase, Reply::Done(Err(error)));
        assert_eq!(step, Step::Ask(Phase::Discard(12)));
        assert!(ready.is_empty());
        assert!(tasks.take(12).is_none());
    }
    for result in [Ok(()), Err(error)] {
        let (step, _, _) = resume(Phase::Discard(12), Reply::Done(result));
        assert_eq!(step, Step::Ask(Phase::Accept));
    }
}

#[test]
fn acceptor_waits_for_clients() {
    let (step, _, _) = resume(
        Phase::Accept,
        Reply::Accepted(Err(failure(ErrorKind::WouldBlock))),
    );
    assert_eq!(step, Step::Ask(Phase::Rearm(Interest::Read)));

    let (step, _, _) = resume(Phase::Rearm(Interest::Read), Reply::Done(Ok(())));
    assert_eq!(step, Step::Finish(TaskStatus::Pending));

    let error = failure(ErrorKind::Other);
    let (step, _, _) = resume(Phase::Rearm(Interest::Read), Reply::Done(Err(error)));
    assert_eq!(step, Step::Fail(error));
}

#[test]
fn acceptor_ends_on_other_errors() {
    for kind in [ErrorKind::ConnectionReset, ErrorKind::Interrupted, ErrorKind::Other] {
        let error = failure(kind);
        let (step, _, _) = resume(Phase::Accept, Reply::Accepted(Err(error)));
        assert_eq!(step, Step::Ask(Phase::Unregister(error)));

        for result in [Ok(()), Err(failure(ErrorKind::Other))] {
            let (step, _, _) = resume(Phase::Unregister(error), Reply::Done(result));
            assert_eq!(step, Step::Ask(Phase::Report(error)));
        }
        let (step, _, _) = resume(Phase::Report(error), Reply::Done(Ok(())));
        assert_eq!(step, Step::Finish(TaskStatus::Complete));
    }
}

#[test]
fn replies_must_fit_the_call() {
    let acceptor = task();
    assert!(!acceptor.expects(Phase::Accept, &Reply::Accepted(Ok(-1))));
    assert!(!acceptor.expects(Phase::Accept, &Reply::Done(Ok(()))));
    assert!(!acceptor.expects(Phase::Register(3), &Reply::Accepted(Ok(3))));

    let connection: Task<TestProtocol> = Task::from(Connection::new(4));
    assert!(connection.expects(Phase::Read, &Reply::Received(Ok(vec![1]))));
    assert!(!connection.expects(Phase::Read, &Reply::Wrote(Ok(1))));
}
