# echo_server

A single-threaded event-driven TCP server around an epoll reactor, with an echo protocol and a
fixed-response HTTP protocol.

The library in `src/` is verified with Verus. It decides what the server does, as a state machine
that asks for one operating-system call at a time; the program in `app/` performs the calls.

- `protocol` - what is answered to a request
- `connection`, `acceptor` - the two kinds of task
- `task` - stored tasks and the ready queue
- `reactor` - epoll registrations, and what a wait means for the ready queue
- `startup` - the calls that set a server up
- `server` - the event loop
- `io`, `step` - calls, their outcomes, and what a task does next
- `laws` - what holds of the server as a whole
