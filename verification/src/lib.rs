//! Single-threaded event-driven TCP server, written as a state machine.
//!
//! The library decides; the program around it performs. [`Server::bind`] starts a sequence of
//! set-up calls, and [`Server::run`] and [`Server::resume`] name one operating-system call at a
//! time ([`io::Request`]) and take its outcome ([`io::Reply`]).

pub mod acceptor;
pub mod connection;
pub mod io;
pub mod laws;
pub mod protocol;
pub mod reactor;
pub mod server;
pub mod startup;
pub mod step;
pub mod task;

pub use server::{Server, ServerConfig};
