//! The decision core of the specter daemon.
//!
//! Everything the daemon decides between two system calls lives here: how an
//! operator connection is fed and drained, which verbs are answered and how,
//! what a configuration reload changes, what a signal means and what a
//! diagnostic looks like in the log. The surrounding program owns the sockets,
//! the clocks and the engine; it hands plain values in and performs what comes
//! back.

pub mod channels;
pub mod driver;
pub mod ids;
pub mod ipc;
pub mod model;
pub mod names;
pub mod text;
pub mod time;
