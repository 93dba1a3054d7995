//! Decision core of a pseudo-terminal session manager.
//!
//! A session manager spawns a child on a pseudo-terminal, drains its output
//! without blocking, tracks its exit in the background and hands sessions out
//! under integer handles. Everything in that job that is a rule rather than a
//! system call lives here, as functions from plain values to plain values with
//! machine-checked contracts: the caller performs the system calls and reports
//! what happened.

pub mod status;
pub mod open;
pub mod read;
pub mod environ;
pub mod command;
pub mod registry;
pub mod write;
pub mod exit;
pub mod boundary;
