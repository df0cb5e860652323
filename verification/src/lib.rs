//! A verified session manager for interactive pseudo-terminal (PTY) sessions.
//!
//! The library keeps a registry of live sessions, each owning the controlling
//! side of one OS pseudo-terminal, and offers spawn, write, resize and kill
//! operations over it.  The registry logic, command-line splitting, output
//! classification and the directory-listing helpers are verified; the raw
//! OS calls are reached through a small set of trusted wrappers.

pub mod command;
pub mod fsdir;
pub mod pty_io;
pub mod pump;
pub mod registry;

use vstd::prelude::*;

verus! {

/// The error taxonomy of every caller-facing operation.
#[derive(Debug)]
pub enum PtyError {
    /// The request itself was malformed, e.g. an empty command line.
    InvalidInput(String),
    /// The PTY could not be opened.
    AllocationFailure(String),
    /// The child process could not be launched, or its handles could not
    /// be obtained.
    SpawnFailure(String),
    /// The referenced session id is unknown or already removed; carries
    /// the missing id.
    NotFound(String),
    /// A write, flush or geometry-change syscall failed.
    IOFailure(String),
}

impl PtyError {
    /// The human-readable description carried by the error.
    pub fn description(&self) -> (r: String)
        ensures
            r@ == (match *self {
                PtyError::InvalidInput(ref m) => m@,
                PtyError::AllocationFailure(ref m) => m@,
                PtyError::SpawnFailure(ref m) => m@,
                PtyError::NotFound(ref m) => m@,
                PtyError::IOFailure(ref m) => m@,
            }),
    {
        match self {
            PtyError::InvalidInput(m) => m.clone(),
            PtyError::AllocationFailure(m) => m.clone(),
            PtyError::SpawnFailure(m) => m.clone(),
            PtyError::NotFound(m) => m.clone(),
            PtyError::IOFailure(m) => m.clone(),
        }
    }
}

} // verus!
