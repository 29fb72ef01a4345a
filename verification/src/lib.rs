//! A local host for multiple independently versioned Node.js-style
//! applications.  Each application lives in an isolated filesystem sandbox
//! and runs as a supervised child process; a fixed-capacity registry tracks
//! at most one live process per application name and hands out capability
//! tokens bound to that liveness; and a mark-and-sweep collector reclaims
//! the shared package cache once no surviving application's dependency
//! manifest references an artifact.
//!
//! The transport, the serialization, the windowing subsystem, and the
//! package manager itself are collaborators at the edges; what is here is
//! the bookkeeping and the rules, with their contracts.

use vstd::prelude::*;

mod hashing;
mod scan;

pub mod cirno;
pub mod daemon;
pub mod gc;
pub mod ident;
pub mod lockfile;
pub mod manifest;
pub mod rc;
pub mod sandbox;
pub mod server;
pub mod windows;

verus! {

/// Exit code with which a supervised application asks to be relaunched.
pub const RESTART_CODE: i32 = 52;

} // verus!
