//! A process supervisor: launches one external command, periodically
//! evaluates named health checks against it, and decides — under a bounded
//! restart budget — whether to kill and relaunch the process or stop
//! supervising for good.
//!
//! The supervision policy is a verified state machine. Each call to
//! [`machine::SupervisedProcess::step`] consumes one event from the outside
//! world (process spawned, a sleep elapsed, a health check's verdict, the
//! process killed) and returns the notification hooks to fire and the next
//! action for the driver to perform. Everything the machine decides — hook
//! order, short-circuit evaluation of checks, budget accounting, when backoff
//! applies — is pinned down by contracts; an unverified driver only performs
//! I/O actions and feeds events back.

pub mod event;
pub mod laws;
pub mod machine;
pub mod time;
pub mod trace;

use vstd::prelude::*;

verus! {

/// A fatal supervision error: the external process could not be started.
/// Health-check failures are not errors; they drive the restart policy.
#[derive(Clone, Copy, Debug, PartialEq, Eq, Structural)]
pub enum RunError {
    LaunchFailure,
}

} // verus!
