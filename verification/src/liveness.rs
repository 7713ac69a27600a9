//! The liveness bounds and names.
//!
//! A heartbeat wrapper requires a member to say it is alive within
//! [`DEFAULT_HEARTBEAT_TIMEOUT`], an activity watchdog requires it to record
//! something within [`DEFAULT_STALL_TIMEOUT`], and scratch ownership is an
//! [`OWNER_LOCK_FILE`] beside a pid-with-start-token. Both bounds are in seconds.

use vstd::prelude::*;

verus! {

/// Overrides [`DEFAULT_HEARTBEAT_TIMEOUT`].
pub const HEARTBEAT_TIMEOUT_ENV: &'static str = "ONEAGENTGRAPH_HEARTBEAT_TIMEOUT";

/// How many seconds a member may go without a heartbeat before it is declared
/// dead.
pub const DEFAULT_HEARTBEAT_TIMEOUT: u64 = 60;

/// Overrides [`DEFAULT_STALL_TIMEOUT`].
pub const STALL_TIMEOUT_ENV: &'static str = "ONEAGENTGRAPH_STALL_TIMEOUT";

/// How many seconds a member may record nothing before the activity watchdog
/// fires.
///
/// Half an hour: over-waiting on a wedged member costs minutes, while condemning a
/// working one destroys everything it has not emitted.
pub const DEFAULT_STALL_TIMEOUT: u64 = 1800;

/// The lock file, inside a scratch directory, that proves who owns it.
pub const OWNER_LOCK_FILE: &'static str = "owner.lock";

} // verus!
