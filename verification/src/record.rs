//! The persisted process-identity record.
//!
//! At most one such record exists on disk at a time; it is the sole source
//! of truth for "is the supervised process running", and it may be stale,
//! so callers must probe the operating system before trusting it.

use vstd::prelude::*;

verus! {

/// Identity of the supervised child process: its OS process id and the
/// wall-clock time (seconds since the epoch) at which it was spawned.
#[derive(Clone, Copy, Debug, PartialEq, Eq, Structural)]
pub struct PidInfo {
    pub pid: i32,
    pub start_time: u64,
}

impl PidInfo {
    /// A record is well formed when its pid is a positive process id.
    pub open spec fn wf(self) -> bool {
        self.pid > 0
    }
}

} // verus!
