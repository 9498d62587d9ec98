//! The status that the monitor keeps for one mountpoint.

use vstd::prelude::*;

verus! {

/// Latest known health of one mountpoint.
#[derive(Clone, Copy, Debug, PartialEq, Eq, Structural)]
pub enum MountStatus {
    /// The last completed check succeeded.
    Alive,
    /// The last completed check exited with this non-zero code.
    CheckFailed(i32),
    /// The last check's process was ended by this signal.
    CheckSignaled(i32),
    /// A check was started and is not yet known to have exited.
    CheckRunning {
        /// Identifier of the check's process, owned by this entry alone.
        process: u32,
        /// Reading of the caller's monotonic clock, in milliseconds, taken
        /// just before the process was started.
        start_time: u64,
    },
}

impl MountStatus {
    /// The process that this status owns, if it owns one.
    pub open spec fn handle(self) -> Option<u32> {
        match self {
            MountStatus::CheckRunning { process, .. } => Some(process),
            _ => None,
        }
    }

    /// Whether the mountpoint counts as healthy.
    pub fn success(&self) -> (ok: bool)
        ensures
            ok == (*self == MountStatus::Alive),
    {
        match *self {
            MountStatus::Alive => true,
            _ => false,
        }
    }

    /// The process of a running check, `None` for every other status.
    pub fn running_process(&self) -> (process: Option<u32>)
        ensures
            process == self.handle(),
    {
        match *self {
            MountStatus::CheckRunning { process, .. } => Some(process),
            _ => None,
        }
    }
}

} // verus!
