//! The state machine of one mountpoint.
//!
//! Once per cycle each mountpoint is advanced: a check that is still running
//! is asked about without waiting, and unless it is still pending a new check
//! is started and its outcome becomes the mountpoint's status. The steps that
//! touch processes are the caller's; after each of them the functions here
//! say what follows. A cycle for one mountpoint runs like this:
//!
//! 1. [`first_step`] says whether to ask about a running check or to start a
//!    new one.
//! 2. After asking, [`after_poll`] says whether a new check may be started
//!    now. The status stays as it is.
//! 3. After a check, [`settle`] gives the new status, the process to kill and
//!    the process to let go of.

use vstd::prelude::*;
use crate::status::MountStatus;
use crate::supervisor::{
    check_outcome,
    kill_target,
    outcome,
    process_to_kill,
    CheckError,
    CheckResult,
    ExitReport,
};

verus! {

/// What asking about a running check, without waiting, gave.
#[derive(Clone, Copy, Debug, PartialEq, Eq)]
pub enum PollResult {
    /// The process has ended.
    Exited(ExitReport),
    /// The process has not ended yet.
    Pending,
    /// The question itself failed.
    Failed,
}

/// The first thing to do for a mountpoint in a cycle.
#[derive(Clone, Copy, Debug, PartialEq, Eq, Structural)]
pub enum Step {
    /// Ask, without waiting, whether this process has ended.
    Poll {
        /// Identifier of the process.
        process: u32,
        /// Clock reading, in milliseconds, from just before it was started.
        start_time: u64,
    },
    /// Start a new check.
    Launch,
}

/// How much a message matters.
#[derive(Clone, Copy, Debug, PartialEq, Eq, Structural)]
pub enum Severity {
    Debug,
    Info,
    Warning,
    Error,
}

/// Something to tell the operator about one mountpoint.
#[derive(Clone, Copy, Debug, PartialEq, Eq)]
pub enum Notice {
    /// A check that had outlived its deadline has ended.
    SlowCheckExited { elapsed_secs: u64, exit: ExitReport },
    /// A check that had outlived its deadline is still running.
    SlowCheckPending { elapsed_secs: u64 },
    /// Asking about a check that had outlived its deadline failed.
    SlowCheckError { elapsed_secs: u64 },
    /// A check gave no outcome.
    CheckError(CheckError),
    /// The check exited with this non-zero code.
    UnexpectedReturnCode(i32),
    /// The check was ended by this signal.
    KilledBySignal(i32),
    /// The mountpoint passed its check.
    Passed,
    /// The mountpoint failed its check. With `print_path` its path is also
    /// written to standard output.
    Unhealthy { print_path: bool },
}

impl Notice {
    /// The severity at which a notice goes to the log; `None` for the
    /// notices that go to the error stream only.
    pub open spec fn log_severity(self) -> Option<Severity> {
        match self {
            Notice::SlowCheckExited { .. } => Some(Severity::Info),
            Notice::SlowCheckPending { .. } => Some(Severity::Warning),
            Notice::SlowCheckError { .. } => Some(Severity::Error),
            Notice::Passed => Some(Severity::Debug),
            Notice::Unhealthy { .. } => Some(Severity::Error),
            Notice::CheckError(_) => None,
            Notice::UnexpectedReturnCode(_) => None,
            Notice::KilledBySignal(_) => None,
        }
    }

    /// Whether a notice is also written to the error stream.
    pub open spec fn on_error_stream(self) -> bool {
        match self {
            Notice::CheckError(_) => true,
            Notice::UnexpectedReturnCode(_) => true,
            Notice::KilledBySignal(_) => true,
            Notice::Unhealthy { .. } => true,
            _ => false,
        }
    }

    /// The severity at which this notice is logged, if it is logged.
    pub fn severity(&self) -> (level: Option<Severity>)
        ensures
            level == self.log_severity(),
    {
        match self {
            Notice::SlowCheckExited { .. } => Some(Severity::Info),
            Notice::SlowCheckPending { .. } => Some(Severity::Warning),
            Notice::SlowCheckError { .. } => Some(Severity::Error),
            Notice::Passed => Some(Severity::Debug),
            Notice::Unhealthy { .. } => Some(Severity::Error),
            _ => None,
        }
    }

    /// Whether this notice is written to the error stream.
    pub fn to_error_stream(&self) -> (shown: bool)
        ensures
            shown == self.on_error_stream(),
    {
        match self {
            Notice::CheckError(_) => true,
            Notice::UnexpectedReturnCode(_) => true,
            Notice::KilledBySignal(_) => true,
            Notice::Unhealthy { .. } => true,
            _ => false,
        }
    }
}

/// Whole seconds from `start_time` to `now`, two readings of one monotonic
/// clock in milliseconds; 0 where `now` is the earlier one.
pub open spec fn elapsed_secs(start_time: u64, now: u64) -> u64 {
    if now >= start_time {
        ((now - start_time) / 1000) as u64
    } else {
        0
    }
}

/// Whole seconds that have passed since `start_time`.
pub fn seconds_since(start_time: u64, now: u64) -> (secs: u64)
    ensures
        secs == elapsed_secs(start_time, now),
{
    if now >= start_time {
        (now - start_time) / 1000
    } else {
        0
    }
}

/// Says how a mountpoint's cycle begins: a status with a running check has
/// that check asked about, every other status has a new check started.
pub fn first_step(status: MountStatus) -> (step: Step)
    ensures
        step == match status {
            MountStatus::CheckRunning { process, start_time } => Step::Poll {
                process,
                start_time,
            },
            _ => Step::Launch,
        },
{
    match status {
        MountStatus::CheckRunning { process, start_time } => Step::Poll { process, start_time },
        _ => Step::Launch,
    }
}

/// Where a mountpoint stands after its running check was asked about.
#[derive(Clone, Copy, Debug, PartialEq, Eq)]
pub struct Polled {
    /// The status to go on with: the one the mountpoint had.
    pub status: MountStatus,
    /// Whether a new check is started in this cycle.
    pub launch: bool,
    /// The process to let go of now. Asking never gives a process up, so
    /// this is `None`: the process goes only when a new status replaces the
    /// running one.
    pub released: Option<u32>,
    /// What to tell the operator.
    pub notice: Notice,
}

/// The rule of [`after_poll`]. Asking about a check never changes the
/// mountpoint's status and never lets go of its process; it only decides
/// whether a new check follows.
///
/// * The process has ended: this is reported, and a new check follows in the
///   same cycle.
/// * The process is still running: no check is started.
/// * The question failed: a new check is started all the same.
///
/// Where a new check follows, the status keeps the old process until that
/// check gives a new status; a check that gives none leaves the mountpoint
/// as it was.
pub open spec fn polled(process: u32, start_time: u64, poll: PollResult, now: u64) -> Polled {
    let elapsed = elapsed_secs(start_time, now);
    let running = MountStatus::CheckRunning { process, start_time };
    match poll {
        PollResult::Exited(exit) => Polled {
            status: running,
            launch: true,
            released: None,
            notice: Notice::SlowCheckExited { elapsed_secs: elapsed, exit },
        },
        PollResult::Pending => Polled {
            status: running,
            launch: false,
            released: None,
            notice: Notice::SlowCheckPending { elapsed_secs: elapsed },
        },
        PollResult::Failed => Polled {
            status: running,
            launch: true,
            released: None,
            notice: Notice::SlowCheckError { elapsed_secs: elapsed },
        },
    }
}

/// Decides what follows the answer `poll` about the running check of a
/// mountpoint, started at `start_time` and asked about at `now`.
///
/// While the check is pending the mountpoint keeps its status and no second
/// check is started for it.
pub fn after_poll(process: u32, start_time: u64, poll: PollResult, now: u64) -> (next: Polled)
    ensures
        next == polled(process, start_time, poll, now),
        next.status == (MountStatus::CheckRunning { process, start_time }),
        next.released.is_none(),
        next.launch == (poll != PollResult::Pending),
{
    let elapsed = seconds_since(start_time, now);
    let running = MountStatus::CheckRunning { process, start_time };
    match poll {
        PollResult::Exited(exit) => Polled {
            status: running,
            launch: true,
            released: None,
            notice: Notice::SlowCheckExited { elapsed_secs: elapsed, exit },
        },
        PollResult::Pending => Polled {
            status: running,
            launch: false,
            released: None,
            notice: Notice::SlowCheckPending { elapsed_secs: elapsed },
        },
        PollResult::Failed => Polled {
            status: running,
            launch: true,
            released: None,
            notice: Notice::SlowCheckError { elapsed_secs: elapsed },
        },
    }
}

/// The process that a mountpoint gives up when its status goes from
/// `current` to `next`: the one that `current` holds, unless `next` holds it
/// too.
pub open spec fn released_by(current: MountStatus, next: MountStatus) -> Option<u32> {
    if current.handle().is_some() && next.handle() != current.handle() {
        current.handle()
    } else {
        None
    }
}

/// The status of a mountpoint after a check: the check's outcome, or
/// `current` where the check gave none.
pub open spec fn settled_status(current: MountStatus, result: CheckResult) -> MountStatus {
    match outcome(result) {
        Ok(status) => status,
        Err(_) => current,
    }
}

/// What to tell the operator after a check, in order.
pub open spec fn settle_notices(result: CheckResult, print_bad_mounts: bool) -> Seq<Notice> {
    match outcome(result) {
        Err(error) => seq![Notice::CheckError(error)],
        Ok(MountStatus::Alive) => seq![Notice::Passed],
        Ok(MountStatus::CheckFailed(code)) => seq![
            Notice::UnexpectedReturnCode(code),
            Notice::Unhealthy { print_path: print_bad_mounts },
        ],
        Ok(MountStatus::CheckSignaled(signal)) => seq![
            Notice::KilledBySignal(signal),
            Notice::Unhealthy { print_path: print_bad_mounts },
        ],
        Ok(MountStatus::CheckRunning { .. }) => seq![
            Notice::Unhealthy { print_path: print_bad_mounts },
        ],
    }
}

/// Where a mountpoint stands after a check.
#[derive(Clone, Debug, PartialEq, Eq)]
pub struct Settled {
    /// The new status.
    pub status: MountStatus,
    /// The process that the status no longer holds, if it gave one up.
    pub released: Option<u32>,
    /// The process to send a kill signal, without waiting for it to die.
    pub kill: Option<u32>,
    /// What to tell the operator, in order.
    pub notices: Vec<Notice>,
}

/// Takes in the result of a check that was started for a mountpoint whose
/// status was `current`.
///
/// The check's outcome becomes the status. A check that could not be started
/// or waited for changes nothing and is only reported. A process that
/// outlived the deadline is to be killed and stays with the new status. The
/// process of an earlier check that `current` still held is let go of as soon
/// as the status no longer holds it.
pub fn settle(current: MountStatus, result: CheckResult, print_bad_mounts: bool) -> (next: Settled)
    ensures
        next.status == settled_status(current, result),
        next.released == released_by(current, next.status),
        next.kill == kill_target(result),
        next.notices@ == settle_notices(result, print_bad_mounts),
{
    let kill = process_to_kill(result);
    let mut notices: Vec<Notice> = Vec::new();
    match check_outcome(result) {
        Err(error) => {
            notices.push(Notice::CheckError(error));
            assert(notices@ =~= settle_notices(result, print_bad_mounts));
            Settled { status: current, released: None, kill, notices }
        },
        Ok(status) => {
            match status {
                MountStatus::CheckFailed(code) => {
                    notices.push(Notice::UnexpectedReturnCode(code));
                },
                MountStatus::CheckSignaled(signal) => {
                    notices.push(Notice::KilledBySignal(signal));
                },
                _ => {},
            }
            if status.success() {
                notices.push(Notice::Passed);
            } else {
                notices.push(Notice::Unhealthy { print_path: print_bad_mounts });
            }
            assert(notices@ =~= settle_notices(result, print_bad_mounts));
            let released = match current.running_process() {
                Some(held) => match status.running_process() {
                    Some(kept) => if kept == held {
                        None
                    } else {
                        Some(held)
                    },
                    None => Some(held),
                },
                None => None,
            };
            Settled { status, released, kill, notices }
        },
    }
}

/// The status of a mountpoint after one cycle, from the status `current` it
/// had, the answer `poll` about its running check where it had one, and the
/// result `check` of the new check where one was started.
pub open spec fn advanced(
    current: MountStatus,
    poll: PollResult,
    check: CheckResult,
    now: u64,
) -> MountStatus {
    match current {
        MountStatus::CheckRunning { process, start_time } => {
            let asked = polled(process, start_time, poll, now);
            if asked.launch {
                settled_status(asked.status, check)
            } else {
                asked.status
            }
        },
        _ => settled_status(current, check),
    }
}

/// A cycle leaves a mountpoint whose running check is still pending as it
/// was. In every other case one check is started: its outcome becomes the
/// status whatever the status was, and where it gives no outcome the status
/// stays exactly as it was.
pub proof fn lemma_cycle_adopts_outcome_or_keeps_status(
    current: MountStatus,
    poll: PollResult,
    check: CheckResult,
    now: u64,
)
    ensures
        advanced(current, poll, check, now) == (if current.handle().is_some() && poll
            == PollResult::Pending {
            current
        } else {
            match outcome(check) {
                Ok(status) => status,
                Err(_) => current,
            }
        }),
{
}

} // verus!
