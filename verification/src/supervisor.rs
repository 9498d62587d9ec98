//! The check supervisor's verdicts.
//!
//! A check is one run of an external command against a mountpoint, waited
//! for up to a fixed deadline. The caller starts the process and waits; this
//! module says what the result means: which status it gives the mountpoint,
//! and whether the process has to be killed.

use vstd::prelude::*;
use crate::status::MountStatus;

verus! {

/// Seconds that a check's process is waited for before it counts as hung.
pub const CHECK_DEADLINE_SECS: u64 = 3;

/// The command that checks a mountpoint. It is run with the mount path as its
/// only argument and its output discarded; exit code 0 means healthy.
pub const CHECK_COMMAND: &'static str = "/usr/bin/stat";

/// How a process ended, as the operating system reports it.
#[derive(Clone, Copy, Debug, PartialEq, Eq)]
pub struct ExitReport {
    /// Exit code, where the process exited by itself.
    pub code: Option<i32>,
    /// Number of the signal that ended the process, where one did.
    pub signal: Option<i32>,
}

/// What came of starting a check and waiting for it up to the deadline.
#[derive(Clone, Copy, Debug, PartialEq, Eq)]
pub enum CheckResult {
    /// The process could not be started.
    SpawnFailed,
    /// The process was started, but waiting for it failed.
    WaitFailed,
    /// The process ended within the deadline.
    Exited(ExitReport),
    /// The deadline passed with the process still running.
    TimedOut {
        /// Identifier of the process.
        process: u32,
        /// Clock reading, in milliseconds, from just before it was started.
        start_time: u64,
    },
}

/// Why a check gave no outcome.
#[derive(Clone, Copy, Debug, PartialEq, Eq, Structural)]
pub enum CheckError {
    /// The process could not be started.
    Spawn,
    /// Waiting for the process failed.
    Wait,
}

/// The status that an ended check gives its mountpoint: `Alive` for exit code
/// 0, `CheckFailed` with any other code, and `CheckSignaled` where there is
/// no code, with signal 0 where none is reported either.
pub open spec fn exit_status(report: ExitReport) -> MountStatus {
    match report.code {
        Some(code) => if code == 0 {
            MountStatus::Alive
        } else {
            MountStatus::CheckFailed(code)
        },
        None => match report.signal {
            Some(signal) => MountStatus::CheckSignaled(signal),
            None => MountStatus::CheckSignaled(0),
        },
    }
}

/// The outcome of a check: a new status, or the reason why there is none.
pub open spec fn outcome(result: CheckResult) -> Result<MountStatus, CheckError> {
    match result {
        CheckResult::SpawnFailed => Err(CheckError::Spawn),
        CheckResult::WaitFailed => Err(CheckError::Wait),
        CheckResult::Exited(report) => Ok(exit_status(report)),
        CheckResult::TimedOut { process, start_time } => Ok(
            MountStatus::CheckRunning { process, start_time },
        ),
    }
}

/// The process that has to be sent a kill signal after a check: the one that
/// outlived the deadline.
pub open spec fn kill_target(result: CheckResult) -> Option<u32> {
    match result {
        CheckResult::TimedOut { process, .. } => Some(process),
        _ => None,
    }
}

/// What a check came to, for every check that was started and waited for,
/// read in both directions: the mountpoint is `Alive` exactly when the
/// process exited within the deadline with code 0, `CheckFailed` with a code
/// exactly when it exited with that code and the code is not 0,
/// `CheckSignaled` with a signal exactly when it ended without a code by that
/// signal, and left with a running check exactly when the deadline passed.
///
/// This is stated of processes that report a code or a signal when they end.
/// A report with neither counts as signal 0.
pub proof fn lemma_check_mapping(result: CheckResult)
    requires
        result != CheckResult::SpawnFailed,
        result != CheckResult::WaitFailed,
        match result {
            CheckResult::Exited(report) => report.code.is_some() || report.signal.is_some(),
            _ => true,
        },
    ensures
        outcome(result).is_ok(),
        ({
            let status = outcome(result)->Ok_0;
            &&& status == MountStatus::Alive <==> (result matches CheckResult::Exited(report)
                && report.code == Some(0i32))
            &&& status is CheckFailed <==> (result matches CheckResult::Exited(report)
                && report.code.is_some() && report.code != Some(0i32))
            &&& status is CheckFailed ==> (result matches CheckResult::Exited(report)
                && report.code == Some(status->CheckFailed_0))
            &&& status is CheckSignaled <==> (result matches CheckResult::Exited(report)
                && report.code.is_none())
            &&& status is CheckSignaled ==> (result matches CheckResult::Exited(report)
                && report.signal == Some(status->CheckSignaled_0))
            &&& status is CheckRunning <==> result is TimedOut
            &&& status is CheckRunning ==> result == (CheckResult::TimedOut {
                process: status->process,
                start_time: status->start_time,
            })
            &&& status != MountStatus::CheckFailed(0)
        }),
{
}

/// Maps the way a check's process ended to a status.
pub fn status_of_exit(report: ExitReport) -> (status: MountStatus)
    ensures
        status == exit_status(report),
        status != MountStatus::CheckFailed(0),
        report.code == Some(0i32) ==> status == MountStatus::Alive,
        forall|code: i32|
            report.code == Some(code) && code != 0 ==> status == MountStatus::CheckFailed(code),
        forall|signal: i32|
            report.code.is_none() && report.signal == Some(signal) ==> status
                == MountStatus::CheckSignaled(signal),
        status.handle().is_none(),
{
    match report.code {
        Some(0) => MountStatus::Alive,
        Some(code) => MountStatus::CheckFailed(code),
        None => match report.signal {
            Some(signal) => MountStatus::CheckSignaled(signal),
            None => MountStatus::CheckSignaled(0),
        },
    }
}

/// Says what a check came to. A process that outlived the deadline leaves the
/// mountpoint with a running check that holds on to that process; a check
/// that could not be started or waited for gives an error and no status.
pub fn check_outcome(result: CheckResult) -> (verdict: Result<MountStatus, CheckError>)
    ensures
        verdict == outcome(result),
{
    match result {
        CheckResult::SpawnFailed => Err(CheckError::Spawn),
        CheckResult::WaitFailed => Err(CheckError::Wait),
        CheckResult::Exited(report) => Ok(status_of_exit(report)),
        CheckResult::TimedOut { process, start_time } => Ok(
            MountStatus::CheckRunning { process, start_time },
        ),
    }
}

/// The process to kill after a check, if any. The kill is sent without
/// waiting for the process to die: the process stays with the mountpoint's
/// status and is asked about again in a later cycle.
pub fn process_to_kill(result: CheckResult) -> (target: Option<u32>)
    ensures
        target == kill_target(result),
        target == match outcome(result) {
            Ok(status) => status.handle(),
            Err(_) => None,
        },
{
    match result {
        CheckResult::TimedOut { process, .. } => Some(process),
        _ => None,
    }
}

} // verus!
