use mount_status_monitor::status::MountStatus;
use mount_status_monitor::supervisor::{
    check_outcome, process_to_kill, status_of_exit, CheckError, CheckResult, ExitReport,
    CHECK_DEADLINE_SECS,
};

fn exited(code: Option<i32>, signal: Option<i32>) -> ExitReport {
    ExitReport { code, signal }
}

#[test]
fn exit_code_zero_is_alive() {
    assert_eq!(status_of_exit(exited(Some(0), None)), MountStatus::Alive);
}

#[test]
fn nonzero_exit_code_is_check_failed_with_that_code() {
    assert_eq!(status_of_exit(exited(Some(1), None)), MountStatus::CheckFailed(1));
    assert_eq!(status_of_exit(exited(Some(127), None)), MountStatus::CheckFailed(127));
    assert_eq!(status_of_exit(exited(Some(-1), None)), MountStatus::CheckFailed(-1));
    assert_eq!(
        status_of_exit(exited(Some(i32::MIN), None)),
        MountStatus::CheckFailed(i32::MIN)
    );
}

#[test]
fn signal_without_code_is_check_signaled() {
    assert_eq!(status_of_exit(exited(None, Some(9))), MountStatus::CheckSignaled(9));
    assert_eq!(status_of_exit(exited(None, Some(15))), MountStatus::CheckSignaled(15));
}

#[test]
fn exit_code_wins_over_signal() {
    assert_eq!(status_of_exit(exited(Some(0), Some(9))), MountStatus::Alive);
    assert_eq!(status_of_exit(exited(Some(2), Some(9))), MountStatus::CheckFailed(2));
}

#[test]
fn neither_code_nor_signal_is_signal_zero() {
    assert_eq!(status_of_exit(exited(None, None)), MountStatus::CheckSignaled(0));
}

#[test]
fn deadline_is_three_seconds() {
    assert_eq!(CHECK_DEADLINE_SECS, 3);
}

#[test]
fn spawn_failure_gives_no_status() {
    assert_eq!(check_outcome(CheckResult::SpawnFailed), Err(CheckError::Spawn));
    assert_eq!(process_to_kill(CheckResult::SpawnFailed), None);
}

#[test]
fn wait_failure_gives_no_status() {
    assert_eq!(check_outcome(CheckResult::WaitFailed), Err(CheckError::Wait));
    assert_eq!(process_to_kill(CheckResult::WaitFailed), None);
}

#[test]
fn exit_within_deadline_gives_its_status_and_no_kill() {
    let result = CheckResult::Exited(exited(Some(4), None));
    assert_eq!(check_outcome(result), Ok(MountStatus::CheckFailed(4)));
    assert_eq!(process_to_kill(result), None);
    let healthy = CheckResult::Exited(exited(Some(0), None));
    assert_eq!(check_outcome(healthy), Ok(MountStatus::Alive));
    assert_eq!(process_to_kill(healthy), None);
}

#[test]
fn timed_out_check_keeps_running_and_is_killed() {
    let result = CheckResult::TimedOut { process: 4321, start_time: 99_000 };
    assert_eq!(
        check_outcome(result),
        Ok(MountStatus::CheckRunning { process: 4321, start_time: 99_000 })
    );
    assert_eq!(process_to_kill(result), Some(4321));
}

#[test]
fn only_alive_counts_as_success() {
    assert!(MountStatus::Alive.success());
    assert!(!MountStatus::CheckFailed(1).success());
    assert!(!MountStatus::CheckFailed(0).success());
    assert!(!MountStatus::CheckSignaled(9).success());
    assert!(!MountStatus::CheckRunning { process: 1, start_time: 0 }.success());
}

#[test]
fn only_a_running_check_holds_a_process() {
    assert_eq!(MountStatus::Alive.running_process(), None);
    assert_eq!(MountStatus::CheckFailed(3).running_process(), None);
    assert_eq!(MountStatus::CheckSignaled(9).running_process(), None);
    assert_eq!(
        MountStatus::CheckRunning { process: 77, start_time: 5 }.running_process(),
        Some(77)
    );
}
