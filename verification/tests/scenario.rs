use mount_status_monitor::machine::{
    after_poll, first_step, settle, Notice, PollResult, Severity, Step,
};
use mount_status_monitor::registry::{Registry, TickSummary};
use mount_status_monitor::status::MountStatus;
use mount_status_monitor::supervisor::{CheckResult, ExitReport};

/// A stand-in for the processes of the checks: it answers polls and checks
/// from a script and counts what it was asked to do.
struct Script {
    now: u64,
    next_process: u32,
    hangs: Vec<String>,
    poll_answer: PollResult,
    spawned: Vec<(String, u32)>,
    killed: Vec<u32>,
    released: Vec<u32>,
    notices: Vec<(String, Notice)>,
}

impl Script {
    fn new() -> Script {
        Script {
            now: 0,
            next_process: 100,
            hangs: Vec::new(),
            poll_answer: PollResult::Pending,
            spawned: Vec::new(),
            killed: Vec::new(),
            released: Vec::new(),
            notices: Vec::new(),
        }
    }

    fn check(&mut self, path: &str) -> CheckResult {
        let process = self.next_process;
        self.next_process += 1;
        self.spawned.push((path.to_string(), process));
        if self.hangs.iter().any(|hung| hung == path) {
            CheckResult::TimedOut { process, start_time: self.now }
        } else {
            CheckResult::Exited(ExitReport { code: Some(0), signal: None })
        }
    }

    fn tick(&mut self, registry: &mut Registry, mounts: &[&str]) -> TickSummary {
        let mounts: Vec<Vec<u8>> = mounts.iter().map(|m| m.as_bytes().to_vec()).collect();
        self.released.extend(registry.reconcile(&mounts));
        for entry in registry.entries() {
            let name = String::from_utf8_lossy(&entry.mount_point).into_owned();
            let path = name.as_str();
            let mut status = entry.status;
            let mut launch = true;
            if let Step::Poll { process, start_time } = first_step(status) {
                let polled = after_poll(process, start_time, self.poll_answer, self.now);
                self.notices.push((path.to_string(), polled.notice));
                self.released.extend(polled.released);
                status = polled.status;
                launch = polled.launch;
            }
            if launch {
                let result = self.check(path);
                let settled = settle(status, result, false);
                self.killed.extend(settled.kill);
                self.released.extend(settled.released);
                for notice in settled.notices {
                    self.notices.push((path.to_string(), notice));
                }
                status = settled.status;
            }
            assert!(registry.record(&entry.mount_point, status));
        }
        self.now += 60_000;
        registry.summary()
    }

    fn spawned_for(&self, path: &str) -> usize {
        self.spawned.iter().filter(|(spawned, _)| spawned == path).count()
    }
}

#[test]
fn hung_mount_is_checked_once_until_its_process_exits() {
    let mut registry = Registry::new();
    let mut script = Script::new();
    script.hangs.push("/mnt/a".to_string());

    let first = script.tick(&mut registry, &["/", "/mnt/a"]);
    assert_eq!(first, TickSummary { total_mounts: 2, dead_mounts: 1 });
    assert_eq!(registry.status_of(b"/"), Some(MountStatus::Alive));
    let hung = match registry.status_of(b"/mnt/a") {
        Some(MountStatus::CheckRunning { process, start_time: 0 }) => process,
        other => panic!("unexpected status {:?}", other),
    };
    assert_eq!(script.killed, vec![hung]);
    assert_eq!(script.spawned_for("/mnt/a"), 1);

    script.poll_answer = PollResult::Pending;
    let second = script.tick(&mut registry, &["/", "/mnt/a"]);
    assert_eq!(second, TickSummary { total_mounts: 2, dead_mounts: 1 });
    assert_eq!(
        registry.status_of(b"/mnt/a"),
        Some(MountStatus::CheckRunning { process: hung, start_time: 0 })
    );
    assert_eq!(script.spawned_for("/mnt/a"), 1);
    assert_eq!(script.spawned_for("/"), 2);
    let warning = Notice::SlowCheckPending { elapsed_secs: 60 };
    assert!(script.notices.contains(&("/mnt/a".to_string(), warning)));
    assert_eq!(warning.severity(), Some(Severity::Warning));
    assert!(script.released.is_empty());

    let exit = ExitReport { code: None, signal: Some(9) };
    script.poll_answer = PollResult::Exited(exit);
    let polled = after_poll(hung, 0, script.poll_answer, script.now);
    assert_eq!(polled.notice, Notice::SlowCheckExited { elapsed_secs: 120, exit });
    assert_eq!(polled.status, MountStatus::CheckRunning { process: hung, start_time: 0 });
    assert!(polled.launch);
    let third = script.tick(&mut registry, &["/", "/mnt/a"]);
    assert_eq!(script.spawned_for("/mnt/a"), 2);
    assert_eq!(script.released, vec![hung]);
    assert!(script.notices.contains(&(
        "/mnt/a".to_string(),
        Notice::SlowCheckExited { elapsed_secs: 120, exit }
    )));
    let fresh = script.spawned.last().map(|(_, process)| *process);
    assert_eq!(
        registry.status_of(b"/mnt/a"),
        fresh.map(|process| MountStatus::CheckRunning { process, start_time: 120_000 })
    );
    assert_eq!(third, TickSummary { total_mounts: 2, dead_mounts: 1 });
}

#[test]
fn hung_mount_recovers_once_its_check_passes() {
    let mut registry = Registry::new();
    let mut script = Script::new();
    script.hangs.push("/mnt/a".to_string());
    script.tick(&mut registry, &["/", "/mnt/a"]);
    script.hangs.clear();
    script.poll_answer = PollResult::Exited(ExitReport { code: None, signal: Some(9) });
    let summary = script.tick(&mut registry, &["/", "/mnt/a"]);
    assert_eq!(summary, TickSummary { total_mounts: 2, dead_mounts: 0 });
    assert_eq!(registry.status_of(b"/mnt/a"), Some(MountStatus::Alive));
    assert_eq!(script.released, vec![100 + 1]);
}

#[test]
fn unmounted_path_with_a_running_check_gives_its_process_back() {
    let mut registry = Registry::new();
    let mut script = Script::new();
    script.hangs.push("/mnt/a".to_string());
    script.tick(&mut registry, &["/", "/mnt/a"]);
    let summary = script.tick(&mut registry, &["/"]);
    assert_eq!(summary, TickSummary { total_mounts: 1, dead_mounts: 0 });
    assert!(!registry.contains(b"/mnt/a"));
    assert_eq!(script.released.len(), 1);
    assert_eq!(script.killed, script.released);
    assert_eq!(script.spawned_for("/mnt/a"), 1);
}

#[test]
fn failed_poll_launches_and_releases_the_old_process_on_a_new_outcome() {
    let mut registry = Registry::new();
    let mut script = Script::new();
    script.hangs.push("/mnt/a".to_string());
    script.tick(&mut registry, &["/mnt/a"]);
    let old = script.spawned[0].1;
    script.hangs.clear();
    script.poll_answer = PollResult::Failed;
    let summary = script.tick(&mut registry, &["/mnt/a"]);
    assert_eq!(summary, TickSummary { total_mounts: 1, dead_mounts: 0 });
    assert_eq!(script.spawned_for("/mnt/a"), 2);
    assert_eq!(script.released, vec![old]);
    assert!(script
        .notices
        .contains(&("/mnt/a".to_string(), Notice::SlowCheckError { elapsed_secs: 60 })));
}
