//! The policy of the polling loop: what the monitor is told on its command
//! line, what it does between cycles, and how it ends.

use vstd::prelude::*;

verus! {

/// Seconds between two cycles where the command line names none.
pub const DEFAULT_POLL_INTERVAL_SECS: u64 = 60;

/// Exit code after a single cycle that was asked for.
pub const EXIT_DONE: i32 = 0;

/// Exit code where the system log cannot be reached.
pub const EXIT_NO_LOG: i32 = 1;

/// Exit code where the list of mounts cannot be read.
pub const EXIT_NO_MOUNT_LIST: i32 = 2;

/// What the command line sets.
#[derive(Clone, Debug)]
pub struct Options {
    /// Run one cycle and exit.
    pub once_only: bool,
    /// Seconds to wait between two cycles.
    pub poll_interval: u64,
    /// Address of the metrics gateway to push the counts to, if any.
    pub prometheus_push_gateway: Option<String>,
    /// Write the path of each failing mount to standard output.
    pub print_bad_mounts: bool,
}

impl Default for Options {
    /// The options of a command line without flags.
    fn default() -> (options: Options)
        ensures
            !options.once_only,
            options.poll_interval == DEFAULT_POLL_INTERVAL_SECS,
            options.prometheus_push_gateway.is_none(),
            !options.print_bad_mounts,
    {
        Options {
            once_only: false,
            poll_interval: DEFAULT_POLL_INTERVAL_SECS,
            prometheus_push_gateway: None,
            print_bad_mounts: false,
        }
    }
}

/// A failure that ends the monitor.
#[derive(Clone, Copy, Debug, PartialEq, Eq, Structural)]
pub enum Fatal {
    /// The system log cannot be reached.
    NoLog,
    /// The list of mounts cannot be read.
    NoMountList,
}

/// The exit code for a failure that ends the monitor.
pub fn exit_code(failure: Fatal) -> (code: i32)
    ensures
        code == match failure {
            Fatal::NoLog => EXIT_NO_LOG,
            Fatal::NoMountList => EXIT_NO_MOUNT_LIST,
        },
        code != EXIT_DONE,
{
    match failure {
        Fatal::NoLog => EXIT_NO_LOG,
        Fatal::NoMountList => EXIT_NO_MOUNT_LIST,
    }
}

/// What the loop does once a cycle has been reported.
#[derive(Clone, Copy, Debug, PartialEq, Eq, Structural)]
pub enum LoopStep {
    /// End the process with this exit code.
    Exit { code: i32 },
    /// Wait this many seconds, then run the next cycle.
    Sleep { seconds: u64 },
}

/// Decides what follows a cycle: the process ends after a single cycle that
/// was asked for, and otherwise the loop waits for the poll interval and goes
/// on. In continuous mode the loop never ends by itself.
pub fn after_tick(options: &Options) -> (step: LoopStep)
    ensures
        step == if options.once_only {
            LoopStep::Exit { code: EXIT_DONE }
        } else {
            LoopStep::Sleep { seconds: options.poll_interval }
        },
{
    if options.once_only {
        LoopStep::Exit { code: EXIT_DONE }
    } else {
        LoopStep::Sleep { seconds: options.poll_interval }
    }
}

} // verus!
