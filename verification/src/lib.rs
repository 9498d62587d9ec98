//! Scheduling core of a health monitor for mounted filesystems.
//!
//! A stuck mount can block any process that touches it, so every health
//! check runs in a separate process with a hard deadline. This library holds
//! the decisions around those processes: the status kept for each mountpoint,
//! the outcome of a bounded check, the rule that decides whether a new check
//! may start, the registry that follows the list of mounts, and the policy of
//! the polling loop. Starting, polling and killing processes is left to the
//! caller, which reports what happened as plain values.

pub mod machine;
pub mod poll;
pub mod registry;
pub mod status;
pub mod supervisor;
