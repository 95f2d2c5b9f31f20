use vstd::prelude::*;

use crate::state_machine::State;
use crate::time::now_unix_seconds;

verus! {

/// The severity of an audit-log entry.
#[derive(Clone, Copy, Debug, PartialEq, Eq, Structural)]
pub enum LogLevel {
    Info,
    Warn,
    Error,
    Audit,
}

/// The events the daemon reports on its line-delimited audit stream.
pub enum TuffEvent {
    SystemBoot { version: String },
    StateTransition { from: State, to: State, reason: String },
    KeySearch { status: String },
    KeyDetected { device: String, key_uuid: String },
    KeyRejected { device: String, reason: String },
    MountSuccess { path: String },
    MountFailure { path: String, error: String },
    IoError { context: String, error: String },
    KeyMismatch { reason: String },
}

/// One audit-log line: when it happened, how severe it is, and what
/// happened.
pub struct TuffLogEntry {
    pub timestamp: u64,
    pub level: LogLevel,
    pub event: TuffEvent,
}

impl TuffLogEntry {
    /// A log entry stamped with the current time; a clock before the
    /// epoch stamps zero.
    pub fn new(level: LogLevel, event: TuffEvent) -> (e: Self)
        ensures
            e.level == level,
            e.event == event,
    {
        let timestamp = match now_unix_seconds() {
            Option::Some(t) => t,
            Option::None => 0,
        };
        TuffLogEntry { timestamp, level, event }
    }
}

} // verus!
