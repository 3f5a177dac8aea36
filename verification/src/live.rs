//! Decisions of the live front end: when to wait for input, refresh the snapshot or read logs,
//! and what to report after a lifecycle action.

use vstd::prelude::*;

use crate::protocol::{ProjectSnapshot, ServiceActionDto, TaskId};

verus! {

/// Longest wait for input before the schedule is checked again, in milliseconds.
pub const INPUT_MAX_WAIT_MILLIS: u64 = 50;

/// Time between two snapshot refreshes, in milliseconds.
pub const SNAPSHOT_INTERVAL_MILLIS: u64 = 500;

/// Time between two log reads on the log page, in milliseconds.
pub const LOG_INTERVAL_MILLIS: u64 = 200;

/// A batch of a task's log that the live session delivered.
#[derive(Clone, Debug)]
pub struct LogUpdate {
    /// Task the log belongs to.
    pub task_id: TaskId,
    /// New raw bytes.
    pub bytes: Vec<u8>,
    /// Whether a part of the file that can no longer be read was skipped.
    pub gap: bool,
}

/// Error of an input or output operation, as std reports it.
#[verifier::external_type_specification]
#[verifier::external_body]
pub struct ExIoError(std::io::Error);

/// What the terminal front end needs of a live session with the central server; implemented
/// by the session's owner.
pub trait LiveSession {
    /// Checks for new events and returns a fresh snapshot when the data changed or a resync is
    /// needed.
    fn poll_snapshot(&mut self) -> Result<Option<ProjectSnapshot>, std::io::Error>;

    /// Runs a lifecycle action on the service and returns the snapshot after it.
    fn manage(&mut self, action: ServiceActionDto) -> Result<ProjectSnapshot, std::io::Error>;

    /// Reads more of a task's local log.
    fn poll_log(&mut self, task_id: &TaskId) -> Result<Option<LogUpdate>, std::io::Error>;
}

/// Short feedback after a lifecycle action completed.
pub open spec fn action_message(action: ServiceActionDto) -> Seq<char> {
    match action {
        ServiceActionDto::Start => "服务启动请求已完成"@,
        ServiceActionDto::Restart => "服务重启请求已完成"@,
        ServiceActionDto::Stop => "服务停止请求已完成"@,
    }
}

/// Short feedback after a lifecycle action completed.
pub fn action_feedback(action: ServiceActionDto) -> (result: &'static str)
    ensures
        result@ == action_message(action),
{
    match action {
        ServiceActionDto::Start => "服务启动请求已完成",
        ServiceActionDto::Restart => "服务重启请求已完成",
        ServiceActionDto::Stop => "服务停止请求已完成",
    }
}

/// When the live front end next refreshes the snapshot and reads the log, in milliseconds
/// since a fixed start.
#[derive(Clone, Copy, Debug, PartialEq, Eq, Structural)]
pub struct LiveSchedule {
    /// When the snapshot is refreshed next.
    pub next_snapshot: u64,
    /// When the log is read next.
    pub next_log: u64,
}

impl LiveSchedule {
    /// Both refreshes due at `now`.
    pub fn starting_at(now: u64) -> (result: LiveSchedule)
        ensures
            result == (LiveSchedule { next_snapshot: now, next_log: now }),
    {
        LiveSchedule { next_snapshot: now, next_log: now }
    }

    /// How long to wait for input at `now`: until the next due refresh (the log read counts
    /// only on the log page), at most the input wait limit.
    pub fn input_wait(self, now: u64, logs_page: bool) -> (result: u64)
        ensures
            ({
                let deadline = if logs_page && self.next_log < self.next_snapshot {
                    self.next_log
                } else {
                    self.next_snapshot
                };
                let remaining = if deadline > now {
                    deadline - now
                } else {
                    0
                };
                result == if remaining < INPUT_MAX_WAIT_MILLIS {
                    remaining
                } else {
                    INPUT_MAX_WAIT_MILLIS as int
                }
            }),
    {
        let deadline = if logs_page && self.next_log < self.next_snapshot {
            self.next_log
        } else {
            self.next_snapshot
        };
        let remaining = deadline.saturating_sub(now);
        if remaining < INPUT_MAX_WAIT_MILLIS {
            remaining
        } else {
            INPUT_MAX_WAIT_MILLIS
        }
    }

    /// Whether the snapshot is due at `now`; when it is, the next refresh is scheduled.
    pub fn take_snapshot_due(&mut self, now: u64) -> (result: bool)
        ensures
            result == (now >= old(self).next_snapshot),
            final(self).next_log == old(self).next_log,
            final(self).next_snapshot == (if result {
                now.saturating_add(SNAPSHOT_INTERVAL_MILLIS) as int
            } else {
                old(self).next_snapshot as int
            }),
    {
        if now >= self.next_snapshot {
            self.next_snapshot = now.saturating_add(SNAPSHOT_INTERVAL_MILLIS);
            true
        } else {
            false
        }
    }

    /// Whether the log is due at `now` on the log page; when it is, the next read is scheduled.
    pub fn take_log_due(&mut self, now: u64, logs_page: bool) -> (result: bool)
        ensures
            result == (logs_page && now >= old(self).next_log),
            final(self).next_snapshot == old(self).next_snapshot,
            final(self).next_log == (if result {
                now.saturating_add(LOG_INTERVAL_MILLIS) as int
            } else {
                old(self).next_log as int
            }),
    {
        if logs_page && now >= self.next_log {
            self.next_log = now.saturating_add(LOG_INTERVAL_MILLIS);
            true
        } else {
            false
        }
    }
}

} // verus!
