//! The background patrols that keep the queue moving: the task watchdog,
//! the queue patrol and the chunk recovery. Their timers and store queries
//! run around these settings and decisions (durations in whole seconds).

use vstd::prelude::*;
use crate::text::{signed_decimal, signed_decimal_string};

verus! {

/// Settings of the task watchdog.
#[derive(Debug, Clone, Copy, PartialEq, Eq, Structural)]
pub struct WatchdogConfig {
    /// How often the patrol runs.
    pub patrol_interval_secs: u64,
    /// How long a task may sit in Processing before it is looked at.
    pub stale_threshold_secs: u64,
}

impl Default for WatchdogConfig {
    /// A patrol every 30 s; stale after five minutes.
    fn default() -> (r: Self)
        ensures
            r == (WatchdogConfig { patrol_interval_secs: 30, stale_threshold_secs: 300 }),
    {
        WatchdogConfig { patrol_interval_secs: 30, stale_threshold_secs: 300 }
    }
}

/// The watchdog's staleness threshold in whole minutes (rounded down).
pub fn watchdog_stale_minutes(c: &WatchdogConfig) -> (r: i64)
    ensures
        r == c.stale_threshold_secs / 60,
{
    (c.stale_threshold_secs / 60) as i64
}

/// What the watchdog does with a task stale in Processing.
#[derive(Debug, Clone, PartialEq, Eq)]
pub enum WatchdogVerdict {
    /// Chunks are still pending or processing: leave the task alone.
    StillActive,
    /// Nothing is left to run: fail the task with this message.
    Fail(String),
}

/// The message of a task failed by the watchdog.
pub open spec fn watchdog_message(done: int, failed: int) -> Seq<char> {
    "Task stuck in processing \u{2014} watchdog detected no active chunks ("@ + signed_decimal(done)
        + " done, "@ + signed_decimal(failed) + " failed)"@
}

/// Judges a stale task from the counts of its chunks by status.
pub fn watchdog_verdict(pending: i64, processing: i64, done: i64, failed: i64) -> (r: WatchdogVerdict)
    ensures
        (pending > 0 || processing > 0) ==> r == WatchdogVerdict::StillActive,
        !(pending > 0 || processing > 0) ==> (r matches WatchdogVerdict::Fail(m) && m@ == watchdog_message(
            done as int,
            failed as int,
        )),
{
    if pending > 0 || processing > 0 {
        return WatchdogVerdict::StillActive;
    }
    let mut m = String::from_str("Task stuck in processing \u{2014} watchdog detected no active chunks (");
    let d = signed_decimal_string(done);
    m.append(d.as_str());
    m.append(" done, ");
    let f = signed_decimal_string(failed);
    m.append(f.as_str());
    m.append(" failed)");
    WatchdogVerdict::Fail(m)
}

/// Settings of the queue patrol.
#[derive(Debug, Clone, Copy, PartialEq, Eq, Structural)]
pub struct QueuePatrolConfig {
    /// How often the patrol runs.
    pub patrol_interval_secs: u64,
    /// How long a task may stay Pending before it is re-enqueued.
    pub stale_pending_threshold_secs: u64,
    /// How long a task may stay Queued without chunks before it is reset.
    pub stale_queued_threshold_secs: u64,
}

impl Default for QueuePatrolConfig {
    /// A patrol every 30 s; Pending stale after 60 s, Queued after 120 s.
    fn default() -> (r: Self)
        ensures
            r == (QueuePatrolConfig {
                patrol_interval_secs: 30,
                stale_pending_threshold_secs: 60,
                stale_queued_threshold_secs: 120,
            }),
    {
        QueuePatrolConfig {
            patrol_interval_secs: 30,
            stale_pending_threshold_secs: 60,
            stale_queued_threshold_secs: 120,
        }
    }
}

/// A threshold in whole minutes, at least one.
pub open spec fn minutes_at_least_one(secs: u64) -> u64 {
    if secs / 60 == 0 {
        1
    } else {
        secs / 60
    }
}

/// The minutes after which a Pending task counts as stale.
pub fn stale_pending_minutes(c: &QueuePatrolConfig) -> (r: u64)
    ensures
        r == minutes_at_least_one(c.stale_pending_threshold_secs),
{
    let m = c.stale_pending_threshold_secs / 60;
    if m == 0 {
        1
    } else {
        m
    }
}

/// The minutes after which a Queued task without chunks counts as stuck.
pub fn stale_queued_minutes(c: &QueuePatrolConfig) -> (r: u64)
    ensures
        r == minutes_at_least_one(c.stale_queued_threshold_secs),
{
    let m = c.stale_queued_threshold_secs / 60;
    if m == 0 {
        1
    } else {
        m
    }
}

/// Settings of the chunk recovery.
#[derive(Debug, Clone, Copy, PartialEq, Eq, Structural)]
pub struct ChunkRecoveryConfig {
    /// How often recovery runs.
    pub check_interval_secs: u64,
    /// How long a chunk may stay Processing before it is reset to Pending.
    pub stale_threshold_secs: u64,
}

impl Default for ChunkRecoveryConfig {
    /// A check every 30 s; stale after two minutes.
    fn default() -> (r: Self)
        ensures
            r == (ChunkRecoveryConfig { check_interval_secs: 30, stale_threshold_secs: 120 }),
    {
        ChunkRecoveryConfig { check_interval_secs: 30, stale_threshold_secs: 120 }
    }
}

/// The minutes after which a Processing chunk is reset, at least one.
pub fn recovery_stale_minutes(c: &ChunkRecoveryConfig) -> (r: u64)
    ensures
        r == minutes_at_least_one(c.stale_threshold_secs),
{
    let m = c.stale_threshold_secs / 60;
    if m == 0 {
        1
    } else {
        m
    }
}

} // verus!
