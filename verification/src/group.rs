//! Groups of tasks and their lifecycle.

use vstd::prelude::*;
use crate::error::{AppError, transition_error, transition_message};
use crate::id::Id;
use crate::clock::now_millis;
use crate::text::{signed_decimal, signed_decimal_string};

verus! {

/// Status of a group.
#[derive(Debug, Clone, Copy, PartialEq, Eq, Structural)]
pub enum GroupStatus {
    /// Created, not queued.
    Pending,
    /// Submitted to the task queue.
    Queued,
    /// All child tasks are in the queue.
    Processing,
    /// All tasks paused.
    Paused,
    /// All child tasks done.
    Completed,
    /// Some child task failed.
    Failed,
    /// Cancelled by the user.
    Cancelled,
}

/// The allowed edges of the group lifecycle.
pub open spec fn group_edge(from: GroupStatus, to: GroupStatus) -> bool {
    match (from, to) {
        (GroupStatus::Pending, GroupStatus::Queued) => true,
        (GroupStatus::Queued, GroupStatus::Processing) => true,
        (GroupStatus::Processing, GroupStatus::Completed) => true,
        (GroupStatus::Processing, GroupStatus::Failed) => true,
        (GroupStatus::Processing, GroupStatus::Paused) => true,
        (GroupStatus::Processing, GroupStatus::Cancelled) => true,
        (GroupStatus::Paused, GroupStatus::Processing) => true,
        (GroupStatus::Paused, GroupStatus::Cancelled) => true,
        (GroupStatus::Failed, GroupStatus::Queued) => true,
        (GroupStatus::Failed, GroupStatus::Cancelled) => true,
        (GroupStatus::Completed, GroupStatus::Queued) => true,
        _ => false,
    }
}

/// The variant's name, as `{:?}` prints it.
pub open spec fn group_status_name(s: GroupStatus) -> Seq<char> {
    match s {
        GroupStatus::Pending => "Pending"@,
        GroupStatus::Queued => "Queued"@,
        GroupStatus::Processing => "Processing"@,
        GroupStatus::Paused => "Paused"@,
        GroupStatus::Completed => "Completed"@,
        GroupStatus::Failed => "Failed"@,
        GroupStatus::Cancelled => "Cancelled"@,
    }
}

impl GroupStatus {
    /// Whether the lifecycle allows moving from `self` to `next`.
    pub fn can_transition_to(&self, next: &Self) -> (r: bool)
        ensures
            r == group_edge(*self, *next),
    {
        match (self, next) {
            (GroupStatus::Pending, GroupStatus::Queued) => true,
            (GroupStatus::Queued, GroupStatus::Processing) => true,
            (GroupStatus::Processing, GroupStatus::Completed) => true,
            (GroupStatus::Processing, GroupStatus::Failed) => true,
            (GroupStatus::Processing, GroupStatus::Paused) => true,
            (GroupStatus::Processing, GroupStatus::Cancelled) => true,
            (GroupStatus::Paused, GroupStatus::Processing) => true,
            (GroupStatus::Paused, GroupStatus::Cancelled) => true,
            (GroupStatus::Failed, GroupStatus::Queued) => true,
            (GroupStatus::Failed, GroupStatus::Cancelled) => true,
            (GroupStatus::Completed, GroupStatus::Queued) => true,
            _ => false,
        }
    }

    /// The variant's name.
    pub fn name(&self) -> (r: &'static str)
        ensures
            r@ == group_status_name(*self),
    {
        proof {
            reveal_strlit("Pending");
            reveal_strlit("Queued");
            reveal_strlit("Processing");
            reveal_strlit("Paused");
            reveal_strlit("Completed");
            reveal_strlit("Failed");
            reveal_strlit("Cancelled");
        }
        match self {
            GroupStatus::Pending => "Pending",
            GroupStatus::Queued => "Queued",
            GroupStatus::Processing => "Processing",
            GroupStatus::Paused => "Paused",
            GroupStatus::Completed => "Completed",
            GroupStatus::Failed => "Failed",
            GroupStatus::Cancelled => "Cancelled",
        }
    }
}

/// States after which `completed_at` is stamped.
pub open spec fn group_is_terminal(s: GroupStatus) -> bool {
    s == GroupStatus::Completed || s == GroupStatus::Cancelled
}

/// A group of tasks created from one batch (timestamps in milliseconds since
/// the Unix epoch).
#[derive(Debug, Clone)]
pub struct Group {
    pub id: Id,
    pub batch_id: Id,
    pub status: GroupStatus,
    pub title: String,
    pub total_tasks: i32,
    pub done_tasks: i32,
    pub failed_tasks: i32,
    pub created_at: i64,
    pub updated_at: i64,
    pub completed_at: Option<i64>,
}

impl Group {
    /// A new, empty, Pending group with a fresh id.
    pub fn new(batch_id: Id, title: String) -> (r: Self)
        ensures
            r.batch_id == batch_id,
            r.title == title,
            r.status == GroupStatus::Pending,
            r.total_tasks == 0 && r.done_tasks == 0 && r.failed_tasks == 0,
            r.created_at == r.updated_at,
            r.completed_at is None,
    {
        let now = now_millis();
        Group {
            id: Id::new(),
            batch_id,
            status: GroupStatus::Pending,
            title,
            total_tasks: 0,
            done_tasks: 0,
            failed_tasks: 0,
            created_at: now,
            updated_at: now,
            completed_at: None,
        }
    }

    /// Moves to `status` at time `now`, stamping `completed_at` for Completed
    /// and Cancelled; refused edges change nothing.
    pub fn transition_at(&mut self, status: GroupStatus, now: i64) -> (r: Result<(), AppError>)
        ensures
            group_edge(old(self).status, status) ==> r is Ok && final(self).status == status
                && final(self).updated_at == now && final(self).completed_at == (if group_is_terminal(
                status,
            ) {
                Some(now)
            } else {
                old(self).completed_at
            }),
            !group_edge(old(self).status, status) ==> final(self).status == old(self).status
                && final(self).updated_at == old(self).updated_at && final(self).completed_at
                == old(self).completed_at && (r matches Err(AppError::InvalidInput(m))
                && m@ == transition_message(
                group_status_name(old(self).status),
                group_status_name(status),
            )),
            final(self).id == old(self).id,
            final(self).batch_id == old(self).batch_id,
            final(self).title == old(self).title,
            final(self).total_tasks == old(self).total_tasks,
            final(self).done_tasks == old(self).done_tasks,
            final(self).failed_tasks == old(self).failed_tasks,
            final(self).created_at == old(self).created_at,
    {
        if !self.status.can_transition_to(&status) {
            return Err(transition_error(self.status.name(), status.name()));
        }
        let terminal = match status {
            GroupStatus::Completed | GroupStatus::Cancelled => true,
            _ => false,
        };
        self.status = status;
        self.updated_at = now;
        if terminal {
            self.completed_at = Some(now);
        }
        Ok(())
    }

    /// `transition_at` with the current time.
    pub fn transition_to(&mut self, status: GroupStatus) -> (r: Result<(), AppError>)
        ensures
            group_edge(old(self).status, status) ==> r is Ok && final(self).status == status
                && (group_is_terminal(status) ==> final(self).completed_at == Some(
                final(self).updated_at,
            )) && (!group_is_terminal(status) ==> final(self).completed_at == old(
                self,
            ).completed_at),
            !group_edge(old(self).status, status) ==> final(self).status == old(self).status
                && final(self).updated_at == old(self).updated_at && final(self).completed_at
                == old(self).completed_at && (r matches Err(AppError::InvalidInput(m))
                && m@ == transition_message(
                group_status_name(old(self).status),
                group_status_name(status),
            )),
            final(self).id == old(self).id,
            final(self).title == old(self).title,
            final(self).total_tasks == old(self).total_tasks,
            final(self).done_tasks == old(self).done_tasks,
            final(self).failed_tasks == old(self).failed_tasks,
    {
        let now = now_millis();
        self.transition_at(status, now)
    }
}

/// A task of a group finished: the matching counter grows; once every task
/// is terminal the group becomes Completed (some done) or Failed (none done)
/// and `completed_at` is stamped, whatever its status was.
pub open spec fn group_all_terminal(g: Group) -> bool {
    g.done_tasks + g.failed_tasks >= g.total_tasks
}

impl Group {
    /// Counts one finished task (`succeeded` says how it ended) at `now`.
    pub fn record_task_outcome(&mut self, succeeded: bool, now: i64)
        requires
            succeeded ==> old(self).done_tasks < i32::MAX,
            !succeeded ==> old(self).failed_tasks < i32::MAX,
        ensures
            final(self).done_tasks == old(self).done_tasks + if succeeded { 1int } else { 0int },
            final(self).failed_tasks == old(self).failed_tasks + if succeeded { 0int } else { 1int },
            final(self).updated_at == now,
            final(self).id == old(self).id && final(self).batch_id == old(self).batch_id,
            final(self).title == old(self).title && final(self).total_tasks == old(self).total_tasks,
            final(self).created_at == old(self).created_at,
            group_all_terminal(*final(self)) ==> final(self).completed_at == Some(now) && final(self).status
                == if final(self).done_tasks > 0 { GroupStatus::Completed } else { GroupStatus::Failed },
            !group_all_terminal(*final(self)) ==> final(self).completed_at == old(self).completed_at
                && final(self).status == old(self).status,
    {
        if succeeded {
            self.done_tasks = self.done_tasks + 1;
        } else {
            self.failed_tasks = self.failed_tasks + 1;
        }
        self.updated_at = now;
        if (self.done_tasks as i64) + (self.failed_tasks as i64) >= self.total_tasks as i64 {
            self.status = if self.done_tasks > 0 {
                GroupStatus::Completed
            } else {
                GroupStatus::Failed
            };
            self.completed_at = Some(now);
        }
    }
}

/// What a group's status says after one of its tasks finished.
#[derive(Debug, Clone, PartialEq, Eq)]
pub enum GroupOutcome {
    /// Still running.
    InProgress,
    /// Completed.
    Completed,
    /// Failed, with this message.
    Failed(String),
}

/// `Group failed: {failed}/{total} failed`.
pub open spec fn group_failed_message(failed: int, total: int) -> Seq<char> {
    "Group failed: "@ + signed_decimal(failed) + "/"@ + signed_decimal(total) + " failed"@
}

/// Reads the outcome of a group.
pub fn group_outcome(g: &Group) -> (r: GroupOutcome)
    ensures
        g.status == GroupStatus::Completed ==> r == GroupOutcome::Completed,
        g.status == GroupStatus::Failed ==> (r matches GroupOutcome::Failed(m) && m@ == group_failed_message(
            g.failed_tasks as int,
            g.total_tasks as int,
        )),
        g.status != GroupStatus::Completed && g.status != GroupStatus::Failed ==> r == GroupOutcome::InProgress,
{
    match g.status {
        GroupStatus::Completed => GroupOutcome::Completed,
        GroupStatus::Failed => {
            let mut m = String::from_str("Group failed: ");
            let f = signed_decimal_string(g.failed_tasks as i64);
            m.append(f.as_str());
            m.append("/");
            let t = signed_decimal_string(g.total_tasks as i64);
            m.append(t.as_str());
            m.append(" failed");
            GroupOutcome::Failed(m)
        },
        _ => GroupOutcome::InProgress,
    }
}

/// A cancelled group never moves again; a completed group can only be re-run;
/// a group reaches Completed only from Processing.
pub proof fn lemma_group_lifecycle_shape(from: GroupStatus, to: GroupStatus)
    ensures
        from == GroupStatus::Cancelled ==> !group_edge(from, to),
        from == GroupStatus::Completed ==> (group_edge(from, to) <==> to == GroupStatus::Queued),
        group_edge(from, GroupStatus::Completed) <==> from == GroupStatus::Processing,
        group_edge(from, to) ==> from != to,
{
}

} // verus!
