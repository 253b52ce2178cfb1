//! Task lifecycle: the states one text-to-speech job moves through.

use vstd::prelude::*;
use crate::error::{AppError, transition_error, transition_message};
use crate::id::Id;
use crate::clock::now_millis;

verus! {

/// Status of a task.
#[derive(Debug, Clone, Copy, PartialEq, Eq, Structural)]
pub enum TaskStatus {
    /// Created, waiting for the task queue.
    Pending,
    /// In the task queue, waiting for the chunker.
    Queued,
    /// The chunker is running.
    Chunking,
    /// At least one chunk is queued or being synthesized.
    Processing,
    /// All chunks done; merging the final audio.
    Merging,
    /// The merge failed; retryable.
    MergingFailed,
    /// Paused by the user or the parent group.
    Paused,
    /// Audio merged; complete.
    Done,
    /// All chunks failed; unrecoverable.
    Failed,
    /// Cancelled by the user or the parent group.
    Cancelled,
}

/// The allowed edges of the task lifecycle.
pub open spec fn task_edge(from: TaskStatus, to: TaskStatus) -> bool {
    match (from, to) {
        (TaskStatus::Pending, TaskStatus::Queued) => true,
        (TaskStatus::Queued, TaskStatus::Chunking) => true,
        (TaskStatus::Queued, TaskStatus::Processing) => true,
        (TaskStatus::Chunking, TaskStatus::Processing) => true,
        (TaskStatus::Processing, TaskStatus::Merging) => true,
        (TaskStatus::Merging, TaskStatus::Done) => true,
        (TaskStatus::Merging, TaskStatus::MergingFailed) => true,
        (TaskStatus::MergingFailed, TaskStatus::Merging) => true,
        (TaskStatus::MergingFailed, TaskStatus::Done) => true,
        (TaskStatus::Processing, TaskStatus::Failed) => true,
        (TaskStatus::Failed, TaskStatus::Queued) => true,
        (TaskStatus::Queued, TaskStatus::Paused) => true,
        (TaskStatus::Chunking, TaskStatus::Paused) => true,
        (TaskStatus::Processing, TaskStatus::Paused) => true,
        (TaskStatus::Merging, TaskStatus::Paused) => true,
        (TaskStatus::MergingFailed, TaskStatus::Paused) => true,
        (TaskStatus::Paused, TaskStatus::Queued) => true,
        (TaskStatus::Paused, TaskStatus::Chunking) => true,
        (TaskStatus::Paused, TaskStatus::Processing) => true,
        (TaskStatus::Pending, TaskStatus::Cancelled) => true,
        (TaskStatus::Queued, TaskStatus::Cancelled) => true,
        (TaskStatus::Chunking, TaskStatus::Cancelled) => true,
        (TaskStatus::Processing, TaskStatus::Cancelled) => true,
        (TaskStatus::Merging, TaskStatus::Cancelled) => true,
        (TaskStatus::MergingFailed, TaskStatus::Cancelled) => true,
        (TaskStatus::Paused, TaskStatus::Cancelled) => true,
        (TaskStatus::Failed, TaskStatus::Cancelled) => true,
        _ => false,
    }
}

/// The variant's name, as `{:?}` prints it.
pub open spec fn task_status_name(s: TaskStatus) -> Seq<char> {
    match s {
        TaskStatus::Pending => "Pending"@,
        TaskStatus::Queued => "Queued"@,
        TaskStatus::Chunking => "Chunking"@,
        TaskStatus::Processing => "Processing"@,
        TaskStatus::Merging => "Merging"@,
        TaskStatus::MergingFailed => "MergingFailed"@,
        TaskStatus::Paused => "Paused"@,
        TaskStatus::Done => "Done"@,
        TaskStatus::Failed => "Failed"@,
        TaskStatus::Cancelled => "Cancelled"@,
    }
}

impl TaskStatus {
    /// Whether the lifecycle allows moving from `self` to `next`.
    pub fn can_transition_to(&self, next: &Self) -> (r: bool)
        ensures
            r == task_edge(*self, *next),
    {
        match (self, next) {
            (TaskStatus::Pending, TaskStatus::Queued) => true,
            (TaskStatus::Queued, TaskStatus::Chunking) => true,
            (TaskStatus::Queued, TaskStatus::Processing) => true,
            (TaskStatus::Chunking, TaskStatus::Processing) => true,
            (TaskStatus::Processing, TaskStatus::Merging) => true,
            (TaskStatus::Merging, TaskStatus::Done) => true,
            (TaskStatus::Merging, TaskStatus::MergingFailed) => true,
            (TaskStatus::MergingFailed, TaskStatus::Merging) => true,
            (TaskStatus::MergingFailed, TaskStatus::Done) => true,
            (TaskStatus::Processing, TaskStatus::Failed) => true,
            (TaskStatus::Failed, TaskStatus::Queued) => true,
            (TaskStatus::Queued, TaskStatus::Paused) => true,
            (TaskStatus::Chunking, TaskStatus::Paused) => true,
            (TaskStatus::Processing, TaskStatus::Paused) => true,
            (TaskStatus::Merging, TaskStatus::Paused) => true,
            (TaskStatus::MergingFailed, TaskStatus::Paused) => true,
            (TaskStatus::Paused, TaskStatus::Queued) => true,
            (TaskStatus::Paused, TaskStatus::Chunking) => true,
            (TaskStatus::Paused, TaskStatus::Processing) => true,
            (TaskStatus::Pending, TaskStatus::Cancelled) => true,
            (TaskStatus::Queued, TaskStatus::Cancelled) => true,
            (TaskStatus::Chunking, TaskStatus::Cancelled) => true,
            (TaskStatus::Processing, TaskStatus::Cancelled) => true,
            (TaskStatus::Merging, TaskStatus::Cancelled) => true,
            (TaskStatus::MergingFailed, TaskStatus::Cancelled) => true,
            (TaskStatus::Paused, TaskStatus::Cancelled) => true,
            (TaskStatus::Failed, TaskStatus::Cancelled) => true,
            _ => false,
        }
    }

    /// The variant's name.
    pub fn name(&self) -> (r: &'static str)
        ensures
            r@ == task_status_name(*self),
    {
        proof {
            reveal_strlit("Pending");
            reveal_strlit("Queued");
            reveal_strlit("Chunking");
            reveal_strlit("Processing");
            reveal_strlit("Merging");
            reveal_strlit("MergingFailed");
            reveal_strlit("Paused");
            reveal_strlit("Done");
            reveal_strlit("Failed");
            reveal_strlit("Cancelled");
        }
        match self {
            TaskStatus::Pending => "Pending",
            TaskStatus::Queued => "Queued",
            TaskStatus::Chunking => "Chunking",
            TaskStatus::Processing => "Processing",
            TaskStatus::Merging => "Merging",
            TaskStatus::MergingFailed => "MergingFailed",
            TaskStatus::Paused => "Paused",
            TaskStatus::Done => "Done",
            TaskStatus::Failed => "Failed",
            TaskStatus::Cancelled => "Cancelled",
        }
    }
}

/// Kind of a task.
#[derive(Debug, Clone, Copy, PartialEq, Eq, Structural)]
pub enum TaskType {
    /// Submitted on its own.
    Single,
    /// Created for one item of a batch.
    BatchChild,
}

/// States after which `completed_at` is stamped.
pub open spec fn task_is_terminal(s: TaskStatus) -> bool {
    s == TaskStatus::Done || s == TaskStatus::Cancelled
}

/// The part of a task that its lifecycle changes (timestamps in milliseconds
/// since the Unix epoch).
#[derive(Debug, Clone, Copy, PartialEq, Eq, Structural)]
pub struct TaskLifecycle {
    pub status: TaskStatus,
    pub updated_at: i64,
    pub completed_at: Option<i64>,
}

impl TaskLifecycle {
    /// A fresh task: Pending, created at `now`.
    pub fn new(now: i64) -> (r: Self)
        ensures
            r == (TaskLifecycle { status: TaskStatus::Pending, updated_at: now, completed_at: None }),
    {
        TaskLifecycle { status: TaskStatus::Pending, updated_at: now, completed_at: None }
    }

    /// Moves to `status` at time `now`, stamping `completed_at` for Done and
    /// Cancelled; refused edges change nothing.
    pub fn transition_to(&mut self, status: TaskStatus, now: i64) -> (r: Result<(), AppError>)
        ensures
            task_edge(old(self).status, status) ==> r is Ok && *final(self) == (TaskLifecycle {
                status,
                updated_at: now,
                completed_at: if task_is_terminal(status) {
                    Some(now)
                } else {
                    old(self).completed_at
                },
            }),
            !task_edge(old(self).status, status) ==> *final(self) == *old(self) && (r matches Err(
                AppError::InvalidInput(m),
            ) && m@ == transition_message(
                task_status_name(old(self).status),
                task_status_name(status),
            )),
    {
        if !self.status.can_transition_to(&status) {
            return Err(transition_error(self.status.name(), status.name()));
        }
        let terminal = match status {
            TaskStatus::Done | TaskStatus::Cancelled => true,
            _ => false,
        };
        self.status = status;
        self.updated_at = now;
        if terminal {
            self.completed_at = Some(now);
        }
        Ok(())
    }
}

/// What a new task is made from.
#[derive(Debug, Clone)]
pub struct CreateTaskRequest {
    pub task_type: TaskType,
    pub batch_id: Option<Id>,
    pub content: String,
    pub content_ref: Option<String>,
    pub title: String,
    pub voice: String,
    pub model: String,
    pub style: Option<String>,
    pub provider_id: Option<String>,
    pub total_chars: i64,
    pub total_tokens: i64,
}

/// One text-to-speech job (timestamps in milliseconds since the Unix epoch).
#[derive(Debug, Clone)]
pub struct Task {
    pub id: Id,
    pub task_type: TaskType,
    pub status: TaskStatus,
    pub batch_id: Option<Id>,
    pub group_id: Option<Id>,
    pub content: String,
    pub content_ref: Option<String>,
    pub title: String,
    pub voice: String,
    pub model: String,
    pub style: Option<String>,
    pub total_chars: i64,
    pub total_tokens: i64,
    pub total_chunks: i32,
    pub done_chunks: i32,
    pub failed_chunks: i32,
    pub output_path: Option<String>,
    pub provider_id: Option<String>,
    pub created_at: i64,
    pub updated_at: i64,
    pub completed_at: Option<i64>,
}

impl Task {
    /// The lifecycle part of the task.
    pub open spec fn lifecycle(&self) -> TaskLifecycle {
        TaskLifecycle { status: self.status, updated_at: self.updated_at, completed_at: self.completed_at }
    }

    /// A Pending task made from `req` at `now` with identifier `id`: no
    /// group, no chunks, no output yet.
    pub fn new_at(id: Id, req: CreateTaskRequest, now: i64) -> (r: Self)
        ensures
            r.id == id,
            r.task_type == req.task_type && r.batch_id == req.batch_id && r.content == req.content,
            r.content_ref == req.content_ref && r.title == req.title && r.voice == req.voice,
            r.model == req.model && r.style == req.style && r.provider_id == req.provider_id,
            r.total_chars == req.total_chars && r.total_tokens == req.total_tokens,
            r.group_id is None && r.output_path is None,
            r.total_chunks == 0 && r.done_chunks == 0 && r.failed_chunks == 0,
            r.created_at == now,
            r.lifecycle() == (TaskLifecycle { status: TaskStatus::Pending, updated_at: now, completed_at: None }),
    {
        Task {
            id,
            task_type: req.task_type,
            status: TaskStatus::Pending,
            batch_id: req.batch_id,
            group_id: None,
            content: req.content,
            content_ref: req.content_ref,
            title: req.title,
            voice: req.voice,
            model: req.model,
            style: req.style,
            total_chars: req.total_chars,
            total_tokens: req.total_tokens,
            total_chunks: 0,
            done_chunks: 0,
            failed_chunks: 0,
            output_path: None,
            provider_id: req.provider_id,
            created_at: now,
            updated_at: now,
            completed_at: None,
        }
    }

    /// A Pending task made from `req` with a fresh identifier, created now.
    pub fn new(req: CreateTaskRequest) -> (r: Self)
        ensures
            r.task_type == req.task_type && r.batch_id == req.batch_id && r.content == req.content,
            r.title == req.title && r.voice == req.voice && r.model == req.model,
            r.status == TaskStatus::Pending && r.completed_at is None && r.group_id is None,
            r.total_chunks == 0 && r.done_chunks == 0 && r.failed_chunks == 0,
    {
        Task::new_at(Id::new(), req, now_millis())
    }

    /// Moves to `status` at `now` as `TaskLifecycle::transition_to` does.
    pub fn transition_at(&mut self, status: TaskStatus, now: i64) -> (r: Result<(), AppError>)
        ensures
            task_edge(old(self).status, status) ==> r is Ok && final(self).lifecycle() == (TaskLifecycle {
                status,
                updated_at: now,
                completed_at: if task_is_terminal(status) {
                    Some(now)
                } else {
                    old(self).completed_at
                },
            }),
            !task_edge(old(self).status, status) ==> final(self).lifecycle() == old(self).lifecycle()
                && (r matches Err(AppError::InvalidInput(m)) && m@ == transition_message(
                task_status_name(old(self).status),
                task_status_name(status),
            )),
            final(self).id == old(self).id && final(self).content == old(self).content,
            final(self).created_at == old(self).created_at,
    {
        let mut l = TaskLifecycle { status: self.status, updated_at: self.updated_at, completed_at: self.completed_at };
        let r = l.transition_to(status, now);
        self.status = l.status;
        self.updated_at = l.updated_at;
        self.completed_at = l.completed_at;
        r
    }

    /// Moves to `status` now.
    pub fn transition_to(&mut self, status: TaskStatus) -> (r: Result<(), AppError>)
        ensures
            task_edge(old(self).status, status) ==> r is Ok && final(self).status == status && (task_is_terminal(
                status,
            ) ==> final(self).completed_at is Some),
            !task_edge(old(self).status, status) ==> final(self).lifecycle() == old(self).lifecycle() && r is Err,
    {
        self.transition_at(status, now_millis())
    }
}

/// Done and Cancelled tasks never move again; every other task can be
/// cancelled directly; a task reaches Done only through a merge.
pub proof fn lemma_task_lifecycle_shape(from: TaskStatus, to: TaskStatus)
    ensures
        task_is_terminal(from) ==> !task_edge(from, to),
        !task_is_terminal(from) ==> task_edge(from, TaskStatus::Cancelled),
        task_edge(from, TaskStatus::Done) <==> (from == TaskStatus::Merging || from
            == TaskStatus::MergingFailed),
        task_edge(from, to) ==> from != to,
{
}

} // verus!
