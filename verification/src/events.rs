//! Domain events and how the task queue reacts to them.

use vstd::prelude::*;
use crate::id::Id;
use crate::text::str_equals;

verus! {

/// Something that happened in the pipeline. Durations of produced audio are
/// carried beside the event by the caller, not in it.
#[derive(Debug, Clone)]
pub enum DomainEvent {
    FileParsed { batch_id: Id, filename: String, seq: i32, chars: i64, tokens: i64 },
    ParsingComplete { batch_id: Id, total: usize, parsed: usize, failed: usize },
    TaskEnqueued { task_id: Id, batch_id: Option<Id> },
    ChunkCompleted { chunk_id: Id, task_id: Id, seq: i32, audio_path: String },
    ChunkFailed { chunk_id: Id, task_id: Id, seq: i32, error: String, retry_count: i32 },
    AllChunksDone { task_id: Id, total_chunks: i32 },
    TaskCompleted { task_id: Id, batch_id: Option<Id>, output_path: String },
    TaskFailed { task_id: Id, error: String },
    BatchPaused { batch_id: Id },
    BatchResumed { batch_id: Id },
    BatchCancelled { batch_id: Id },
    BatchCompleted { batch_id: Id },
    BatchFailed { batch_id: Id, error: String, failed_count: i32 },
    GroupCompleted { group_id: Id, batch_id: Id },
    GroupFailed { group_id: Id, batch_id: Id, error: String },
    TaskStatusChanged { task_id: Id, batch_id: Option<Id>, status: String },
}

/// The task queue's reaction to an event.
#[derive(Debug, Clone)]
pub enum EventAction {
    /// Recount the task's chunks after one finished.
    ChunkCompleted { task_id: Id },
    /// Recount the task's chunks after one failed for good.
    ChunkFailed { task_id: Id },
    /// Merge the task's audio.
    AllChunksDone { task_id: Id },
    /// Record the task's success in its group and batch.
    TaskCompleted { task_id: Id, batch_id: Option<Id> },
    /// Record the task's failure in its group.
    TaskFailed { task_id: Id },
    /// A cancelled task counts as failed for its group's completion.
    TaskCancelled { task_id: Id },
    /// Nothing to do.
    Ignore,
}

/// The reaction to `e`.
pub open spec fn action_of(e: DomainEvent) -> EventAction {
    match e {
        DomainEvent::ChunkCompleted { task_id, .. } => EventAction::ChunkCompleted { task_id },
        DomainEvent::ChunkFailed { task_id, .. } => EventAction::ChunkFailed { task_id },
        DomainEvent::AllChunksDone { task_id, .. } => EventAction::AllChunksDone { task_id },
        DomainEvent::TaskCompleted { task_id, batch_id, .. } => EventAction::TaskCompleted { task_id, batch_id },
        DomainEvent::TaskFailed { task_id, .. } => EventAction::TaskFailed { task_id },
        DomainEvent::TaskStatusChanged { task_id, status, .. } => if status@ == "cancelled"@ {
            EventAction::TaskCancelled { task_id }
        } else {
            EventAction::Ignore
        },
        _ => EventAction::Ignore,
    }
}

/// Decides how the task queue reacts to an event.
pub fn event_action(e: DomainEvent) -> (r: EventAction)
    ensures
        r == action_of(e),
{
    match e {
        DomainEvent::ChunkCompleted { task_id, .. } => EventAction::ChunkCompleted { task_id },
        DomainEvent::ChunkFailed { task_id, .. } => EventAction::ChunkFailed { task_id },
        DomainEvent::AllChunksDone { task_id, .. } => EventAction::AllChunksDone { task_id },
        DomainEvent::TaskCompleted { task_id, batch_id, .. } => EventAction::TaskCompleted { task_id, batch_id },
        DomainEvent::TaskFailed { task_id, .. } => EventAction::TaskFailed { task_id },
        DomainEvent::TaskStatusChanged { task_id, status, .. } => {
            if str_equals(status.as_str(), "cancelled") {
                EventAction::TaskCancelled { task_id }
            } else {
                EventAction::Ignore
            }
        },
        _ => EventAction::Ignore,
    }
}

} // verus!
