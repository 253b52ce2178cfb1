use mimo_tts::batch::{Batch, BatchDefaults, BatchLifecycle, BatchPendingItem, BatchStatus, ItemOverride};
use mimo_tts::chunk::{Chunk, ChunkLifecycle, ChunkStatus};
use mimo_tts::error::AppError;
use mimo_tts::group::{Group, GroupOutcome, GroupStatus, group_outcome};
use mimo_tts::id::Id;
use mimo_tts::task::{CreateTaskRequest, Task, TaskLifecycle, TaskStatus, TaskType};

#[test]
fn test_group_status_valid_transitions() {
    let transitions = [
        (GroupStatus::Pending, GroupStatus::Queued),
        (GroupStatus::Queued, GroupStatus::Processing),
        (GroupStatus::Processing, GroupStatus::Completed),
        (GroupStatus::Processing, GroupStatus::Paused),
        (GroupStatus::Paused, GroupStatus::Processing),
        (GroupStatus::Failed, GroupStatus::Queued),
        (GroupStatus::Completed, GroupStatus::Queued),
    ];
    for (from, to) in &transitions {
        assert!(from.can_transition_to(to), "{:?} -> {:?} should be valid", from, to);
    }
}

#[test]
fn test_group_status_invalid_transitions() {
    assert!(!GroupStatus::Pending.can_transition_to(&GroupStatus::Completed));
    assert!(!GroupStatus::Cancelled.can_transition_to(&GroupStatus::Processing));
}

#[test]
fn test_group_creation() {
    let group = Group::new(Id::new(), "Test Group".into());
    assert_eq!(group.status, GroupStatus::Pending);
    assert_eq!(group.total_tasks, 0);
}

#[test]
fn test_batch_status_valid_transitions() {
    let transitions = [
        (BatchStatus::Preparing, BatchStatus::Queued),
        (BatchStatus::Preparing, BatchStatus::Cancelled),
        (BatchStatus::Queued, BatchStatus::Processing),
        (BatchStatus::Processing, BatchStatus::Completed),
        (BatchStatus::Processing, BatchStatus::Paused),
        (BatchStatus::Paused, BatchStatus::Processing),
        (BatchStatus::Failed, BatchStatus::Queued),
    ];
    for (from, to) in &transitions {
        assert!(from.can_transition_to(to), "{:?} -> {:?} should be valid", from, to);
    }
}

#[test]
fn test_batch_status_invalid_transitions() {
    assert!(!BatchStatus::Preparing.can_transition_to(&BatchStatus::Completed));
    assert!(!BatchStatus::Completed.can_transition_to(&BatchStatus::Processing));
    assert!(!BatchStatus::Cancelled.can_transition_to(&BatchStatus::Preparing));
}

#[test]
fn test_batch_creation() {
    let batch = Batch::new("Test Batch".into(), "v1".into(), "m1".into(), None);
    assert_eq!(batch.status, BatchStatus::Preparing);
    assert_eq!(batch.total_items, 0);
}

#[test]
fn test_batch_done_sets_completed_at() {
    let mut batch = Batch::new("Test".into(), "v".into(), "m".into(), None);
    batch.transition_to(BatchStatus::Queued).unwrap();
    batch.transition_to(BatchStatus::Processing).unwrap();
    batch.transition_to(BatchStatus::Completed).unwrap();
    assert!(batch.completed_at.is_some());
}

#[test]
fn test_pending_item_effective_inherits_batch() {
    let batch = Batch::new("Test".into(), "v1".into(), "m1".into(), None);
    let item = BatchPendingItem::new_for_test(&batch.defaults(), "file.txt", "content", None);
    assert_eq!(item.effective_voice, batch.voice);
    assert_eq!(item.effective_title, "file.txt");
}

#[test]
fn test_pending_item_effective_uses_custom() {
    let batch = Batch::new("Test".into(), "v1".into(), "m1".into(), None);
    let item = BatchPendingItem::new_for_test(
        &batch.defaults(),
        "file.txt",
        "content",
        Some((Some("custom_v".into()), Some("custom_title".into()))),
    );
    assert_eq!(item.effective_voice, "custom_v");
    assert_eq!(item.effective_title, "custom_title");
}

#[test]
fn pending_item_counts_bytes_and_half_tokens() {
    let defaults = BatchDefaults { voice: "v".into(), model: "m".into(), style: Some("calm".into()) };
    let item = BatchPendingItem::from_upload(&defaults, 3, "a.txt", "你好ab");
    assert_eq!(item.seq, 3);
    assert_eq!(item.total_chars, 8);
    assert_eq!(item.token_estimate, 4);
    assert_eq!(item.effective_model, "m");
    assert_eq!(item.effective_style.as_deref(), Some("calm"));
    assert_eq!(item.effective_title, "a.txt");
}

#[test]
fn pending_item_overrides_keep_unset_fields() {
    let defaults = BatchDefaults { voice: "v".into(), model: "m".into(), style: None };
    let item = BatchPendingItem::from_upload(&defaults, 1, "a.txt", "text");
    let first = item.with_overrides(
        &defaults,
        &ItemOverride { voice: Some("x".into()), model: None, title: Some("T".into()), style: None },
    );
    assert_eq!(first.effective_voice, "x");
    assert_eq!(first.effective_title, "T");
    let second = first.with_overrides(
        &defaults,
        &ItemOverride { voice: None, model: Some("m2".into()), title: None, style: Some("s".into()) },
    );
    assert_eq!(second.custom_voice.as_deref(), Some("x"));
    assert_eq!(second.effective_voice, "x");
    assert_eq!(second.effective_model, "m2");
    assert_eq!(second.effective_title, "T");
    assert_eq!(second.effective_style.as_deref(), Some("s"));
}

#[test]
fn test_chunk_status_valid() {
    let transitions = [
        (ChunkStatus::Pending, ChunkStatus::Queued),
        (ChunkStatus::Queued, ChunkStatus::Processing),
        (ChunkStatus::Processing, ChunkStatus::Done),
        (ChunkStatus::Processing, ChunkStatus::Failed),
        (ChunkStatus::Failed, ChunkStatus::Queued),
        (ChunkStatus::Failed, ChunkStatus::Dead),
    ];
    for (from, to) in &transitions {
        assert!(from.can_transition_to(to), "{:?} -> {:?} should be valid", from, to);
    }
}

#[test]
fn test_chunk_status_invalid() {
    assert!(!ChunkStatus::Dead.can_transition_to(&ChunkStatus::Queued));
    assert!(!ChunkStatus::Pending.can_transition_to(&ChunkStatus::Done));
    assert!(!ChunkStatus::Done.can_transition_to(&ChunkStatus::Failed));
}

#[test]
fn test_chunk_failed_increments_retry() {
    let mut chunk = Chunk::new(Id::new(), 1, "hello".into());
    chunk.transition_to(ChunkStatus::Queued).unwrap();
    chunk.transition_to(ChunkStatus::Processing).unwrap();
    chunk.transition_to(ChunkStatus::Failed).unwrap();
    assert_eq!(chunk.retry_count, 1);
}

#[test]
fn test_chunk_done_sets_completed_at() {
    let mut chunk = Chunk::new(Id::new(), 1, "hello".into());
    chunk.transition_to(ChunkStatus::Queued).unwrap();
    chunk.transition_to(ChunkStatus::Processing).unwrap();
    chunk.transition_to(ChunkStatus::Done).unwrap();
    assert!(chunk.completed_at.is_some());
}

#[test]
fn test_chunk_with_retry_config() {
    let chunk = Chunk::new(Id::new(), 1, "hello".into()).with_retry_config(5);
    assert_eq!(chunk.max_retries, 5);
}

#[test]
fn chunk_refused_transition_names_both_states() {
    let mut l = ChunkLifecycle::new(10);
    match l.transition_to(ChunkStatus::Done, 20) {
        Err(AppError::InvalidInput(m)) => assert_eq!(m, "Cannot transition from Pending to Done"),
        other => panic!("unexpected {:?}", other),
    }
    assert_eq!(l, ChunkLifecycle::new(10));
}

#[test]
fn test_task_status_valid_transitions() {
    let transitions = [
        (TaskStatus::Pending, TaskStatus::Queued),
        (TaskStatus::Queued, TaskStatus::Chunking),
        (TaskStatus::Queued, TaskStatus::Processing),
        (TaskStatus::Chunking, TaskStatus::Processing),
        (TaskStatus::Processing, TaskStatus::Merging),
        (TaskStatus::Merging, TaskStatus::Done),
        (TaskStatus::Merging, TaskStatus::MergingFailed),
        (TaskStatus::MergingFailed, TaskStatus::Merging),
        (TaskStatus::MergingFailed, TaskStatus::Done),
        (TaskStatus::Processing, TaskStatus::Failed),
        (TaskStatus::Failed, TaskStatus::Queued),
        (TaskStatus::Processing, TaskStatus::Paused),
        (TaskStatus::Paused, TaskStatus::Processing),
        (TaskStatus::Pending, TaskStatus::Cancelled),
        (TaskStatus::Processing, TaskStatus::Cancelled),
        (TaskStatus::MergingFailed, TaskStatus::Cancelled),
    ];
    for (from, to) in &transitions {
        assert!(from.can_transition_to(to), "{:?} -> {:?} should be valid", from, to);
    }
}

#[test]
fn test_task_status_invalid_transitions() {
    assert!(!TaskStatus::Pending.can_transition_to(&TaskStatus::Done));
    assert!(!TaskStatus::Done.can_transition_to(&TaskStatus::Processing));
    assert!(!TaskStatus::Cancelled.can_transition_to(&TaskStatus::Pending));
    assert!(!TaskStatus::Pending.can_transition_to(&TaskStatus::Failed));
}

fn request(content: &str, title: &str, voice: &str, model: &str, chars: i64, tokens: i64) -> CreateTaskRequest {
    CreateTaskRequest {
        task_type: TaskType::Single,
        batch_id: None,
        content: content.into(),
        content_ref: None,
        title: title.into(),
        voice: voice.into(),
        model: model.into(),
        style: None,
        provider_id: None,
        total_chars: chars,
        total_tokens: tokens,
    }
}

#[test]
fn test_task_creation() {
    let task = Task::new(request("测试内容", "Test Task", "default_voice", "default_model", 100, 50));
    assert_eq!(task.status, TaskStatus::Pending);
    assert!(task.completed_at.is_none());
}

#[test]
fn test_task_transition() {
    let mut task = Task::new(request("hello", "t", "v", "m", 10, 5));
    task.transition_to(TaskStatus::Queued).unwrap();
    assert_eq!(task.status, TaskStatus::Queued);
    task.transition_to(TaskStatus::Chunking).unwrap();
    assert_eq!(task.status, TaskStatus::Chunking);
}

#[test]
fn test_task_invalid_transition_returns_error() {
    let mut task = Task::new(request("hello", "t", "v", "m", 10, 5));
    let result = task.transition_to(TaskStatus::Done);
    assert!(result.is_err());
    assert_eq!(task.status, TaskStatus::Pending);
}

#[test]
fn test_task_done_sets_completed_at() {
    let mut task = Task::new(request("hello", "t", "v", "m", 10, 5));
    task.transition_to(TaskStatus::Queued).unwrap();
    task.transition_to(TaskStatus::Chunking).unwrap();
    task.transition_to(TaskStatus::Processing).unwrap();
    task.transition_to(TaskStatus::Merging).unwrap();
    task.transition_to(TaskStatus::Done).unwrap();
    assert!(task.completed_at.is_some());
}

#[test]
fn task_lifecycle_stamps_times() {
    let mut l = TaskLifecycle::new(5);
    l.transition_to(TaskStatus::Queued, 6).unwrap();
    assert_eq!(l, TaskLifecycle { status: TaskStatus::Queued, updated_at: 6, completed_at: None });
    l.transition_to(TaskStatus::Cancelled, 9).unwrap();
    assert_eq!(l, TaskLifecycle { status: TaskStatus::Cancelled, updated_at: 9, completed_at: Some(9) });
    // a cancelled task never moves again
    for s in [TaskStatus::Pending, TaskStatus::Queued, TaskStatus::Done, TaskStatus::Failed] {
        assert!(l.transition_to(s, 10).is_err());
    }
}

#[test]
fn batch_lifecycle_terminal_states_stamp_completion() {
    let mut l = BatchLifecycle::new(1);
    l.transition_to(BatchStatus::Queued, 2).unwrap();
    l.transition_to(BatchStatus::Processing, 3).unwrap();
    l.transition_to(BatchStatus::Failed, 4).unwrap();
    assert_eq!(l.completed_at, Some(4));
    l.transition_to(BatchStatus::Queued, 5).unwrap();
    assert_eq!(l.completed_at, Some(4));
    assert_eq!(l.updated_at, 5);
}

#[test]
fn group_outcome_counts_finished_tasks() {
    let mut g = Group::new(Id::new(), "g".into());
    g.total_tasks = 3;
    g.record_task_outcome(true, 100);
    assert_eq!(group_outcome(&g), GroupOutcome::InProgress);
    g.record_task_outcome(false, 101);
    g.record_task_outcome(true, 102);
    assert_eq!(g.done_tasks, 2);
    assert_eq!(g.failed_tasks, 1);
    assert_eq!(g.status, GroupStatus::Completed);
    assert_eq!(g.completed_at, Some(102));
    assert_eq!(group_outcome(&g), GroupOutcome::Completed);
}

#[test]
fn group_with_only_failures_fails() {
    let mut g = Group::new(Id::new(), "g".into());
    g.total_tasks = 2;
    g.record_task_outcome(false, 1);
    g.record_task_outcome(false, 2);
    assert_eq!(g.status, GroupStatus::Failed);
    assert_eq!(group_outcome(&g), GroupOutcome::Failed("Group failed: 2/2 failed".to_string()));
}

#[test]
fn group_transition_refused_message() {
    let mut g = Group::new(Id::new(), "g".into());
    match g.transition_at(GroupStatus::Completed, 7) {
        Err(AppError::InvalidInput(m)) => assert_eq!(m, "Cannot transition from Pending to Completed"),
        other => panic!("unexpected {:?}", other),
    }
    assert_eq!(g.status, GroupStatus::Pending);
}

#[test]
fn id_round_trips_uuid_text() {
    let id = Id::new();
    let again = Id::from_str(id.as_str()).unwrap();
    assert_eq!(again.to_string(), id.to_string());
    match Id::from_str("not-a-uuid") {
        Err(AppError::InvalidInput(m)) => assert_eq!(m, "Invalid ID: not-a-uuid"),
        other => panic!("unexpected {:?}", other),
    }
}
