use mimo_tts::chunk::ChunkStatus;
use mimo_tts::chunker::{ChunkSegment, SentenceInfo};
use mimo_tts::error::AppError;
use mimo_tts::orchestrator::{
    batch_completion, chunk_drafts, continue_plan, enqueue_check, force_process_plan, merge_sources,
    merged_file_name, needs_retry, reconcile_batches, reconcile_task, resolve_chunks, retry_merge_check,
    total_tokens, BatchCompletion, BatchProgressAggregate, BatchVerdict, ChunkBrief, ChunkCounts, MergeSource,
    ReconcileAction, Resolution, TaskBrief,
};
use mimo_tts::task::TaskStatus;

fn counts(total: i64, done: i64, failed: i64) -> ChunkCounts {
    ChunkCounts { total, done, failed, pending: total - done - failed, processing: 0 }
}

fn brief(id: &str, seq: i32, status: ChunkStatus, audio: Option<&str>) -> ChunkBrief {
    ChunkBrief { id: id.to_string(), seq, status, audio_path: audio.map(|s| s.to_string()) }
}

#[test]
fn chunk_resolution() {
    assert_eq!(resolve_chunks(&counts(3, 1, 1)), Resolution::InProgress);
    assert_eq!(resolve_chunks(&counts(3, 2, 1)), Resolution::MergeReady { total_chunks: 3 });
    assert_eq!(resolve_chunks(&counts(4, 0, 4)), Resolution::AllFailed("All 4 chunks failed".into()));
    assert_eq!(resolve_chunks(&counts(0, 0, 0)), Resolution::InProgress);
}

#[test]
fn reconciliation_of_stuck_tasks() {
    assert_eq!(
        reconcile_task(TaskStatus::MergingFailed, &counts(2, 2, 0), 0),
        ReconcileAction::AnnounceMergeFailed("Merge failed (detected by poll)".into())
    );
    assert_eq!(
        reconcile_task(TaskStatus::Processing, &counts(2, 1, 1), 0),
        ReconcileAction::Resolve(Resolution::MergeReady { total_chunks: 2 })
    );
    assert_eq!(
        reconcile_task(TaskStatus::Queued, &counts(0, 0, 0), 181),
        ReconcileAction::FailStuckQueued("Stuck in Queued for 181s, no chunks created".into())
    );
    assert_eq!(reconcile_task(TaskStatus::Queued, &counts(0, 0, 0), 180), ReconcileAction::Nothing);
    assert_eq!(reconcile_task(TaskStatus::Done, &counts(2, 2, 0), 999), ReconcileAction::Nothing);
    assert_eq!(reconcile_task(TaskStatus::Processing, &counts(3, 1, 0), 999), ReconcileAction::Nothing);
}

#[test]
fn batch_completion_verdicts() {
    let p = |total, done, failed| BatchProgressAggregate {
        batch_id: "b".into(),
        total_tasks: total,
        done_tasks: done,
        failed_tasks: failed,
        processing_tasks: 0,
    };
    assert_eq!(batch_completion(&p(3, 1, 1)), BatchCompletion::Open);
    assert_eq!(batch_completion(&p(3, 1, 2)), BatchCompletion::Completed);
    assert_eq!(batch_completion(&p(2, 0, 2)), BatchCompletion::Failed("All 2 tasks failed".into()));
    assert_eq!(batch_completion(&p(0, 0, 0)), BatchCompletion::Open);
}

#[test]
fn batches_reconciled_once_each() {
    let t = |b: Option<&str>, s| TaskBrief { batch_id: b.map(|x| x.to_string()), status: s };
    let tasks = vec![
        t(Some("b1"), TaskStatus::Done),
        t(None, TaskStatus::Processing),
        t(Some("b2"), TaskStatus::Queued),
        t(Some("b1"), TaskStatus::MergingFailed),
        t(Some("b3"), TaskStatus::Failed),
        t(Some("b2"), TaskStatus::Pending),
        t(Some("b4"), TaskStatus::Pending),
    ];
    let r = reconcile_batches(&tasks);
    assert_eq!(
        r,
        vec![
            ("b1".to_string(), BatchVerdict::Completed),
            ("b2".to_string(), BatchVerdict::Processing),
            ("b3".to_string(), BatchVerdict::Failed),
            ("b4".to_string(), BatchVerdict::Unchanged),
        ]
    );
}

#[test]
fn enqueue_requires_a_pending_task() {
    assert!(enqueue_check("t1", Some(TaskStatus::Pending)).is_ok());
    match enqueue_check("t1", Some(TaskStatus::Queued)) {
        Err(AppError::InvalidInput(m)) => assert_eq!(m, "Task t1 status is Queued, expected Pending"),
        other => panic!("unexpected {:?}", other),
    }
    match enqueue_check("t9", None) {
        Err(AppError::NotFound(m)) => assert_eq!(m, "Task t9"),
        other => panic!("unexpected {:?}", other),
    }
}

#[test]
fn forcing_resets_non_pending_chunks() {
    let chunks = vec![
        brief("a", 1, ChunkStatus::Pending, None),
        brief("b", 2, ChunkStatus::Failed, None),
        brief("c", 3, ChunkStatus::Processing, None),
    ];
    assert_eq!(force_process_plan("t", Some(TaskStatus::Queued), &chunks).unwrap(), vec![1, 2]);
    match force_process_plan("t", Some(TaskStatus::Done), &chunks) {
        Err(AppError::InvalidInput(m)) => {
            assert_eq!(m, "Task t status is Done, only Queued tasks can be force-processed")
        }
        other => panic!("unexpected {:?}", other),
    }
}

#[test]
fn continuing_requeues_unfinished_or_audioless_chunks() {
    let chunks = vec![
        brief("a", 1, ChunkStatus::Done, Some("/a.wav")),
        brief("b", 2, ChunkStatus::Done, None),
        brief("c", 3, ChunkStatus::Failed, None),
        brief("d", 4, ChunkStatus::Processing, None),
        brief("e", 5, ChunkStatus::Pending, None),
    ];
    assert_eq!(continue_plan(&chunks), vec![1, 2, 4]);
    assert!(!needs_retry(&chunks[3]));
}

#[test]
fn retry_merge_checks() {
    let done = vec![brief("a", 1, ChunkStatus::Done, Some("/a.wav"))];
    assert!(retry_merge_check("t", Some(TaskStatus::MergingFailed), &done).is_ok());
    match retry_merge_check("t", Some(TaskStatus::Merging), &done) {
        Err(AppError::InvalidInput(m)) => assert_eq!(m, "Task t status is Merging, expected MergingFailed"),
        other => panic!("unexpected {:?}", other),
    }
    match retry_merge_check("t", Some(TaskStatus::Processing), &done) {
        Err(AppError::InvalidInput(m)) => {
            assert_eq!(m, "Task t status is Processing, expected MergingFailed")
        }
        other => panic!("unexpected {:?}", other),
    }
    match retry_merge_check("t", Some(TaskStatus::MergingFailed), &[]) {
        Err(AppError::InvalidInput(m)) => assert_eq!(m, "Task t has no chunks"),
        other => panic!("unexpected {:?}", other),
    }
    let mixed = vec![brief("a", 1, ChunkStatus::Done, None), brief("b", 2, ChunkStatus::Failed, None)];
    match retry_merge_check("t", Some(TaskStatus::MergingFailed), &mixed) {
        Err(AppError::InvalidInput(m)) => assert_eq!(m, "Task t has incomplete chunks, cannot merge"),
        other => panic!("unexpected {:?}", other),
    }
}

#[test]
fn merge_sources_in_sequence_order() {
    let chunks = vec![
        brief("c3", 3, ChunkStatus::Done, Some("/3.wav")),
        brief("c1", 1, ChunkStatus::Done, None),
        brief("c2", 2, ChunkStatus::Failed, Some("/2.wav")),
        brief("c0", 0, ChunkStatus::Done, Some("/0.wav")),
    ];
    assert_eq!(
        merge_sources("t", &chunks).unwrap(),
        vec![
            MergeSource::Recorded("/0.wav".into()),
            MergeSource::Fallback("c1".into()),
            MergeSource::Recorded("/3.wav".into()),
        ]
    );
    match merge_sources("t", &[]) {
        Err(AppError::InvalidInput(m)) => assert_eq!(m, "Task t has no chunks"),
        other => panic!("unexpected {:?}", other),
    }
    match merge_sources("t", &[brief("x", 1, ChunkStatus::Failed, None)]) {
        Err(AppError::InvalidInput(m)) => assert_eq!(m, "No Done chunks for task t"),
        other => panic!("unexpected {:?}", other),
    }
    assert_eq!(merged_file_name("t"), "task_t.wav");
}

#[test]
fn enqueue_plan_numbers_chunks_from_one() {
    let sentences = vec![
        SentenceInfo { text: "a".into(), token_count: 3, char_count: 1 },
        SentenceInfo { text: "b".into(), token_count: 4, char_count: 1 },
    ];
    assert_eq!(total_tokens(&sentences), 7);
    let segs = vec![
        ChunkSegment { text: "x".into(), char_count: 1, token_count: 1, context_hint: None },
        ChunkSegment { text: "y".into(), char_count: 1, token_count: 1, context_hint: None },
    ];
    let drafts = chunk_drafts(&segs);
    assert_eq!(drafts.len(), 2);
    assert_eq!((drafts[0].seq, drafts[0].text.as_str()), (1, "x"));
    assert_eq!((drafts[1].seq, drafts[1].text.as_str()), (2, "y"));
}
