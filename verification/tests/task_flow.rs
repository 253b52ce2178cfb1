use mimo_tts::batch::{Batch, BatchPendingItem, BatchStatus};
use mimo_tts::chunker::{ChunkSegment, MimoChunker};
use mimo_tts::error::AppError;
use mimo_tts::id::Id;
use mimo_tts::mimo::MimoClient;
use mimo_tts::orchestrator::{chunk_drafts, enqueue_begin, enqueue_finish, merge_begin, merge_finish};
use mimo_tts::submission::{plan_submission, record_submission};
use mimo_tts::task::{CreateTaskRequest, Task, TaskStatus, TaskType};
use mimo_tts::listing::{pending_count_sql, pending_page_params, pending_page_sql, SqlParam};
use mimo_tts::wav::{merge_sizes_fit, WavSource};
use mimo_tts::worker::{pickup_refund, PickupExit, Refund};

fn task() -> Task {
    Task::new_at(
        Id::from_str("0190a6f2-0000-7000-8000-0000000000aa").unwrap(),
        CreateTaskRequest {
            task_type: TaskType::Single,
            batch_id: None,
            content: "Hello world. This is a test.".into(),
            content_ref: None,
            title: "t".into(),
            voice: "v".into(),
            model: "m".into(),
            style: None,
            provider_id: None,
            total_chars: 0,
            total_tokens: 0,
        },
        100,
    )
}

fn seg(t: &str) -> ChunkSegment {
    ChunkSegment { text: t.into(), char_count: t.chars().count() as i64, token_count: 5, context_hint: None }
}

#[test]
fn enqueue_leaves_the_task_queued_with_its_chunk_count() {
    let mut t = task();
    enqueue_begin(&mut t, 200).unwrap();
    assert_eq!(t.status, TaskStatus::Queued);
    let drafts = chunk_drafts(&[seg("Hello world."), seg("This is a test.")]);
    let kept = enqueue_finish(&mut t, Ok((drafts, 5)), 300).unwrap();
    assert_eq!(kept.iter().map(|d| d.seq).collect::<Vec<_>>(), vec![1, 2]);
    assert_eq!(t.status, TaskStatus::Queued);
    assert_eq!((t.total_chunks, t.done_chunks, t.failed_chunks, t.total_tokens), (2, 0, 0, 5));
}

#[test]
fn failed_enqueue_resets_the_task_to_pending() {
    let mut t = task();
    enqueue_begin(&mut t, 200).unwrap();
    let r = enqueue_finish(&mut t, Err(AppError::Internal("tokenize failed".into())), 300);
    assert!(matches!(r, Err(AppError::Internal(m)) if m == "tokenize failed"));
    assert_eq!(t.status, TaskStatus::Pending);
    assert_eq!(t.updated_at, 300);
    // It can be enqueued again.
    assert!(enqueue_begin(&mut t, 400).is_ok());
}

#[test]
fn enqueue_refuses_a_task_that_is_not_pending() {
    let mut t = task();
    enqueue_begin(&mut t, 200).unwrap();
    match enqueue_begin(&mut t, 300) {
        Err(AppError::InvalidInput(m)) => {
            assert_eq!(m, "Task 0190a6f2-0000-7000-8000-0000000000aa status is Queued, expected Pending")
        }
        other => panic!("unexpected {:?}", other),
    }
    assert_eq!((t.status, t.updated_at), (TaskStatus::Queued, 200));
}

#[test]
fn merge_sets_the_output_or_fails() {
    let mut t = task();
    merge_begin(&mut t, 500);
    assert_eq!(t.status, TaskStatus::Merging);
    merge_finish(&mut t, Ok("/out/t.wav".into()), 600).unwrap();
    assert_eq!(t.status, TaskStatus::Done);
    assert_eq!(t.output_path.as_deref(), Some("/out/t.wav"));

    let mut u = task();
    merge_begin(&mut u, 500);
    assert!(merge_finish(&mut u, Err(AppError::Internal("bad wav".into())), 600).is_err());
    assert_eq!(u.status, TaskStatus::MergingFailed);
    assert!(u.output_path.is_none());
}

#[test]
fn synthesis_requests_carry_the_api_key() {
    let c = MimoClient::new("test-key-123", "http://localhost:30231/");
    let h = c.synthesize_headers();
    assert_eq!(h, vec![
        ("api-key".to_string(), "test-key-123".to_string()),
        ("Content-Type".to_string(), "application/json".to_string()),
    ]);
    assert_eq!(c.tokenize_headers(), vec![("Authorization".to_string(), "Bearer test-key-123".to_string())]);
    let _ = MimoChunker::new("http://localhost", 100, 150);
}

#[test]
fn recorded_submission_queues_the_batch_and_converts_its_items() {
    let mut batch = Batch::new("Test Batch".into(), "v1".into(), "m1".into(), None);
    let mut items: Vec<BatchPendingItem> = (0..3)
        .map(|i| {
            let mut it = BatchPendingItem::new_for_test(&batch.defaults(), &format!("file{}.txt", i), &format!("content {}", i), None);
            it.seq = i;
            it
        })
        .collect();
    let plan = plan_submission(batch.id.as_str(), &items).unwrap();
    record_submission(&mut batch, &plan, &mut items, 1_000);
    assert_eq!(batch.status, BatchStatus::Queued);
    assert_eq!((batch.total_items, batch.total_chars, batch.total_tokens), (3, 27, 12));
    assert!(items.is_empty());
    assert!(plan_submission(batch.id.as_str(), &items).is_err());
}

fn wav_with_declared_size(declared: u32, data_len: usize) -> Vec<u8> {
    let mut b = vec![0u8; 44];
    b[0..4].copy_from_slice(b"RIFF");
    b[8..12].copy_from_slice(b"WAVE");
    b[40..44].copy_from_slice(&declared.to_le_bytes());
    b.extend(std::iter::repeat(0u8).take(data_len));
    b
}

#[test]
fn merge_size_check_accepts_small_images() {
    let a = WavSource { path: "a.wav".to_string(), bytes: wav_with_declared_size(4, 4) };
    let b = WavSource { path: "b.wav".to_string(), bytes: wav_with_declared_size(8, 8) };
    assert!(merge_sizes_fit(&[a, b]));
}

#[test]
fn merge_size_check_refuses_a_total_past_the_header_fields() {
    let a = WavSource { path: "a.wav".to_string(), bytes: wav_with_declared_size(0xFFFF_FFC0, 4) };
    let b = WavSource { path: "b.wav".to_string(), bytes: wav_with_declared_size(100, 100) };
    assert!(!merge_sizes_fit(&[a, b]));
}

#[test]
fn giving_a_chunk_up_returns_what_was_taken() {
    assert_eq!(pickup_refund(PickupExit::TaskSlotsFull, 500), Refund { rpm: 1, tpm: 0, end_request: true });
    assert_eq!(pickup_refund(PickupExit::TokenBudgetShort, 500), Refund { rpm: 1, tpm: 0, end_request: true });
    assert_eq!(pickup_refund(PickupExit::ClaimedElsewhere, 500), Refund { rpm: 1, tpm: 500, end_request: true });
    assert_eq!(pickup_refund(PickupExit::ClaimFailed, 7), Refund { rpm: 1, tpm: 7, end_request: true });
}

#[test]
fn pending_previews_keep_the_first_hundred_characters() {
    assert_eq!(mimo_tts::batch::pending_preview("short"), "short");
    let long = "字".repeat(101);
    assert_eq!(mimo_tts::batch::pending_preview(&long), format!("{}...", "字".repeat(100)));
    let exact = "a".repeat(100);
    assert_eq!(mimo_tts::batch::pending_preview(&exact), exact);
}

#[test]
fn pending_items_are_listed_page_by_page() {
    assert_eq!(pending_count_sql(), "SELECT COUNT(*) FROM pending_items WHERE batch_id = ?1 AND status = 'pending'");
    assert!(pending_page_sql().ends_with("ORDER BY seq ASC LIMIT ?2 OFFSET ?3"));
    assert_eq!(
        pending_page_params("b1", 3, 20),
        vec![SqlParam::Text("b1".to_string()), SqlParam::Int(20), SqlParam::Int(40)]
    );
    assert_eq!(pending_page_params("b1", 0, 20)[2], SqlParam::Int(0));
    assert_eq!(pending_page_params("b1", -5, 20)[2], SqlParam::Int(0));
}

#[test]
fn identifiers_take_every_shape_uuid_parses() {
    let h = "550e8400-e29b-41d4-a716-446655440000";
    assert!(Id::from_str(h).is_ok());
    assert!(Id::from_str("550e8400e29b41d4a716446655440000").is_ok());
    assert!(Id::from_str(&format!("{{{}}}", h)).is_ok());
    assert!(Id::from_str(&format!("URN:uuid:{}", h)).is_ok());
    assert!(Id::from_str("550E8400-E29B-41D4-A716-446655440000").is_ok());
    assert!(Id::from_str("550e8400-e29b-41d4-a716-44665544000g").is_err());
    assert!(Id::from_str("550e8400-e29b-41d4-a716_446655440000").is_err());
    assert!(Id::from_str(&format!("urn:uuid;{}", h)).is_err());
    assert!(Id::from_str(&format!("({})", h)).is_err());
    assert!(Id::from_str("").is_err());
    assert!(Id::from_str(Id::new().as_str()).is_ok());
}
