use mimo_tts::batch::{Batch, BatchDefaults, BatchPendingItem, BatchStatus, ItemOverride};
use mimo_tts::error::AppError;
use mimo_tts::id::Id;
use mimo_tts::submission::{plan_submission, plan_submission_with};
use mimo_tts::task::{TaskStatus, TaskType};

const BATCH: &str = "0190a6f2-7b3c-7d4e-8f00-112233445566";

fn defaults() -> BatchDefaults {
    BatchDefaults { voice: "冰糖".into(), model: "mimo-v2.5-tts".into(), style: Some("calm".into()) }
}

fn items() -> Vec<BatchPendingItem> {
    let d = defaults();
    let a = BatchPendingItem::from_upload(&d, 1, "a.txt", "first text");
    let b = BatchPendingItem::from_upload(&d, 2, "b.txt", "第二");
    let b = b.with_overrides(&d, &ItemOverride { voice: Some("茉莉".into()), model: None, title: Some("Second".into()), style: None });
    vec![a, b]
}

#[test]
fn submission_makes_one_child_task_per_item() {
    let ids = vec![
        Id::from_str("0190a6f2-0000-7000-8000-000000000001").unwrap(),
        Id::from_str("0190a6f2-0000-7000-8000-000000000002").unwrap(),
    ];
    let plan = plan_submission_with(BATCH, &items(), ids, 1_700_000_000_000).unwrap();
    assert_eq!(plan.tasks.len(), 2);
    assert_eq!(plan.total_tasks, 2);
    // "first text" is 10 bytes (5 tokens); "第二" is 6 bytes (3 tokens).
    assert_eq!(plan.total_chars, 16);
    assert_eq!(plan.total_tokens, 8);

    let t0 = &plan.tasks[0];
    assert_eq!(t0.id.as_str(), "0190a6f2-0000-7000-8000-000000000001");
    assert!(matches!(t0.task_type, TaskType::BatchChild));
    assert_eq!(t0.status, TaskStatus::Pending);
    assert_eq!(t0.batch_id.as_ref().unwrap().as_str(), BATCH);
    assert_eq!(t0.group_id.as_ref().unwrap().as_str(), BATCH);
    assert_eq!(t0.content, "first text");
    assert_eq!(t0.title, "a.txt");
    assert_eq!(t0.voice, "冰糖");
    assert_eq!(t0.style.as_deref(), Some("calm"));
    assert_eq!(t0.created_at, 1_700_000_000_000);

    let t1 = &plan.tasks[1];
    assert_eq!(t1.id.as_str(), "0190a6f2-0000-7000-8000-000000000002");
    assert_eq!(t1.title, "Second");
    assert_eq!(t1.voice, "茉莉");
    assert_eq!(t1.model, "mimo-v2.5-tts");
    assert_eq!((t1.total_chars, t1.total_tokens), (6, 3));
}

#[test]
fn submission_without_items_is_refused() {
    match plan_submission(BATCH, &[]) {
        Err(AppError::InvalidInput(m)) => assert_eq!(m, "No pending items to submit"),
        _ => panic!("expected InvalidInput"),
    }
}

#[test]
fn submission_with_a_malformed_batch_id_fails_internally() {
    match plan_submission("not-a-uuid", &items()) {
        Err(AppError::Internal(m)) => assert_eq!(m, "Invalid ID: not-a-uuid"),
        _ => panic!("expected Internal"),
    }
}

#[test]
fn submission_gives_fresh_identifiers() {
    let plan = plan_submission(BATCH, &items()).unwrap();
    assert_eq!(plan.tasks.len(), 2);
    assert_ne!(plan.tasks[0].id.as_str(), plan.tasks[1].id.as_str());
    assert!(Id::from_str(plan.tasks[0].id.as_str()).is_ok());
}

fn create_test_batch() -> Batch {
    Batch::new("Test Batch".into(), "v1".into(), "m1".into(), None)
}

fn create_test_item(batch: &Batch, seq: i32, content: &str) -> BatchPendingItem {
    let mut item = BatchPendingItem::new_for_test(&batch.defaults(), &format!("file{}.txt", seq), content, None);
    item.seq = seq;
    item
}

#[test]
fn test_submit_batch() {
    let mut batch = create_test_batch();
    let items: Vec<BatchPendingItem> = (0..3).map(|i| create_test_item(&batch, i, &format!("content {}", i))).collect();

    let plan = plan_submission(batch.id.as_str(), &items).unwrap();
    assert_eq!(plan.tasks.len(), 3);

    // The batch moves to Queued with its new totals.
    batch.transition_to(BatchStatus::Queued).unwrap();
    assert_eq!(batch.status, BatchStatus::Queued);
    assert_eq!(plan.total_tasks, 3);
    assert_eq!(plan.total_chars, 27);
    assert_eq!(plan.total_tokens, 12);

    let mut child_ids: Vec<&str> = plan.tasks.iter().map(|t| t.id.as_str()).collect();
    child_ids.sort();
    child_ids.dedup();
    assert_eq!(child_ids.len(), 3);
    assert_eq!(plan.tasks[1].content, "content 1");
    assert_eq!(plan.tasks[1].title, "file1.txt");
}

#[test]
fn test_submit_batch_empty_fails() {
    let batch = create_test_batch();
    let result = plan_submission(batch.id.as_str(), &[]);
    assert!(result.is_err());
}

#[test]
fn fresh_record_ids_are_uuids() {
    let a = mimo_tts::models::new_record_id();
    let b = mimo_tts::models::new_record_id();
    assert!(Id::from_str(&a).is_ok());
    assert_ne!(a, b);
    assert!(Id::from_str(Id::new().as_str()).is_ok());
}
