use mimo_tts::events::{event_action, DomainEvent, EventAction};
use mimo_tts::id::Id;

fn id(n: u8) -> Id {
    Id::from_str(&format!("0190a6f2-0000-7000-8000-0000000000{:02}", n)).unwrap()
}

#[test]
fn chunk_events_recount_their_task() {
    let a = event_action(DomainEvent::ChunkCompleted { chunk_id: id(1), task_id: id(2), seq: 0, audio_path: "a.wav".into() });
    assert!(matches!(a, EventAction::ChunkCompleted { task_id } if task_id.as_str() == id(2).as_str()));
    let b = event_action(DomainEvent::ChunkFailed { chunk_id: id(1), task_id: id(3), seq: 1, error: "x".into(), retry_count: 10 });
    assert!(matches!(b, EventAction::ChunkFailed { task_id } if task_id.as_str() == id(3).as_str()));
    let c = event_action(DomainEvent::AllChunksDone { task_id: id(4), total_chunks: 3 });
    assert!(matches!(c, EventAction::AllChunksDone { task_id } if task_id.as_str() == id(4).as_str()));
}

#[test]
fn task_outcomes_reach_the_group() {
    let a = event_action(DomainEvent::TaskCompleted { task_id: id(5), batch_id: Some(id(6)), output_path: "o.wav".into() });
    match a {
        EventAction::TaskCompleted { task_id, batch_id } => {
            assert_eq!(task_id.as_str(), id(5).as_str());
            assert_eq!(batch_id.unwrap().as_str(), id(6).as_str());
        }
        _ => panic!("expected TaskCompleted"),
    }
    let b = event_action(DomainEvent::TaskFailed { task_id: id(7), error: "boom".into() });
    assert!(matches!(b, EventAction::TaskFailed { .. }));
}

#[test]
fn only_a_cancellation_status_change_counts() {
    let a = event_action(DomainEvent::TaskStatusChanged { task_id: id(8), batch_id: None, status: "cancelled".into() });
    assert!(matches!(a, EventAction::TaskCancelled { task_id } if task_id.as_str() == id(8).as_str()));
    let b = event_action(DomainEvent::TaskStatusChanged { task_id: id(8), batch_id: None, status: "queued".into() });
    assert!(matches!(b, EventAction::Ignore));
}

#[test]
fn other_events_are_ignored() {
    assert!(matches!(event_action(DomainEvent::BatchPaused { batch_id: id(9) }), EventAction::Ignore));
    assert!(matches!(event_action(DomainEvent::TaskEnqueued { task_id: id(9), batch_id: None }), EventAction::Ignore));
    assert!(matches!(
        event_action(DomainEvent::GroupCompleted { group_id: id(1), batch_id: id(2) }),
        EventAction::Ignore
    ));
}
