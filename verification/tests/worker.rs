use mimo_tts::balancer::ProviderLoadBalancer;
use mimo_tts::error::AppError;
use mimo_tts::rate_limiter::ProviderRateLimiterMap;
use mimo_tts::task::TaskStatus;
use mimo_tts::worker::{
    apply_degrade, backoff_delay_secs, choose_provider, classify_failure, estimated_tokens,
    final_failure_degrade, final_failure_message, parent_action, resume_after_pause, slot_releasable,
    starts_processing, Admission, DegradeOrder, FailureKind, ParentAction, RetryState, RetryStep, TaskSlots,
    WorkerControl,
};

#[test]
fn finished_parents_fail_their_chunks() {
    assert_eq!(parent_action(TaskStatus::Cancelled), ParentAction::FailChunk("Parent task is Cancelled".into()));
    assert_eq!(parent_action(TaskStatus::Failed), ParentAction::FailChunk("Parent task is Failed".into()));
    assert_eq!(parent_action(TaskStatus::Done), ParentAction::FailChunk("Parent task is Done".into()));
    assert_eq!(parent_action(TaskStatus::Paused), ParentAction::Skip);
    assert_eq!(parent_action(TaskStatus::Processing), ParentAction::Proceed);
    assert!(starts_processing(TaskStatus::Queued));
    assert!(!starts_processing(TaskStatus::Processing));
}

#[test]
fn token_estimate_is_half_the_bytes_at_least_one() {
    assert_eq!(estimated_tokens(""), 1);
    assert_eq!(estimated_tokens("a"), 1);
    assert_eq!(estimated_tokens("abcd"), 2);
    // three bytes a character
    assert_eq!(estimated_tokens("你好"), 3);
}

#[test]
fn failures_are_classified_by_variant_then_text() {
    assert_eq!(classify_failure(&AppError::RateLimited, "rate limited"), FailureKind::RateLimited);
    assert_eq!(
        classify_failure(&AppError::ServerOverload("503".into()), "connection"),
        FailureKind::ServerOverload
    );
    assert_eq!(
        classify_failure(&AppError::Internal("x".into()), "synthesize request failed: error sending request"),
        FailureKind::Network
    );
    assert_eq!(classify_failure(&AppError::Internal("x".into()), "operation timeout"), FailureKind::Network);
    assert_eq!(classify_failure(&AppError::Internal("x".into()), "bad key"), FailureKind::Other);
}

#[test]
fn backoff_grows_to_the_cap_with_bounded_jitter() {
    for attempt in 0..12u32 {
        let d = backoff_delay_secs("0190c2a4-7e55-7bd1-a1b4-9e2c9c1f2f3a", attempt);
        let base: u64 = std::cmp::min(1u64 << attempt, 30);
        let jr = std::cmp::max(1, base / 3);
        assert!(d >= 1);
        assert!(d + jr >= base && d <= base + jr, "attempt {attempt}: {d}");
    }
    // the same chunk and attempt always wait the same time
    assert_eq!(backoff_delay_secs("abc", 3), backoff_delay_secs("abc", 3));
}

#[test]
fn backoff_matches_the_hash_formula() {
    let id = "chunk";
    let attempt = 4u32;
    let hash = id.as_bytes().iter().fold(attempt as u64, |acc, &b| acc.wrapping_mul(31).wrapping_add(b as u64));
    let base = 16u64;
    let jr = 5u64;
    let jitter = (hash % (jr * 2 + 1)) as i64 - jr as i64;
    let expected = std::cmp::max(1, (base as i64 + jitter) as u64);
    assert_eq!(backoff_delay_secs(id, attempt), expected);
}

#[test]
fn throttling_degrades_and_trips_the_breaker_on_the_third() {
    let mut s = RetryState::new();
    let throttle = DegradeOrder { rpm: 10, tpm: 500_000, duration_secs: 60 };
    for k in 1..=3u32 {
        match s.on_failure(FailureKind::RateLimited, "c") {
            RetryStep::Retry { degrade, trip_breaker, .. } => {
                assert_eq!(degrade, Some(throttle));
                assert_eq!(trip_breaker, k >= 3);
            }
            RetryStep::GiveUp => panic!("gave up early"),
        }
    }
    assert_eq!(s.consecutive_throttle, 3);
    assert_eq!(s.attempt, 3);
}

#[test]
fn network_errors_degrade_from_the_second() {
    let mut s = RetryState::new();
    match s.on_failure(FailureKind::Network, "c") {
        RetryStep::Retry { degrade, trip_breaker, .. } => {
            assert_eq!(degrade, None);
            assert!(!trip_breaker);
        }
        RetryStep::GiveUp => panic!(),
    }
    match s.on_failure(FailureKind::Network, "c") {
        RetryStep::Retry { degrade, .. } => {
            assert_eq!(degrade, Some(DegradeOrder { rpm: 5, tpm: 200_000, duration_secs: 120 }))
        }
        RetryStep::GiveUp => panic!(),
    }
    // another kind of failure breaks both streaks
    s.on_failure(FailureKind::Other, "c");
    assert_eq!(s.consecutive_network, 0);
    assert_eq!(s.consecutive_throttle, 0);
}

#[test]
fn ten_retries_then_give_up() {
    let mut s = RetryState::new();
    for _ in 0..10 {
        assert!(matches!(s.on_failure(FailureKind::Other, "c"), RetryStep::Retry { .. }));
    }
    let before = s;
    assert_eq!(s.on_failure(FailureKind::Other, "c"), RetryStep::GiveUp);
    assert_eq!(s, before);
}

#[test]
fn final_failure_messages() {
    assert_eq!(final_failure_message(&AppError::RateLimited, "x"), "Rate limited (429) after 10 retries");
    assert_eq!(
        final_failure_message(&AppError::ServerOverload("x".into()), "TCP/connect refused"),
        "TCP connection refused after 10 retries"
    );
    assert_eq!(
        final_failure_message(&AppError::ServerOverload("x".into()), "503"),
        "Server overload (5xx) after 10 retries"
    );
    assert_eq!(final_failure_message(&AppError::Internal("boom".into()), "Internal error: boom"), "Internal error: boom");
    assert_eq!(
        final_failure_degrade(&AppError::RateLimited),
        Some(DegradeOrder { rpm: 5, tpm: 200_000, duration_secs: 120 })
    );
    assert_eq!(final_failure_degrade(&AppError::NotFound("x".into())), None);
}

#[test]
fn twenty_failures_in_a_row_pause_the_workers() {
    let mut c = WorkerControl::new();
    for _ in 0..19 {
        assert_eq!(c.on_chunk_failure(), None);
    }
    assert!(!c.paused);
    assert_eq!(c.on_chunk_failure(), Some(DegradeOrder { rpm: 3, tpm: 100_000, duration_secs: 180 }));
    assert!(c.paused);
    c.on_chunk_success();
    assert_eq!(c.consecutive_failures, 0);
    c.shutdown();
    assert!(c.cancelled && !c.paused);
}

#[test]
fn resuming_clears_degraded_mode() {
    let mut map = ProviderRateLimiterMap::new(100, 1_000_000, 10);
    map.add_provider_at("a", 100, 1_000_000, 10, 0);
    map.add_provider_at("b", 100, 1_000_000, 10, 0);
    apply_degrade(&mut map, "a", DegradeOrder { rpm: 3, tpm: 100_000, duration_secs: 180 }, 0);
    assert!(map.is_degraded_at("a", 1));
    let mut c = WorkerControl::new();
    c.trip();
    resume_after_pause(&mut c, &mut map, 2);
    assert!(!c.paused);
    assert!(!map.is_degraded_at("a", 3));
    assert_eq!(map.effective_rpm_at("a", 3), 100);
}

#[test]
fn task_slots_admit_up_to_capacity() {
    let mut slots = TaskSlots::new(2);
    assert_eq!(slots.try_admit("t1"), Admission::Admitted);
    assert_eq!(slots.try_admit("t1"), Admission::AlreadyActive);
    assert_eq!(slots.try_admit("t2"), Admission::Admitted);
    assert_eq!(slots.try_admit("t3"), Admission::Full);
    assert_eq!(slots.active_count(), 2);
    assert!(slots.release("t1"));
    assert!(!slots.release("t1"));
    assert!(!slots.is_active("t1"));
    assert_eq!(slots.try_admit("t3"), Admission::Admitted);
    assert!(slot_releasable(0, 0));
    assert!(!slot_releasable(1, 0));
}

#[test]
fn provider_choice_falls_back_in_order() {
    let mut lb = ProviderLoadBalancer::new();
    assert_eq!(choose_provider(&lb, Some("mine"), None, 0), "mine");
    assert_eq!(choose_provider(&lb, None, Some("xiaomi"), 0), "xiaomi");
    assert_eq!(choose_provider(&lb, None, None, 0), "default");
    lb.add_provider("p1", 100);
    assert_eq!(choose_provider(&lb, None, Some("xiaomi"), 0), "p1");
}
