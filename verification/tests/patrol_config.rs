use mimo_tts::config::{parse_args, parse_origins, parse_u16, parse_u64, port_candidates, ArgsAction, Config, EnvValues};
use mimo_tts::patrol::{
    recovery_stale_minutes, stale_pending_minutes, stale_queued_minutes, watchdog_stale_minutes, watchdog_verdict,
    ChunkRecoveryConfig, QueuePatrolConfig, WatchdogConfig, WatchdogVerdict,
};

#[test]
fn patrol_defaults_and_thresholds() {
    let w = WatchdogConfig::default();
    assert_eq!((w.patrol_interval_secs, w.stale_threshold_secs), (30, 300));
    assert_eq!(watchdog_stale_minutes(&w), 5);
    assert_eq!(watchdog_stale_minutes(&WatchdogConfig { patrol_interval_secs: 1, stale_threshold_secs: 59 }), 0);
    let q = QueuePatrolConfig::default();
    assert_eq!(stale_pending_minutes(&q), 1);
    assert_eq!(stale_queued_minutes(&q), 2);
    let short = QueuePatrolConfig { patrol_interval_secs: 1, stale_pending_threshold_secs: 10, stale_queued_threshold_secs: 0 };
    assert_eq!(stale_pending_minutes(&short), 1);
    assert_eq!(stale_queued_minutes(&short), 1);
    let c = ChunkRecoveryConfig::default();
    assert_eq!(recovery_stale_minutes(&c), 2);
}

#[test]
fn watchdog_fails_only_idle_tasks() {
    assert_eq!(watchdog_verdict(1, 0, 3, 0), WatchdogVerdict::StillActive);
    assert_eq!(watchdog_verdict(0, 2, 3, 0), WatchdogVerdict::StillActive);
    assert_eq!(
        watchdog_verdict(0, 0, 3, 2),
        WatchdogVerdict::Fail("Task stuck in processing — watchdog detected no active chunks (3 done, 2 failed)".into())
    );
}

#[test]
fn numbers_parse_like_from_str() {
    assert_eq!(parse_u64("42"), Some(42));
    assert_eq!(parse_u64("+7"), Some(7));
    assert_eq!(parse_u64("18446744073709551615"), Some(u64::MAX));
    assert_eq!(parse_u64("18446744073709551616"), None);
    assert_eq!(parse_u64(""), None);
    assert_eq!(parse_u64("+"), None);
    assert_eq!(parse_u64("-1"), None);
    assert_eq!(parse_u64("1 "), None);
    assert_eq!(parse_u16("65535"), Some(65535));
    assert_eq!(parse_u16("65536"), None);
    for s in ["0", "007", "+12", "x", "99999999999999999999"] {
        assert_eq!(parse_u64(s), s.parse::<u64>().ok(), "{s}");
    }
}

#[test]
fn origins_split_on_commas_and_trim() {
    assert_eq!(parse_origins(" a , b,,c "), vec!["a", "b", "", "c"]);
    assert_eq!(parse_origins(""), vec![""]);
}

#[test]
fn config_from_environment_values() {
    let none = EnvValues {
        mimo_api_key: None,
        server_port: None,
        allowed_origins: None,
        max_concurrent_tasks: None,
        task_cleanup_hours: None,
    };
    let c = Config::from_env_values(&none);
    assert_eq!(c.mimo_api_key, "");
    assert_eq!(c.server_port, 30231);
    assert_eq!(c.allowed_origins, vec!["http://localhost:5173".to_string()]);
    assert_eq!(c.max_concurrent_tasks, 5);
    assert_eq!(c.task_cleanup_hours, 24);
    let set = EnvValues {
        mimo_api_key: Some("k".into()),
        server_port: Some("8080".into()),
        allowed_origins: Some("http://a, http://b".into()),
        max_concurrent_tasks: Some("nope".into()),
        task_cleanup_hours: Some("48".into()),
    };
    let c = Config::from_env_values(&set);
    assert_eq!(c.mimo_api_key, "k");
    assert_eq!(c.server_port, 8080);
    assert_eq!(c.allowed_origins, vec!["http://a".to_string(), "http://b".to_string()]);
    assert_eq!(c.max_concurrent_tasks, 5);
    assert_eq!(c.task_cleanup_hours, 48);
}

fn args(v: &[&str]) -> Vec<String> {
    v.iter().map(|s| s.to_string()).collect()
}

#[test]
fn command_line_port_and_help() {
    assert_eq!(parse_args(&args(&["srv"]), 30231), ArgsAction::Run { port: 30231 });
    assert_eq!(parse_args(&args(&["srv", "--port", "8080"]), 30231), ArgsAction::Run { port: 8080 });
    assert_eq!(parse_args(&args(&["srv", "-p", "bad", "x"]), 30231), ArgsAction::Run { port: 30231 });
    assert_eq!(parse_args(&args(&["srv", "-p"]), 1), ArgsAction::Run { port: 1 });
    assert_eq!(parse_args(&args(&["srv", "-x", "-h", "--port", "1"]), 1), ArgsAction::Help);
    assert_eq!(parse_args(&args(&["srv", "--port", "-h"]), 5), ArgsAction::Run { port: 5 });
}

#[test]
fn port_candidates_skip_privileged_then_scan() {
    let c = port_candidates(30231);
    assert_eq!(c[0], 30232);
    assert_eq!(c[99], 30331);
    assert_eq!(c[100], 10000);
    assert_eq!(*c.last().unwrap(), 65534);
    assert_eq!(c.len(), 100 + 55535);
    let wrap = port_candidates(65500);
    // 65501..=65535, then 0..=64 wrap around and are skipped (below 1024)
    assert_eq!(wrap[34], 65535);
    assert_eq!(wrap[35], 10000);
}

#[test]
fn printed_numbers_parse_back() {
    for n in [0u64, 7, 10, 99, 3000, 65535, 1_000_000_007, u64::MAX] {
        let text = mimo_tts::text::decimal_string(n);
        assert_eq!(text, n.to_string());
        assert_eq!(parse_u64(&text), Some(n));
    }
}
