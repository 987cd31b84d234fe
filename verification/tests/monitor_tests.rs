use docker_watchdog::config::AppConfig;
use docker_watchdog::logger::is_removed_container_error;
use docker_watchdog::monitor::watcher::{
    build_event_filters, build_scan_filters, extract_exit_code_from_status, handle_health_status,
    event_processable, event_processable_at, process_event, process_event_at, rows_scannable,
    scan_crashed_containers, ContainerRow, DockerEvent, EventActor, EventOutcome,
    HealthState, LabelOverrides, ReconnectBackoff,
};
use docker_watchdog::monitor::{CrashMetrics, EventDedup};

fn attrs(pairs: &[(&str, &str)]) -> Vec<(String, String)> {
    pairs.iter().map(|(k, v)| (k.to_string(), v.to_string())).collect()
}

fn event(action: &str, id: &str, pairs: &[(&str, &str)]) -> DockerEvent {
    DockerEvent {
        is_container: true,
        action: Some(action.to_string()),
        actor: Some(EventActor { id: Some(id.to_string()), attributes: Some(attrs(pairs)) }),
    }
}

#[test]
fn test_metrics_summary_empty() {
    let m = CrashMetrics::new();
    assert_eq!(m.log_summary(), "[METRICS] No container crashes recorded.");
}

#[test]
fn test_metrics_summary_ranks_by_count_then_first_crash() {
    let mut m = CrashMetrics::new();
    for name in ["a", "b", "b", "c", "c", "d"] {
        m.record_crash(name);
    }
    assert_eq!(m.log_summary(), "[METRICS] Total crashes: 6. Top containers: [b=2, c=2, a=1, d=1]");
}

#[test]
fn test_metrics_summary_names_at_most_ten() {
    let mut m = CrashMetrics::new();
    for i in 0..12 {
        m.record_crash(&format!("n{}", i));
    }
    m.record_crash("n11");
    let line = m.log_summary();
    assert!(line.starts_with("[METRICS] Total crashes: 13. Top containers: [n11=2, n0=1"));
    assert!(line.ends_with("n8=1]"));
    assert!(!line.contains("n9="));
}

#[test]
fn test_dedup_window() {
    let mut d = EventDedup::new(5);
    assert!(!d.is_duplicate_at("c", "die", 0));
    assert!(d.is_duplicate_at("c", "die", 4_999_999_999));
    assert!(!d.is_duplicate_at("c", "die", 5_000_000_000));
    assert!(!d.is_duplicate_at("c", "die-other", 5_000_000_001));
    assert!(d.is_duplicate_at("c", "die", 5_000_000_001));
}

#[test]
fn test_dedup_clock_never_reads_backwards() {
    let mut d = EventDedup::new(5);
    let mut last = d.now();
    for _ in 0..100 {
        let t = d.now();
        assert!(t >= last);
        last = t;
    }
}

#[test]
fn test_dedup_repeat_right_away_is_duplicate() {
    let mut d = EventDedup::new(3600);
    assert!(!d.is_duplicate("c", "die"));
    assert!(d.is_duplicate("c", "die"));
    assert!(!d.is_duplicate("c", "oom"));
}

#[test]
fn test_dedup_zero_window_never_duplicate() {
    let mut d = EventDedup::new(0);
    assert!(!d.is_duplicate("c", "die"));
    assert!(!d.is_duplicate("c", "die"));
}

#[test]
fn test_dedup_cleanup() {
    let mut d = EventDedup::new(5);
    assert!(!d.is_duplicate_at("c", "die", 0));
    d.cleanup_at(14_999_999_999);
    assert!(d.is_duplicate_at("c", "die", 4_000_000_000));
    d.cleanup_at(15_000_000_000);
    assert!(!d.is_duplicate_at("c", "die", 4_000_000_000));
}

#[test]
fn test_exit_code_from_status() {
    assert_eq!(extract_exit_code_from_status("Exited (1) 5 minutes ago"), Some(1));
    assert_eq!(extract_exit_code_from_status("Exited (-3) now"), Some(-3));
    assert_eq!(extract_exit_code_from_status("Exited (0) now"), Some(0));
    assert_eq!(extract_exit_code_from_status("Up 3 minutes"), None);
    assert_eq!(extract_exit_code_from_status("Exited (x) now"), None);
    assert_eq!(extract_exit_code_from_status("()"), None);
}

#[test]
fn test_label_overrides() {
    let none = LabelOverrides::from_attrs(None);
    assert!(none.enabled);
    assert_eq!(none.max_restarts, None);
    let a = attrs(&[("watchdog.enabled", "0"), ("watchdog.max-restarts", "7")]);
    let o = LabelOverrides::from_attrs(Some(&a));
    assert!(!o.enabled);
    assert_eq!(o.max_restarts, Some(7));
    let a = attrs(&[("watchdog.enabled", "no"), ("watchdog.max-restarts", "x")]);
    let o = LabelOverrides::from_attrs(Some(&a));
    assert!(o.enabled);
    assert_eq!(o.max_restarts, None);
    let a = attrs(&[("watchdog.enabled", "false")]);
    assert!(!LabelOverrides::from_attrs(Some(&a)).enabled);
}

#[test]
fn test_health_states() {
    let r = handle_health_status("health_status: unhealthy", "web");
    assert_eq!(r.state, HealthState::Unhealthy);
    assert_eq!(r.message, "[HEALTH] Container 'web' is unhealthy. Health check is failing.");
    let r = handle_health_status("health_status: healthy", "web");
    assert_eq!(r.state, HealthState::Healthy);
    assert_eq!(r.message, "[HEALTH] Container 'web' is healthy.");
    let r = handle_health_status("health_status: starting", "web");
    assert_eq!(r.state, HealthState::Other);
    assert_eq!(r.message, "[HEALTH] Container 'web' health_status: health_status: starting");
}

#[test]
fn test_reconnect_backoff() {
    let mut b = ReconnectBackoff::new();
    assert_eq!(b.connected(), None);
    let delays: Vec<u64> = (0..8).map(|_| b.connection_failed()).collect();
    assert_eq!(delays, vec![2, 4, 8, 16, 32, 60, 60, 60]);
    assert_eq!(b.connected(), Some(8));
    b.stream_ended();
    assert_eq!(b.attempts, 1);
}

#[test]
fn test_event_filters() {
    let mut config = AppConfig::default();
    let f = build_event_filters(&config);
    assert_eq!(
        f,
        vec![
            ("type".to_string(), vec!["container".to_string()]),
            (
                "event".to_string(),
                vec!["die".to_string(), "start".to_string(), "health_status".to_string()]
            ),
        ]
    );
    config.compose_project = Some("shop".to_string());
    let f = build_scan_filters(&config);
    assert_eq!(
        f,
        vec![
            ("status".to_string(), vec!["exited".to_string()]),
            ("label".to_string(), vec!["com.docker.compose.project=shop".to_string()]),
        ]
    );
}

#[test]
fn test_scan_reports_crashed_containers() {
    let mut config = AppConfig::default();
    config.ignore_containers = vec!["skip".to_string()];
    let rows = vec![
        ContainerRow {
            id: Some("0123456789abcdef".to_string()),
            names: Some(vec!["/web".to_string()]),
            status: Some("Exited (2) 1 minute ago".to_string()),
        },
        ContainerRow {
            id: Some("fedcba".to_string()),
            names: Some(vec!["/ok".to_string()]),
            status: Some("Exited (0) 1 minute ago".to_string()),
        },
        ContainerRow {
            id: Some("aaaa".to_string()),
            names: Some(vec!["/skip".to_string()]),
            status: Some("Exited (9) now".to_string()),
        },
        ContainerRow { id: None, names: None, status: Some("Exited (137) now".to_string()) },
    ];
    let crashed = scan_crashed_containers(&config, &rows);
    assert_eq!(crashed.len(), 2);
    assert_eq!(crashed[0].name, "web");
    assert_eq!(crashed[0].short_id, "0123456789ab");
    assert_eq!(crashed[0].exit_code, 2);
    assert_eq!(crashed[1].name, "unknown");
    assert_eq!(crashed[1].short_id, "unknown");
    assert_eq!(crashed[1].exit_code, 137);
}

#[test]
fn test_process_event_death_then_duplicate() {
    let config = AppConfig::default();
    let mut dedup = EventDedup::new(5);
    let mut metrics = CrashMetrics::new();
    let e = event("die", "0123456789abcdef", &[("name", "web"), ("exitCode", "137")]);
    match process_event_at(&config, &mut dedup, &mut metrics, &e, 0) {
        EventOutcome::Died { event, full_id, oom_killed, restart_candidate, max_override } => {
            assert_eq!(event.container_id, "0123456789ab");
            assert_eq!(event.container_name, "web");
            assert_eq!(event.exit_code, Some(137));
            assert_eq!(full_id, "0123456789abcdef");
            assert!(oom_killed);
            assert!(restart_candidate);
            assert_eq!(max_override, None);
        }
        other => panic!("unexpected {:?}", other),
    }
    match process_event_at(&config, &mut dedup, &mut metrics, &e, 1) {
        EventOutcome::DuplicateDeath { name } => assert_eq!(name, "web"),
        other => panic!("unexpected {:?}", other),
    }
    assert_eq!(metrics.log_summary(), "[METRICS] Total crashes: 1. Top containers: [web=1]");
}

#[test]
fn test_process_event_other_kinds() {
    let mut config = AppConfig::default();
    config.ignore_containers = vec!["quiet".to_string()];
    let mut dedup = EventDedup::new(5);
    let mut metrics = CrashMetrics::new();
    let e = event("start", "abc", &[("name", "web")]);
    assert!(matches!(
        process_event_at(&config, &mut dedup, &mut metrics, &e, 0),
        EventOutcome::Started { .. }
    ));
    let e = event("health_status: unhealthy", "abc", &[("name", "web")]);
    match process_event_at(&config, &mut dedup, &mut metrics, &e, 0) {
        EventOutcome::Health { name, report } => {
            assert_eq!(name, "web");
            assert_eq!(report.state, HealthState::Unhealthy);
        }
        other => panic!("unexpected {:?}", other),
    }
    let e = event("die", "abc", &[("name", "quiet")]);
    assert!(matches!(
        process_event_at(&config, &mut dedup, &mut metrics, &e, 0),
        EventOutcome::Ignored
    ));
    let e = event("die", "abc", &[("name", "web"), ("watchdog.enabled", "false")]);
    assert!(matches!(
        process_event_at(&config, &mut dedup, &mut metrics, &e, 0),
        EventOutcome::Ignored
    ));
    let e = event("stop", "abc", &[("name", "web")]);
    assert!(matches!(
        process_event_at(&config, &mut dedup, &mut metrics, &e, 0),
        EventOutcome::Ignored
    ));
    let e = DockerEvent { is_container: false, ..event("die", "abc", &[]) };
    assert!(matches!(
        process_event_at(&config, &mut dedup, &mut metrics, &e, 0),
        EventOutcome::Ignored
    ));
    let e = event("die", "abc", &[("name", "web"), ("exitCode", "0"), ("watchdog.max-restarts", "9")]);
    match process_event_at(&config, &mut dedup, &mut metrics, &e, 0) {
        EventOutcome::Died { restart_candidate, oom_killed, max_override, .. } => {
            assert!(!restart_candidate);
            assert!(!oom_killed);
            assert_eq!(max_override, Some(9));
        }
        other => panic!("unexpected {:?}", other),
    }
}

#[test]
fn test_removed_container_errors() {
    assert!(is_removed_container_error("container is dead or marked for removal"));
    assert!(is_removed_container_error("status 409"));
    assert!(!is_removed_container_error("connection refused"));
}

#[test]
fn test_processable_checks() {
    let config = AppConfig::default();
    let mut dedup = EventDedup::new(5);
    let mut metrics = CrashMetrics::new();
    // "é" is two bytes: byte 12 falls inside the seventh one.
    let bad = event("die", "aaaaaaaaaaaéé", &[("name", "web")]);
    assert!(!event_processable(&config, &metrics, &bad));
    assert!(!event_processable_at(&config, &dedup, &metrics, &bad, 0));
    let good = event("die", "aaaaaaaaaaaaéé", &[("name", "web")]);
    assert!(event_processable(&config, &metrics, &good));
    assert!(matches!(
        process_event(&config, &mut dedup, &mut metrics, &good),
        EventOutcome::Died { .. }
    ));
    // Once the same container and action were let through, the repeat is suppressed before
    // the id is shortened.
    let bad_repeat = event("die", "aaaaaaaaaaaéé", &[("name", "web")]);
    assert!(!dedup.suppresses_at("aaaaaaaaaaaéé", "die", 0));
    assert!(!dedup.is_duplicate_at("aaaaaaaaaaaéé", "die", 0));
    assert!(event_processable_at(&config, &dedup, &metrics, &bad_repeat, 1));
    let start = event("start", "aaaaaaaaaaaéé", &[("name", "web")]);
    assert!(event_processable(&config, &metrics, &start));
}

#[test]
fn test_rows_scannable() {
    let config = AppConfig::default();
    let ok = vec![ContainerRow { id: Some("x".to_string()), names: None, status: Some("Exited (1)".to_string()) }];
    assert!(rows_scannable(&config, &ok));
    let bad = vec![ContainerRow { id: Some("x".to_string()), names: None, status: Some(")(".to_string()) }];
    assert!(!rows_scannable(&config, &bad));
}
