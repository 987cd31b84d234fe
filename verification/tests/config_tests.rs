use docker_watchdog::config::settings::ConfigWarning;
use docker_watchdog::config::AppConfig;

fn vars(pairs: &[(&str, &str)]) -> Vec<(String, String)> {
    pairs.iter().map(|(k, v)| (k.to_string(), v.to_string())).collect()
}

fn from_vars(pairs: &[(&str, &str)]) -> AppConfig {
    AppConfig::from_env_vars(&vars(pairs)).0
}

#[test]
fn test_default_config_values() {
    let config = AppConfig::default();

    assert_eq!(config.log_tail_lines, 50);
    assert_eq!(config.log_level, "info");
    assert!(config.colored_output);
    assert!(config.auto_restart);
    assert_eq!(config.max_restarts, 3);
    assert_eq!(config.restart_delay_secs, 5);
    assert!(config.ignore_containers.is_empty());
    assert_eq!(config.cooldown_secs, 300);
    assert!(config.restart_backoff);
    assert_eq!(config.heartbeat_secs, 300);
    assert_eq!(config.event_timeout_secs, 600);
    assert!(!config.dry_run);
    assert!(config.startup_scan);
    assert_eq!(config.dedup_window_secs, 5);
}

#[test]
fn test_from_env_overrides_log_tail() {
    let config = from_vars(&[("WATCHDOG_LOG_TAIL", "100")]);
    assert_eq!(config.log_tail_lines, 100);
}

#[test]
fn test_from_env_overrides_log_level() {
    let config = from_vars(&[("WATCHDOG_LOG_LEVEL", "debug")]);
    assert_eq!(config.log_level, "debug");
}

#[test]
fn test_from_env_auto_restart_true() {
    let config = from_vars(&[("WATCHDOG_AUTO_RESTART", "true")]);
    assert!(config.auto_restart);
}

#[test]
fn test_from_env_auto_restart_1() {
    let config = from_vars(&[("WATCHDOG_AUTO_RESTART", "1")]);
    assert!(config.auto_restart);
}

#[test]
fn test_from_env_invalid_log_tail_ignored() {
    let config = from_vars(&[("WATCHDOG_LOG_TAIL", "not_a_number")]);
    assert_eq!(config.log_tail_lines, 50);
}

#[test]
fn test_from_env_max_restarts() {
    let config = from_vars(&[("WATCHDOG_MAX_RESTARTS", "10")]);
    assert_eq!(config.max_restarts, 10);
}

#[test]
fn test_from_env_no_color() {
    let config = from_vars(&[("WATCHDOG_NO_COLOR", "true")]);
    assert!(!config.colored_output);
}

#[test]
fn test_from_env_ignore_containers() {
    let config = from_vars(&[("WATCHDOG_IGNORE_CONTAINERS", "redis, nginx, postgres")]);
    assert_eq!(config.ignore_containers, vec!["redis", "nginx", "postgres"]);
}

#[test]
fn test_from_env_ignore_containers_empty() {
    let config = from_vars(&[("WATCHDOG_IGNORE_CONTAINERS", "")]);
    assert!(config.ignore_containers.is_empty());
}

#[test]
fn test_from_env_cooldown_secs() {
    let config = from_vars(&[("WATCHDOG_COOLDOWN_SECS", "120")]);
    assert_eq!(config.cooldown_secs, 120);
}

#[test]
fn test_from_env_heartbeat_and_timeout() {
    let config = from_vars(&[
        ("WATCHDOG_HEARTBEAT_SECS", "60"),
        ("WATCHDOG_EVENT_TIMEOUT_SECS", "120"),
    ]);
    assert_eq!(config.heartbeat_secs, 60);
    assert_eq!(config.event_timeout_secs, 120);
}

#[test]
fn test_validation_caps_max_restarts() {
    let config = from_vars(&[("WATCHDOG_MAX_RESTARTS", "999")]);
    assert_eq!(config.max_restarts, 100);
}

#[test]
fn test_validation_caps_restart_delay() {
    let config = from_vars(&[("WATCHDOG_RESTART_DELAY", "9999")]);
    assert_eq!(config.restart_delay_secs, 3600);
}

#[test]
fn test_validation_floors_heartbeat() {
    let config = from_vars(&[("WATCHDOG_HEARTBEAT_SECS", "1")]);
    assert_eq!(config.heartbeat_secs, 10);
}

#[test]
fn test_validation_floors_event_timeout() {
    let config = from_vars(&[("WATCHDOG_EVENT_TIMEOUT_SECS", "5")]);
    assert_eq!(config.event_timeout_secs, 30);
}

#[test]
fn test_from_env_restart_backoff() {
    let config = from_vars(&[("WATCHDOG_RESTART_BACKOFF", "false")]);
    assert!(!config.restart_backoff);
}

#[test]
fn test_from_env_dry_run() {
    let config = from_vars(&[("WATCHDOG_DRY_RUN", "true")]);
    assert!(config.dry_run);
}

#[test]
fn test_from_env_startup_scan_disabled() {
    let config = from_vars(&[("WATCHDOG_STARTUP_SCAN", "false")]);
    // "false" is neither "1" nor "true", so the flag reads as off
    assert!(!config.startup_scan);
}

#[test]
fn test_from_env_dedup_window() {
    let config = from_vars(&[("WATCHDOG_DEDUP_WINDOW_SECS", "10")]);
    assert_eq!(config.dedup_window_secs, 10);
}

// ─── further cases ───

#[test]
fn test_empty_environment_gives_defaults() {
    let (config, warnings) = AppConfig::from_env_vars(&vars(&[("PATH", "/bin")]));
    assert_eq!(config.log_tail_lines, 50);
    assert_eq!(config.log_level, "info");
    assert!(config.colored_output);
    assert!(config.auto_restart);
    assert_eq!(config.max_restarts, 3);
    assert_eq!(config.compose_project, None);
    assert!(warnings.is_empty());
}

#[test]
fn test_flag_case_and_first_value_win() {
    let config = from_vars(&[("WATCHDOG_DRY_RUN", "TrUe"), ("WATCHDOG_DRY_RUN", "0")]);
    assert!(config.dry_run);
    let config = from_vars(&[("WATCHDOG_AUTO_RESTART", "yes")]);
    assert!(!config.auto_restart);
    let config = from_vars(&[("WATCHDOG_NO_COLOR", "0")]);
    assert!(config.colored_output);
}

#[test]
fn test_numbers_parse_like_rust() {
    assert_eq!(from_vars(&[("WATCHDOG_LOG_TAIL", "+42")]).log_tail_lines, 42);
    assert_eq!(from_vars(&[("WATCHDOG_LOG_TAIL", "-1")]).log_tail_lines, 50);
    assert_eq!(from_vars(&[("WATCHDOG_LOG_TAIL", " 7")]).log_tail_lines, 50);
    assert_eq!(from_vars(&[("WATCHDOG_LOG_TAIL", "+")]).log_tail_lines, 50);
    assert_eq!(from_vars(&[("WATCHDOG_MAX_RESTARTS", "4294967296")]).max_restarts, 3);
    assert_eq!(from_vars(&[("WATCHDOG_MAX_RESTARTS", "4294967295")]).max_restarts, 100);
    assert_eq!(
        from_vars(&[("WATCHDOG_COOLDOWN_SECS", "18446744073709551615")]).cooldown_secs,
        u64::MAX
    );
}

#[test]
fn test_compose_project_and_ignore_list() {
    let config = from_vars(&[("WATCHDOG_COMPOSE_PROJECT", "")]);
    assert_eq!(config.compose_project, None);
    let config = from_vars(&[
        ("WATCHDOG_COMPOSE_PROJECT", "shop"),
        ("WATCHDOG_IGNORE_CONTAINERS", " ,a,,\tb ,"),
    ]);
    assert_eq!(config.compose_project, Some("shop".to_string()));
    assert_eq!(config.ignore_containers, vec!["a", "b"]);
}

#[test]
fn test_validation_warnings_in_order() {
    let (config, warnings) = AppConfig::from_env_vars(&vars(&[
        ("WATCHDOG_MAX_RESTARTS", "101"),
        ("WATCHDOG_RESTART_DELAY", "3601"),
        ("WATCHDOG_HEARTBEAT_SECS", "9"),
        ("WATCHDOG_EVENT_TIMEOUT_SECS", "29"),
        ("WATCHDOG_LOG_TAIL", "10001"),
        ("WATCHDOG_DRY_RUN", "1"),
    ]));
    assert_eq!(config.log_tail_lines, 10000);
    let expected = vec![
        ConfigWarning::MaxRestartsCapped(101),
        ConfigWarning::RestartDelayCapped(3601),
        ConfigWarning::HeartbeatRaised(9),
        ConfigWarning::EventTimeoutRaised(29),
        ConfigWarning::LogTailCapped(10001),
        ConfigWarning::DryRunEnabled,
    ];
    assert_eq!(format!("{:?}", warnings), format!("{:?}", expected));
}

#[test]
fn test_validate_twice_changes_nothing() {
    let (mut config, _) = AppConfig::from_env_vars(&vars(&[("WATCHDOG_MAX_RESTARTS", "500")]));
    let again = config.validate();
    assert!(again.is_empty());
    assert_eq!(config.max_restarts, 100);
}

#[test]
fn test_detected_project_only_when_unset() {
    let config = AppConfig::default();
    let detected = config.with_detected_project(Some("p".to_string()));
    assert_eq!(detected.compose_project, Some("p".to_string()));
    let kept = detected.with_detected_project(Some("q".to_string()));
    assert_eq!(kept.compose_project, Some("p".to_string()));
    assert_eq!(config.with_detected_project(None).compose_project, None);
}
