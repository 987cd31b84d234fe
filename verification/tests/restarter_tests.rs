use docker_watchdog::restarter::engine::RestartPlan;
use docker_watchdog::restarter::RestartTracker;
use std::time::Duration;

// Regression: the counter must not be reset on the "start" events that the
// watchdog's own restarts cause, else a crashing container restarts forever.

#[test]
fn test_counter_increments_on_consecutive_failures() {
    let mut tracker = RestartTracker::new(3, 0, false, 0, false);
    let id = "abc123";
    let name = "my-app";

    assert!(tracker.should_restart(id, name, None)); // attempt 1/3
    assert_eq!(tracker.restart_count(id), 1);

    assert!(tracker.should_restart(id, name, None)); // attempt 2/3
    assert_eq!(tracker.restart_count(id), 2);

    assert!(tracker.should_restart(id, name, None)); // attempt 3/3
    assert_eq!(tracker.restart_count(id), 3);

    // 4th attempt should be DENIED
    assert!(!tracker.should_restart(id, name, None));
    assert_eq!(tracker.restart_count(id), 3);
}

#[test]
fn test_counter_not_reset_between_attempts() {
    let mut tracker = RestartTracker::new(2, 0, false, 0, false);
    let id = "container_x";

    assert!(tracker.should_restart(id, "app", None)); // 1/2
    assert!(tracker.should_restart(id, "app", None)); // 2/2
    assert!(!tracker.should_restart(id, "app", None)); // denied!
}

#[test]
fn test_reset_allows_fresh_restarts() {
    let mut tracker = RestartTracker::new(2, 0, false, 0, false);
    let id = "container_y";

    assert!(tracker.should_restart(id, "app", None)); // 1/2
    assert!(tracker.should_restart(id, "app", None)); // 2/2
    assert!(!tracker.should_restart(id, "app", None)); // denied

    tracker.reset(id);
    assert_eq!(tracker.restart_count(id), 0);
    assert!(tracker.should_restart(id, "app", None)); // 1/2 again
}

#[test]
fn test_different_containers_tracked_independently() {
    let mut tracker = RestartTracker::new(1, 0, false, 0, false);

    assert!(tracker.should_restart("container_a", "a", None));
    assert!(!tracker.should_restart("container_a", "a", None));

    assert!(tracker.should_restart("container_b", "b", None));
    assert!(!tracker.should_restart("container_b", "b", None));
}

#[test]
fn test_restart_count_starts_at_zero() {
    let tracker = RestartTracker::new(5, 10, false, 0, false);
    assert_eq!(tracker.restart_count("nonexistent"), 0);
}

#[test]
fn test_max_restarts_zero_means_never_restart() {
    let mut tracker = RestartTracker::new(0, 0, false, 0, false);
    assert!(!tracker.should_restart("any", "any", None));
}

#[test]
fn test_cleanup_stale_removes_old_entries() {
    let mut tracker = RestartTracker::new(3, 0, false, 0, false);

    assert!(tracker.should_restart("old_container", "old", None));
    assert_eq!(tracker.restart_count("old_container"), 1);

    tracker.cleanup_stale(Duration::from_secs(0));
    assert_eq!(tracker.restart_count("old_container"), 0);
}

#[test]
fn test_max_override_allows_more_restarts() {
    let mut tracker = RestartTracker::new(1, 0, false, 0, false);

    // Global limit is 1, but override allows 3
    assert!(tracker.should_restart("special", "app", Some(3))); // 1/3
    assert!(tracker.should_restart("special", "app", Some(3))); // 2/3
    assert!(tracker.should_restart("special", "app", Some(3))); // 3/3
    assert!(!tracker.should_restart("special", "app", Some(3))); // denied at 3
}

#[test]
fn test_max_override_limits_restarts() {
    let mut tracker = RestartTracker::new(10, 0, false, 0, false);

    // Global limit is 10, but override restricts to 1
    assert!(tracker.should_restart("restricted", "app", Some(1))); // 1/1
    assert!(!tracker.should_restart("restricted", "app", Some(1))); // denied at 1
}

// ─── further cases ───

#[test]
fn test_delay_without_backoff_is_base() {
    let tracker = RestartTracker::new(3, 7, false, 0, false);
    assert_eq!(tracker.compute_delay(1), 7);
    assert_eq!(tracker.compute_delay(5), 7);
}

#[test]
fn test_delay_with_backoff_doubles_and_caps() {
    let tracker = RestartTracker::new(10, 5, true, 0, false);
    assert_eq!(tracker.compute_delay(0), 5);
    assert_eq!(tracker.compute_delay(1), 5);
    assert_eq!(tracker.compute_delay(2), 10);
    assert_eq!(tracker.compute_delay(3), 20);
    assert_eq!(tracker.compute_delay(4), 40);
    assert_eq!(tracker.compute_delay(5), 80);
    assert_eq!(tracker.compute_delay(6), 160);
    assert_eq!(tracker.compute_delay(7), 300);
    assert_eq!(tracker.compute_delay(100), 300);
}

#[test]
fn test_delay_backoff_saturates_on_huge_base() {
    let tracker = RestartTracker::new(10, u64::MAX, true, 0, false);
    assert_eq!(tracker.compute_delay(3), 300);
    assert_eq!(tracker.compute_delay(1), u64::MAX);
}

#[test]
fn test_delays_never_shrink_from_second_attempt() {
    let tracker = RestartTracker::new(10, 3, true, 0, false);
    let mut last = tracker.compute_delay(2);
    for a in 3..20 {
        let d = tracker.compute_delay(a);
        assert!(d >= last);
        assert!(d <= 300);
        last = d;
    }
}

#[test]
fn test_cooldown_restores_budget() {
    let mut tracker = RestartTracker::new(1, 0, false, 60, false);
    assert!(tracker.should_restart_at("c", "c", None, 0));
    assert!(!tracker.should_restart_at("c", "c", None, 59_999_999_999));
    assert_eq!(tracker.restart_count("c"), 1);
    assert!(tracker.should_restart_at("c", "c", None, 60_000_000_000));
    assert_eq!(tracker.restart_count("c"), 1);
}

#[test]
fn test_cleanup_keeps_recent_and_unrestarted() {
    let mut tracker = RestartTracker::new(1, 0, false, 0, false);
    assert!(tracker.should_restart_at("recent", "r", None, 1_000));
    assert!(tracker.should_restart_at("old", "o", None, 0));
    let mut never = RestartTracker::new(0, 0, false, 0, false);
    assert!(!never.should_restart_at("never", "n", None, 0));
    tracker.cleanup_stale_at(1_000, 1_500);
    assert_eq!(tracker.restart_count("recent"), 1);
    assert_eq!(tracker.restart_count("old"), 0);
    never.cleanup_stale_at(0, 1_000_000);
    assert!(!never.should_restart_at("never", "n", None, 0));
}

#[test]
fn test_plan_restart_reports_attempt_and_delay() {
    let mut tracker = RestartTracker::new(2, 5, true, 0, false);
    match tracker.plan_restart_at("x", "x", None, 0) {
        RestartPlan::Restart { attempt, delay_secs } => {
            assert_eq!(attempt, 1);
            assert_eq!(delay_secs, 5);
        }
        other => panic!("unexpected plan {:?}", other),
    }
    match tracker.plan_restart_at("x", "x", None, 1) {
        RestartPlan::Restart { attempt, delay_secs } => {
            assert_eq!(attempt, 2);
            assert_eq!(delay_secs, 10);
        }
        other => panic!("unexpected plan {:?}", other),
    }
    assert!(matches!(tracker.plan_restart_at("x", "x", None, 2), RestartPlan::GiveUp));
}

#[test]
fn test_plan_restart_dry_run() {
    let mut tracker = RestartTracker::new(1, 4, false, 0, true);
    match tracker.plan_restart("y", "y", None) {
        RestartPlan::DryRun { attempt, delay_secs } => {
            assert_eq!(attempt, 1);
            assert_eq!(delay_secs, 4);
        }
        other => panic!("unexpected plan {:?}", other),
    }
    assert!(matches!(tracker.plan_restart("y", "y", None), RestartPlan::GiveUp));
}

#[test]
fn test_cleanup_stale_keeps_recent_entries() {
    let mut tracker = RestartTracker::new(3, 0, false, 0, false);
    assert!(tracker.should_restart("fresh", "f", None));
    tracker.cleanup_stale(Duration::from_secs(3600));
    assert_eq!(tracker.restart_count("fresh"), 1);
}
