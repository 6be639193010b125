use pingzilla::history::{pings_for, TargetHistory};
use pingzilla::settings::{
    add_site_monitor, add_target, default_ping_interval, default_speed_test_duration,
    display_mode_name, get_settings, parse_display_mode, remove_site_monitor, remove_target,
    set_ping_interval, set_primary_target, set_speed_test_duration,
};
use pingzilla::types::{DisplayMode, SiteMonitor};

fn strings(v: &[&str]) -> Vec<String> {
    v.iter().map(|s| s.to_string()).collect()
}

fn empty_history(v: &[&str]) -> Vec<TargetHistory> {
    v.iter().map(|s| TargetHistory { target: s.to_string(), pings: Vec::new() }).collect()
}

#[test]
fn defaults_are_ten_and_seven_seconds() {
    assert_eq!(default_ping_interval(), 10);
    assert_eq!(default_speed_test_duration(), 7);
}

#[test]
fn adding_a_target_twice_keeps_one() {
    let mut targets = strings(&["1.1.1.1"]);
    let mut history = empty_history(&["1.1.1.1"]);
    add_target(&mut targets, &mut history, "8.8.8.8".to_string());
    assert_eq!(targets, strings(&["1.1.1.1", "8.8.8.8"]));
    assert!(history.iter().any(|h| h.target == "8.8.8.8"));
    add_target(&mut targets, &mut history, "8.8.8.8".to_string());
    assert_eq!(targets, strings(&["1.1.1.1", "8.8.8.8"]));
    assert_eq!(history.len(), 2);
    assert!(pings_for(&history, &"8.8.8.8".to_string()).is_empty());
}

#[test]
fn the_last_target_cannot_be_removed() {
    let mut targets = strings(&["1.1.1.1"]);
    let mut history = empty_history(&["1.1.1.1"]);
    let mut primary = "1.1.1.1".to_string();
    let r = remove_target(&mut targets, &mut history, &mut primary, &"1.1.1.1".to_string());
    assert_eq!(r, Err("Cannot remove the last target".to_string()));
    assert_eq!(targets, strings(&["1.1.1.1"]));
    assert_eq!(history.len(), 1);
}

#[test]
fn removing_the_primary_target_promotes_the_first_left() {
    let mut targets = strings(&["1.1.1.1", "8.8.8.8", "9.9.9.9"]);
    let mut history = empty_history(&["1.1.1.1", "8.8.8.8", "9.9.9.9"]);
    let mut primary = "1.1.1.1".to_string();
    assert_eq!(remove_target(&mut targets, &mut history, &mut primary, &"1.1.1.1".to_string()), Ok(()));
    assert_eq!(targets, strings(&["8.8.8.8", "9.9.9.9"]));
    assert_eq!(primary, "8.8.8.8");
    assert!(!history.iter().any(|h| h.target == "1.1.1.1"));
    assert_eq!(remove_target(&mut targets, &mut history, &mut primary, &"9.9.9.9".to_string()), Ok(()));
    assert_eq!(primary, "8.8.8.8");
    assert_eq!(targets, strings(&["8.8.8.8"]));
}

#[test]
fn primary_target_must_be_monitored() {
    let targets = strings(&["1.1.1.1", "8.8.8.8"]);
    let mut primary = "1.1.1.1".to_string();
    assert_eq!(set_primary_target(&targets, &mut primary, "8.8.8.8".to_string()), Ok(()));
    assert_eq!(primary, "8.8.8.8");
    assert_eq!(set_primary_target(&targets, &mut primary, "4.4.4.4".to_string()), Err("Target not found".to_string()));
    assert_eq!(primary, "8.8.8.8");
}

#[test]
fn display_modes_round_trip_by_name() {
    for m in [DisplayMode::IconOnly, DisplayMode::IconAndPing, DisplayMode::PingOnly] {
        assert_eq!(parse_display_mode(&display_mode_name(m)), Ok(m));
    }
    assert_eq!(display_mode_name(DisplayMode::IconAndPing), "icon_and_ping");
    assert_eq!(parse_display_mode(&"loud".to_string()), Err("Invalid display mode".to_string()));
    let (t, ms, mode) = get_settings(&"1.1.1.1".to_string(), 400, DisplayMode::PingOnly);
    assert_eq!((t.as_str(), ms, mode.as_str()), ("1.1.1.1", 400, "ping_only"));
}

#[test]
fn ping_interval_bounds() {
    let mut v = 10;
    assert_eq!(set_ping_interval(&mut v, 4), Err("Ping interval must be at least 5 seconds".to_string()));
    assert_eq!(set_ping_interval(&mut v, 121), Err("Ping interval must be at most 120 seconds".to_string()));
    assert_eq!(v, 10);
    assert_eq!(set_ping_interval(&mut v, 5), Ok(()));
    assert_eq!(v, 5);
    assert_eq!(set_ping_interval(&mut v, 120), Ok(()));
    assert_eq!(v, 120);
}

#[test]
fn speed_test_duration_bounds() {
    let mut v = 7;
    let err = Err("Speed test duration must be between 3 and 30 seconds".to_string());
    assert_eq!(set_speed_test_duration(&mut v, 2), err);
    assert_eq!(set_speed_test_duration(&mut v, 31), err);
    assert_eq!(v, 7);
    assert_eq!(set_speed_test_duration(&mut v, 3), Ok(()));
    assert_eq!(set_speed_test_duration(&mut v, 30), Ok(()));
    assert_eq!(v, 30);
}

#[test]
fn site_monitors_are_capped_at_ten_and_unique() {
    let mut monitors: Vec<SiteMonitor> = Vec::new();
    for i in 0..10 {
        assert_eq!(add_site_monitor(&mut monitors, format!("https://s{}.example", i), None), Ok(()));
    }
    assert!(monitors.iter().all(|m| m.enabled));
    assert_eq!(add_site_monitor(&mut monitors, "https://new.example".to_string(), None), Err("Maximum of 10 site monitors allowed".to_string()));
    remove_site_monitor(&mut monitors, &"https://s3.example".to_string());
    assert_eq!(monitors.len(), 9);
    assert_eq!(add_site_monitor(&mut monitors, "https://s4.example".to_string(), None), Err("Site already being monitored".to_string()));
    assert_eq!(add_site_monitor(&mut monitors, "https://new.example".to_string(), Some("New".to_string())), Ok(()));
    assert_eq!(monitors[9].name.as_deref(), Some("New"));
    assert_eq!(monitors.len(), 10);
}
