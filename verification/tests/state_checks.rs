use pingzilla::restore::fresh_start;
use pingzilla::service::Measurements;
use pingzilla::sites::{check_site_status, set_status, status_for};
use pingzilla::state::AppState;
use pingzilla::types::{
    DisplayMode, IpInfo, NetworkChangeType, PingMethod, SiteMonitor, TrayIconType, DAY_US, MINUTE_US,
    SECOND_US,
};

const NOW: i64 = 1_700_000_000_000_000;

fn info(ip: &str, code: &str, country: &str) -> IpInfo {
    IpInfo {
        ip: ip.to_string(),
        country: country.to_string(),
        country_code: code.to_string(),
        city: None,
        isp: Some("ISP".to_string()),
    }
}

#[test]
fn the_default_state_monitors_one_target() {
    let s = AppState::default();
    assert_eq!(s.targets, vec!["1.1.1.1".to_string()]);
    assert_eq!(s.primary_target, "1.1.1.1");
    assert_eq!(s.notification_threshold_ms, 400);
    assert_eq!(s.display_mode, DisplayMode::IconAndPing);
    assert_eq!(s.ping_interval_secs, 10);
    assert_eq!(s.speed_test_duration_secs, 7);
    assert!(s.ip_info.is_none());
    assert!(s.current_session_id.is_none());
    assert!(!s.speed_test_running);
}

#[test]
fn loaded_state_round_trips_to_saved_data() {
    let s = AppState::from_loaded(fresh_start());
    assert_eq!(s.notification_threshold_ms, 400);
    let d = s.saved_data();
    assert_eq!(d.targets, vec!["1.1.1.1".to_string()]);
    assert_eq!(d.primary_target, "1.1.1.1");
    assert_eq!(d.ping_interval_secs, 10);
    assert_eq!(d.speed_test_duration_secs, 7);
    assert_eq!(d.history.len(), 1);
}

#[test]
fn ip_checks_report_changes_alert_and_open_sessions() {
    let mut s = AppState::default();
    let first = s.apply_ip_check_at(info("1.1.1.1", "DE", "Germany"), NOW);
    assert!(first.change.is_none());
    assert!(first.alert.is_none());
    let opened = first.session.expect("first session");
    assert_eq!(s.current_session_id.as_deref(), Some(opened.id.as_str()));
    assert_eq!(s.ip_info_last_check, Some(NOW));

    let second = s.apply_ip_check_at(info("2.2.2.2", "FR", "France"), NOW + SECOND_US);
    let change = second.change.expect("a change");
    assert_eq!(change.change_type, NetworkChangeType::CountryChanged);
    let alert = second.alert.expect("a VPN alert");
    assert_eq!(alert.title, "VPN Alert: Location Changed!");
    assert_eq!(alert.body, "Germany → France. Check your VPN connection.");
    assert_eq!(s.last_vpn_notification, Some(NOW + SECOND_US));
    assert_eq!(s.network_stability.changes_last_hour, 1);
    assert_eq!(s.network_stability.last_country_change, Some(NOW + SECOND_US));
    assert_eq!(s.network_change_history.len(), 1);
    assert!(second.session.is_some());

    // Within 30 seconds of the last alert no new one is shown.
    let third = s.apply_ip_check_at(info("3.3.3.3", "FR", "France"), NOW + 10 * SECOND_US);
    assert_eq!(third.change.map(|c| c.change_type), Some(NetworkChangeType::IpChanged));
    assert!(third.alert.is_none());
    assert_eq!(s.network_stability.changes_last_hour, 2);
    assert_eq!(s.network_stability.last_ip_change, Some(NOW + 10 * SECOND_US));
}

#[test]
fn a_manual_check_expects_its_change() {
    let mut s = AppState::default();
    s.apply_ip_check_at(info("1.1.1.1", "DE", "Germany"), NOW);
    s.last_ip_check_was_manual = true;
    let r = s.apply_ip_check_at(info("2.2.2.2", "FR", "France"), NOW + MINUTE_US);
    assert!(r.change.map(|c| c.is_expected).unwrap_or(false));
    assert!(r.alert.is_none());
    assert!(!s.last_ip_check_was_manual);
}

#[test]
fn the_change_history_keeps_the_last_hundred() {
    let mut s = AppState::default();
    s.vpn_settings.enabled = false;
    for i in 0..105u32 {
        s.apply_ip_check_at(info(&format!("10.0.0.{}", i % 2), "DE", "Germany"), NOW + i as i64);
    }
    assert_eq!(s.network_change_history.len(), 100);
    assert_eq!(s.network_change_history[99].timestamp, NOW + 104);
}

#[test]
fn cached_lookups_are_reused_for_five_minutes() {
    let mut s = AppState::default();
    assert!(s.cached_ip_info_at(false, NOW).is_none());
    s.store_ip_lookup_at(info("1.1.1.1", "DE", "Germany"), NOW);
    let c = s.cached_ip_info_at(false, NOW + 299 * SECOND_US).expect("fresh lookup");
    assert_eq!(c.info.ip, "1.1.1.1");
    assert!(c.session.is_none());
    assert!(s.cached_ip_info_at(false, NOW + 300 * SECOND_US).is_none());
    assert!(s.cached_ip_info_at(true, NOW).is_none());
}

#[test]
fn waking_forces_a_new_session() {
    let mut s = AppState::default();
    assert!(s.session_after_wake_at(NOW).is_none());
    let first = s.store_ip_lookup_at(info("1.1.1.1", "DE", "Germany"), NOW).expect("session");
    let woke = s.session_after_wake_at(NOW + 1).expect("forced session");
    assert_ne!(first.id, woke.id);
    assert_eq!(s.network_sessions.len(), 2);
    assert_eq!(s.network_sessions[0].ended_at, Some(NOW + 1));
}

#[test]
fn primary_pings_redraw_and_alert() {
    let mut s = AppState::default();
    let t = "1.1.1.1".to_string();
    let r = s.record_ping_at(&t, Some(20_000), Some(PingMethod::Icmp), NOW);
    assert!(r.is_primary);
    assert_eq!(r.result.timestamp, NOW);
    let tray = r.tray.expect("first draw");
    assert_eq!(tray.icon, TrayIconType::Happy);
    assert_eq!(tray.title, "20ms");
    assert!(r.alert.is_none());
    let r = s.record_ping_at(&t, Some(20_100), Some(PingMethod::Icmp), NOW + 1);
    assert!(r.tray.is_none());
    let r = s.record_ping_at(&t, Some(450_000), Some(PingMethod::Icmp), NOW + 2);
    assert_eq!(r.alert.as_deref(), Some("High latency detected: 450ms"));
    assert_eq!(r.tray.map(|d| d.icon), Some(TrayIconType::Sad));
    let other = s.record_ping_at(&"8.8.8.8".to_string(), Some(900_000), None, NOW + 3);
    assert!(!other.is_primary);
    assert!(other.tray.is_none() && other.alert.is_none());
    assert_eq!(s.get_ping_history(None).len(), 3);
    assert_eq!(s.get_current_ping(None).map(|p| p.latency_us), Some(Some(450_000)));
    assert_eq!(s.get_current_ping(Some("8.8.8.8".to_string())).map(|p| p.timestamp), Some(NOW + 3));
    let r = s.record_ping_at(&t, None, None, NOW + DAY_US + 2);
    assert_eq!(r.tray.map(|d| d.icon), Some(TrayIconType::Dead));
    assert_eq!(s.get_ping_history(None).len(), 2);
}

#[test]
fn speed_tests_run_one_at_a_time_and_are_kept() {
    let mut s = AppState::default();
    s.store_ip_lookup_at(info("1.1.1.1", "DE", "Germany"), NOW);
    let start = s.begin_speed_test().expect("start");
    assert_eq!(start.duration_secs, 7);
    assert_eq!(start.session_id, s.current_session_id);
    assert_eq!(s.begin_speed_test().err(), Some("A speed test is already running".to_string()));
    let m = Measurements {
        download_bps: 5,
        upload_bps: 6,
        loaded_latency_us: None,
        idle_latency_us: Some(7),
        responsiveness_rpm: None,
        interface_name: None,
    };
    let r = s.finish_speed_test_at(start.session_id.clone(), m, NOW + 10);
    assert_eq!(r.id, format!("speed-{}", NOW + 10));
    assert_eq!(s.speed_tests.len(), 1);
    s.end_speed_test();
    assert!(!s.speed_test_running);
    assert!(s.begin_speed_test().is_ok());
}

#[test]
fn removing_a_site_forgets_its_status() {
    let mut s = AppState::default();
    let m = SiteMonitor { url: "https://a.example".to_string(), name: None, enabled: true };
    s.site_monitors.push(m.clone());
    let r = s.record_site_check_at(&m, None, NOW);
    assert!(r.changed);
    assert_eq!(r.alert.as_deref(), Some("https://a.example is not responding"));
    assert_eq!(s.site_statuses.len(), 1);
    s.remove_site(&m.url);
    assert!(s.site_monitors.is_empty());
    assert!(s.site_statuses.is_empty());
}

#[test]
fn saved_settings_come_back_when_loaded() {
    let mut s = AppState::default();
    s.targets.push("8.8.8.8".to_string());
    s.primary_target = "8.8.8.8".to_string();
    s.ping_interval_secs = 30;
    s.notification_threshold_ms = 250;
    s.speed_test_duration_secs = 12;
    s.vpn_settings.alert_on_ip_change = false;
    s.record_ping_at(&"8.8.8.8".to_string(), Some(5_000), None, NOW - 2 * DAY_US);
    s.record_ping_at(&"8.8.8.8".to_string(), Some(6_000), None, NOW - MINUTE_US);
    let loaded = pingzilla::restore::restore_saved_at(s.saved_data(), NOW);
    assert_eq!(loaded.targets, vec!["1.1.1.1".to_string(), "8.8.8.8".to_string()]);
    assert_eq!(loaded.primary_target, "8.8.8.8");
    assert_eq!(loaded.ping_interval_secs, 30);
    assert_eq!(loaded.speed_test_duration_secs, 12);
    assert!(!loaded.vpn_settings.alert_on_ip_change);
    let h = loaded.history.iter().find(|h| h.target == "8.8.8.8").unwrap();
    assert_eq!(h.pings.len(), 1);
    assert_eq!(h.pings[0].latency_us, Some(6_000));
    assert_eq!(h.pings[0].session_id.as_deref(), Some("session-legacy-unknown"));
    assert_eq!(loaded.notification_threshold_ms, 250);
    let again = AppState::from_loaded(loaded);
    assert_eq!(again.notification_threshold_ms, 250);
    assert_eq!(again.primary_target, "8.8.8.8");
}

#[test]
fn menu_rows_and_statistics_at_a_time() {
    let mut s = AppState::default();
    let r = s.apply_ip_check_at(info("1.1.1.1", "DE", "Germany"), NOW);
    assert_eq!(r.session.map(|x| x.started_at), Some(NOW));
    let c = s.cached_ip_info_at(false, NOW + SECOND_US).expect("fresh");
    assert_eq!(c.info.ip, "1.1.1.1");
    s.record_ping_at(&"1.1.1.1".to_string(), Some(1_000), None, NOW + 2 * SECOND_US);
    s.record_ping_at(&"1.1.1.1".to_string(), Some(3_000), None, NOW + 3 * SECOND_US);
    let rows = s.menu_status_rows_at(NOW + 4 * SECOND_US);
    assert_eq!(rows.0, "🟢 Ping: 3ms");
    assert_eq!(rows.1, "   → 1.1.1.1");
    assert_eq!(rows.2, "   ↓1ms · ~2ms · ↑3ms");
    let later = s.menu_status_rows_at(NOW + 10 * MINUTE_US);
    assert_eq!(later.2, "   ↓-- · ~-- · ↑--");
    let st = s.get_statistics_at(None, None, NOW + 4 * SECOND_US);
    assert_eq!((st.min_us, st.avg_us, st.max_us, st.total_pings), (Some(1_000), Some(2_000), Some(3_000), 2));
    assert_eq!(s.get_statistics_at(None, Some(1), NOW + 2 * MINUTE_US).total_pings, 0);
}

#[test]
fn recorded_statuses_are_found_by_url() {
    let mut st = Vec::new();
    set_status(&mut st, check_site_status(&"a".to_string(), Some(5), 1));
    assert_eq!(status_for(&st, &"a".to_string()).map(|x| x.latency_us), Some(Some(5)));
    assert!(status_for(&st, &"b".to_string()).is_none());
}
