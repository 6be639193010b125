use pingzilla::history::TargetHistory;
use pingzilla::network::network_fingerprint;
use pingzilla::restore::{
    attach_legacy_session, close_open_sessions_at_last_ping, restore_legacy_at, restore_saved_at, SavedData,
};
use pingzilla::settings::default_speed_test_duration;
use pingzilla::state::AppState;
use pingzilla::stats::{median, percentile};
use pingzilla::types::{IpInfo, NetworkSession, PingMethod, PingResult, VpnProtectionSettings, MINUTE_US};

const NOW: i64 = 1_700_000_000_000_000;

fn ping(timestamp: i64, latency_us: Option<u64>, target: &str, session_id: Option<&str>) -> PingResult {
    PingResult {
        timestamp,
        latency_us,
        target: target.to_string(),
        method: Some(PingMethod::Icmp),
        session_id: session_id.map(|s| s.to_string()),
    }
}

fn example_info() -> IpInfo {
    IpInfo {
        ip: "203.0.113.1".to_string(),
        country: "United States".to_string(),
        country_code: "US".to_string(),
        city: None,
        isp: Some("Example ISP".to_string()),
    }
}

#[test]
fn legacy_pings_are_migrated_to_an_unknown_session() {
    let timestamp = NOW;
    let mut history = vec![TargetHistory {
        target: "1.1.1.1".to_string(),
        pings: vec![ping(timestamp, Some(42_000), "1.1.1.1", None)],
    }];
    let mut sessions: Vec<NetworkSession> = Vec::new();

    attach_legacy_session(&mut history, &mut sessions);

    assert_eq!(sessions.len(), 1);
    assert_eq!(history[0].pings[0].session_id.as_deref(), Some("session-legacy-unknown"));
    assert_eq!(sessions[0].label.as_deref(), Some("Unknown previous connection"));
}

#[test]
fn percentile_uses_nearest_rank() {
    let values = [10, 20, 30, 40, 50];
    assert_eq!(percentile(&values, 95, 100), Some(50));
    assert_eq!(percentile(&values, 50, 100), Some(30));
    assert_eq!(percentile(&[], 95, 100), None);
}

#[test]
fn speed_test_latency_uses_array_median() {
    let raw = vec![900_000, 100_000, 500_000, 300_000];
    assert_eq!(median(&raw), Some(400_000));
}

#[test]
fn public_ip_and_isp_form_the_network_fingerprint() {
    let info = example_info();
    assert_eq!(network_fingerprint(&info), "203.0.113.1|Example ISP");
}

#[test]
fn persisted_open_session_closes_at_its_last_ping() {
    let timestamp = NOW;
    let session_id = "session-current".to_string();
    let history = vec![TargetHistory {
        target: "1.1.1.1".to_string(),
        pings: vec![ping(timestamp, Some(42_000), "1.1.1.1", Some("session-current"))],
    }];
    let mut sessions = vec![NetworkSession {
        id: session_id,
        fingerprint: "203.0.113.1|Example ISP".to_string(),
        public_ip: "203.0.113.1".to_string(),
        isp: Some("Example ISP".to_string()),
        label: None,
        started_at: timestamp - 5 * MINUTE_US,
        ended_at: None,
    }];

    close_open_sessions_at_last_ping(&history, &mut sessions);

    assert_eq!(sessions[0].ended_at, Some(timestamp));
}

#[test]
fn saved_history_without_speed_duration_defaults_to_seven_seconds() {
    // A history file without the speed test duration takes the field's
    // default, `default_speed_test_duration`; loading keeps it.
    assert_eq!(default_speed_test_duration(), 7);
    let saved = SavedData {
        history: Vec::new(),
        targets: vec!["1.1.1.1".to_string()],
        primary_target: "1.1.1.1".to_string(),
        notification_threshold_ms: 400,
        site_monitors: Vec::new(),
        vpn_settings: VpnProtectionSettings::default(),
        ping_interval_secs: 10,
        speed_test_duration_secs: default_speed_test_duration(),
        network_sessions: Vec::new(),
        network_aliases: Vec::new(),
        speed_tests: Vec::new(),
    };
    let loaded = restore_saved_at(saved, NOW);
    assert_eq!(loaded.speed_test_duration_secs, 7);
    // The first file format has no such field either.
    let legacy = restore_legacy_at(vec![ping(NOW, Some(1_000), "1.1.1.1", None)], NOW);
    assert_eq!(legacy.speed_test_duration_secs, 7);
}

#[test]
fn initial_session_claims_recent_startup_pings() {
    let mut state = AppState::default();
    let entry = state
        .ping_history
        .iter_mut()
        .find(|h| h.target == "1.1.1.1")
        .expect("default target history");
    entry.pings.push(ping(NOW, Some(42_000), "1.1.1.1", None));
    let info = example_info();

    let session = state.ensure_network_session_at(&info, false, NOW + 1_000).expect("initial session");

    let h = state.ping_history.iter().find(|h| h.target == "1.1.1.1").unwrap();
    assert_eq!(h.pings[0].session_id.as_deref(), Some(session.id.as_str()));
}
