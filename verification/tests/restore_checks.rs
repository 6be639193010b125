use pingzilla::history::{
    claim_unassigned, find_target, insert_empty, latest_ping, pings_for, prune_older, record_ping,
    remove_entries, TargetHistory,
};
use pingzilla::restore::{
    attach_legacy_session, close_open_sessions_at_last_ping, fresh_start, restore_legacy_at,
    restore_saved_at, time_span, SavedData,
};
use pingzilla::sessions::NetworkAlias;
use pingzilla::types::{
    NetworkSession, PingMethod, PingResult, SpeedTestResult, VpnProtectionSettings, DAY_US, MINUTE_US,
};

const NOW: i64 = 1_700_000_000_000_000;

fn ping(target: &str, timestamp: i64, session: Option<&str>) -> PingResult {
    PingResult {
        timestamp,
        latency_us: Some(10_000),
        target: target.to_string(),
        method: Some(PingMethod::Icmp),
        session_id: session.map(|s| s.to_string()),
    }
}

fn session(id: &str, started_at: i64, ended_at: Option<i64>) -> NetworkSession {
    NetworkSession {
        id: id.to_string(),
        fingerprint: "fp".to_string(),
        public_ip: "1.2.3.4".to_string(),
        isp: None,
        label: None,
        started_at,
        ended_at,
    }
}

fn stamps(h: &[TargetHistory], target: &str) -> Vec<i64> {
    pings_for(&h.to_vec(), &target.to_string()).iter().map(|p| p.timestamp).collect()
}

#[test]
fn recording_keeps_one_day_per_target() {
    let mut h: Vec<TargetHistory> = Vec::new();
    record_ping(&mut h, ping("a", NOW - DAY_US - 1, None), NOW - DAY_US - 1);
    record_ping(&mut h, ping("a", NOW - DAY_US, None), NOW - DAY_US);
    record_ping(&mut h, ping("b", NOW - 2 * DAY_US, None), NOW - 2 * DAY_US);
    record_ping(&mut h, ping("a", NOW, None), NOW);
    assert_eq!(stamps(&h, "a"), vec![NOW - DAY_US, NOW]);
    assert_eq!(stamps(&h, "b"), vec![NOW - 2 * DAY_US]);
    assert_eq!(latest_ping(&h, &"a".to_string()).map(|p| p.timestamp), Some(NOW));
    assert!(latest_ping(&h, &"zz".to_string()).is_none());
}

#[test]
fn history_entries_are_found_added_and_removed() {
    let mut h: Vec<TargetHistory> = Vec::new();
    insert_empty(&mut h, "a".to_string());
    insert_empty(&mut h, "b".to_string());
    insert_empty(&mut h, "a".to_string());
    assert_eq!(h.len(), 2);
    assert_eq!(find_target(&h, &"b".to_string()), Some(1));
    remove_entries(&mut h, &"a".to_string());
    assert_eq!(find_target(&h, &"a".to_string()), None);
    assert_eq!(find_target(&h, &"b".to_string()), Some(0));
}

#[test]
fn pruning_drops_only_the_old_front() {
    let mut v = vec![ping("a", 1, None), ping("a", 5, None), ping("a", 2, None), ping("a", 9, None)];
    prune_older(&mut v, 5);
    let ts: Vec<i64> = v.iter().map(|p| p.timestamp).collect();
    assert_eq!(ts, vec![5, 2, 9]);
}

#[test]
fn unassigned_pings_since_a_time_are_claimed() {
    let mut h = vec![TargetHistory {
        target: "a".to_string(),
        pings: vec![ping("a", 1, None), ping("a", 5, None), ping("a", 6, Some("x"))],
    }];
    claim_unassigned(&mut h, &"s".to_string(), Some(5));
    let ids: Vec<Option<String>> = h[0].pings.iter().map(|p| p.session_id.clone()).collect();
    assert_eq!(ids, vec![None, Some("s".to_string()), Some("x".to_string())]);
    claim_unassigned(&mut h, &"t".to_string(), None);
    assert_eq!(h[0].pings[0].session_id.as_deref(), Some("t"));
}

#[test]
fn legacy_session_spans_the_unassigned_pings() {
    let mut h = vec![
        TargetHistory { target: "a".to_string(), pings: vec![ping("a", 30, None), ping("a", 40, Some("s1"))] },
        TargetHistory { target: "b".to_string(), pings: vec![ping("b", 10, None), ping("b", 20, None)] },
    ];
    assert_eq!(time_span(&h, &None), Some((10, 30)));
    assert_eq!(time_span(&h, &Some("s1".to_string())), Some((40, 40)));
    let mut sessions = vec![session("s1", 35, None)];
    attach_legacy_session(&mut h, &mut sessions);
    assert_eq!(sessions.len(), 2);
    let legacy = &sessions[0];
    assert_eq!(legacy.id, "session-legacy-unknown");
    assert_eq!(legacy.fingerprint, "legacy-unknown");
    assert_eq!(legacy.public_ip, "Unknown");
    assert_eq!(legacy.started_at, 10);
    assert_eq!(legacy.ended_at, Some(30));
    assert_eq!(h[1].pings[0].session_id.as_deref(), Some("session-legacy-unknown"));
    assert_eq!(h[0].pings[1].session_id.as_deref(), Some("s1"));

    // A second migration changes nothing.
    attach_legacy_session(&mut h, &mut sessions);
    assert_eq!(sessions.len(), 2);
}

#[test]
fn open_sessions_without_pings_close_at_their_start() {
    let h = vec![TargetHistory { target: "a".to_string(), pings: vec![ping("a", 50, Some("s2"))] }];
    let mut sessions = vec![session("s1", 7, None), session("s2", 8, None), session("s3", 9, Some(12))];
    close_open_sessions_at_last_ping(&h, &mut sessions);
    let ends: Vec<Option<i64>> = sessions.iter().map(|s| s.ended_at).collect();
    assert_eq!(ends, vec![Some(7), Some(50), Some(12)]);
}

#[test]
fn loading_saved_data_keeps_the_last_day() {
    let old_test = SpeedTestResult {
        id: "speed-old".to_string(),
        timestamp: NOW - DAY_US,
        session_id: None,
        download_bps: 1,
        upload_bps: 1,
        loaded_latency_us: None,
        idle_latency_us: None,
        responsiveness_rpm: None,
        interface_name: None,
    };
    let new_test = SpeedTestResult { id: "speed-new".to_string(), timestamp: NOW - MINUTE_US, ..old_test.clone() };
    let data = SavedData {
        history: vec![TargetHistory {
            target: "1.1.1.1".to_string(),
            pings: vec![
                ping("1.1.1.1", NOW - 2 * DAY_US, Some("gone")),
                ping("1.1.1.1", NOW - 2 * MINUTE_US, None),
                ping("1.1.1.1", NOW - MINUTE_US, Some("s-open")),
            ],
        }],
        targets: vec!["1.1.1.1".to_string()],
        primary_target: "1.1.1.1".to_string(),
        notification_threshold_ms: 900,
        site_monitors: Vec::new(),
        vpn_settings: VpnProtectionSettings::default(),
        ping_interval_secs: 30,
        speed_test_duration_secs: 12,
        network_sessions: vec![
            session("gone", NOW - 3 * DAY_US, Some(NOW - 2 * DAY_US)),
            session("s-open", NOW - 10 * MINUTE_US, None),
        ],
        network_aliases: vec![NetworkAlias { fingerprint: "fp".to_string(), label: "Home".to_string() }],
        speed_tests: vec![old_test, new_test],
    };
    let l = restore_saved_at(data, NOW);
    assert_eq!(stamps(&l.history, "1.1.1.1"), vec![NOW - 2 * MINUTE_US, NOW - MINUTE_US]);
    assert_eq!(l.history[0].pings[0].session_id.as_deref(), Some("session-legacy-unknown"));
    let ids: Vec<&str> = l.network_sessions.iter().map(|s| s.id.as_str()).collect();
    assert_eq!(ids, vec!["session-legacy-unknown", "s-open"]);
    assert_eq!(l.network_sessions[1].ended_at, Some(NOW - MINUTE_US));
    assert_eq!(l.speed_tests.len(), 1);
    assert_eq!(l.speed_tests[0].id, "speed-new");
    assert_eq!(l.ping_interval_secs, 30);
    assert_eq!(l.notification_threshold_ms, 900);
    assert_eq!(l.speed_test_duration_secs, 12);
    assert_eq!(l.network_aliases.len(), 1);
}

#[test]
fn loading_the_first_file_format() {
    let pings = vec![ping("9.9.9.9", NOW - 2 * DAY_US, None), ping("9.9.9.9", NOW - 1, None)];
    let l = restore_legacy_at(pings, NOW);
    assert_eq!(l.targets, vec!["9.9.9.9".to_string()]);
    assert_eq!(l.primary_target, "9.9.9.9");
    assert_eq!(stamps(&l.history, "9.9.9.9"), vec![NOW - 1]);
    assert_eq!(l.network_sessions.len(), 1);
    assert_eq!(l.network_sessions[0].id, "session-legacy-unknown");
    assert_eq!(l.ping_interval_secs, 10);
    assert_eq!(l.speed_test_duration_secs, 7);

    let l = restore_legacy_at(vec![ping("9.9.9.9", NOW - 2 * DAY_US, None)], NOW);
    assert_eq!(l.primary_target, "1.1.1.1");
    assert!(l.network_sessions.is_empty());
}

#[test]
fn a_fresh_start_monitors_one_target() {
    let l = fresh_start();
    assert_eq!(l.targets, vec!["1.1.1.1".to_string()]);
    assert_eq!(l.primary_target, "1.1.1.1");
    assert_eq!(l.notification_threshold_ms, 400);
    assert_eq!(l.history.len(), 1);
    assert!(l.history[0].pings.is_empty());
    assert_eq!(l.ping_interval_secs, 10);
    assert_eq!(l.speed_test_duration_secs, 7);
    assert!(l.vpn_settings.enabled);
    assert_eq!(l.vpn_settings.check_interval_secs, 60);
}
