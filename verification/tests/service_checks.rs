use pingzilla::service::{
    begin_speed_test, latency_alert, measurements_or_error, record_speed_test, speed_test_failure,
    Measurements, ServiceClock,
};
use pingzilla::types::{SpeedTestResult, DAY_US, SECOND_US};

fn measurements() -> Measurements {
    Measurements {
        download_bps: 100_000_000,
        upload_bps: 20_000_000,
        loaded_latency_us: Some(400_000),
        idle_latency_us: Some(20_000),
        responsiveness_rpm: Some(900),
        interface_name: Some("en0".to_string()),
    }
}

#[test]
fn ticks_schedule_site_ip_and_save_jobs() {
    let mut c = ServiceClock::new();
    let mut sites = Vec::new();
    let mut ips = Vec::new();
    let mut saves = Vec::new();
    for _ in 0..30 {
        let p = c.next_tick();
        if p.check_sites {
            sites.push(c.tick_count);
        }
        if p.check_ip {
            ips.push(c.tick_count);
        }
        if p.save_history {
            saves.push(c.tick_count);
        }
    }
    assert_eq!(sites, vec![6, 12, 18, 24, 30]);
    assert_eq!(ips, vec![1, 3, 9, 15, 21, 27]);
    assert_eq!(saves, vec![30]);

    c.set_interval(5);
    assert_eq!(c.tick_count, 30);
    let p = c.next_tick();
    assert_eq!(c.tick_count, 31);
    assert!(!p.check_sites && p.check_ip && !p.save_history);
    let p = c.next_tick();
    assert!(p.check_sites && !p.check_ip && !p.save_history);
}

#[test]
fn tick_count_wraps() {
    let mut c = ServiceClock { tick_count: u64::MAX, last_interval_secs: 10 };
    let p = c.next_tick();
    assert_eq!(c.tick_count, 0);
    assert!(p.check_sites && p.save_history && !p.check_ip);
}

#[test]
fn latency_alerts_need_a_slow_ping_and_a_quiet_minute() {
    let mut last = None;
    assert_eq!(latency_alert(Some(400_000), 400, &mut last, 0), None);
    assert_eq!(last, None);
    let a = latency_alert(Some(400_001), 400, &mut last, 100 * SECOND_US);
    assert_eq!(a.as_deref(), Some("High latency detected: 400ms"));
    assert_eq!(last, Some(100 * SECOND_US));
    assert_eq!(latency_alert(Some(900_000), 400, &mut last, 160 * SECOND_US), None);
    assert_eq!(last, Some(100 * SECOND_US));
    let b = latency_alert(Some(900_500), 400, &mut last, 161 * SECOND_US);
    assert_eq!(b.as_deref(), Some("High latency detected: 900ms"));
    assert_eq!(latency_alert(None, 400, &mut last, 500 * SECOND_US), None);
}

#[test]
fn one_speed_test_at_a_time() {
    let mut running = false;
    assert_eq!(begin_speed_test(&mut running), Ok(()));
    assert!(running);
    assert_eq!(begin_speed_test(&mut running), Err("A speed test is already running".to_string()));
    assert!(running);
}

#[test]
fn speed_test_error_text() {
    assert_eq!(speed_test_failure(&"NSURLErrorDomain".to_string(), -1009), "networkQuality failed (NSURLErrorDomain, code -1009)");
}

#[test]
fn speed_tests_are_kept_for_a_day() {
    let now = 10 * DAY_US;
    let old = SpeedTestResult {
        id: "speed-1".to_string(),
        timestamp: now - DAY_US - 1,
        session_id: None,
        download_bps: 1,
        upload_bps: 1,
        loaded_latency_us: None,
        idle_latency_us: None,
        responsiveness_rpm: None,
        interface_name: None,
    };
    let recent = SpeedTestResult { id: "speed-2".to_string(), timestamp: now - DAY_US, ..old.clone() };
    let mut tests = vec![old, recent];
    let r = record_speed_test(&mut tests, Some("session-9".to_string()), measurements(), now);
    assert_eq!(r.id, format!("speed-{}", now));
    assert_eq!(r.timestamp, now);
    assert_eq!(r.session_id.as_deref(), Some("session-9"));
    assert_eq!(r.download_bps, 100_000_000);
    assert_eq!(r.loaded_latency_us, Some(400_000));
    assert_eq!(r.interface_name.as_deref(), Some("en0"));
    let ids: Vec<String> = tests.iter().map(|t| t.id.clone()).collect();
    assert_eq!(ids, vec!["speed-2".to_string(), format!("speed-{}", now)]);
}

#[test]
fn the_first_tick_looks_up_the_ip() {
    let mut c = ServiceClock::new();
    assert!(c.next_tick().check_ip);
    let mut slow = ServiceClock::new();
    slow.set_interval(30);
    let p = slow.next_tick();
    assert!(p.check_ip && !p.check_sites && !p.save_history);
}

#[test]
fn a_report_with_an_error_domain_is_a_failure() {
    let e = measurements_or_error(Some("NSPOSIXErrorDomain".to_string()), Some(57), measurements());
    assert_eq!(e.err(), Some("networkQuality failed (NSPOSIXErrorDomain, code 57)".to_string()));
    let e = measurements_or_error(Some("D".to_string()), None, measurements());
    assert_eq!(e.err(), Some("networkQuality failed (D, code 0)".to_string()));
    let ok = measurements_or_error(None, Some(3), measurements()).expect("measurements");
    assert_eq!(ok.download_bps, 100_000_000);
    assert_eq!(ok.interface_name.as_deref(), Some("en0"));
}
