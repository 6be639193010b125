use pingzilla::history::TargetHistory;
use pingzilla::stats::{
    extremes, get_session_details, get_statistics_at, latencies_of, mean, median, median_sorted,
    percentile, sort_values,
};
use pingzilla::types::{NetworkSession, PingMethod, PingResult, SpeedTestResult, MINUTE_US};

const NOW: i64 = 1_700_000_000_000_000;

fn ping(timestamp: i64, latency_us: Option<u64>, session: Option<&str>) -> PingResult {
    PingResult {
        timestamp,
        latency_us,
        target: "1.1.1.1".to_string(),
        method: Some(PingMethod::TcpDns),
        session_id: session.map(|s| s.to_string()),
    }
}

fn session(id: &str) -> NetworkSession {
    NetworkSession {
        id: id.to_string(),
        fingerprint: "1.2.3.4|ISP".to_string(),
        public_ip: "1.2.3.4".to_string(),
        isp: Some("ISP".to_string()),
        label: None,
        started_at: 0,
        ended_at: None,
    }
}

fn speed_test(id: &str, session: Option<&str>) -> SpeedTestResult {
    SpeedTestResult {
        id: id.to_string(),
        timestamp: 0,
        session_id: session.map(|s| s.to_string()),
        download_bps: 1,
        upload_bps: 2,
        loaded_latency_us: None,
        idle_latency_us: None,
        responsiveness_rpm: None,
        interface_name: None,
    }
}

#[test]
fn sorting_orders_and_keeps_every_value() {
    assert_eq!(sort_values(&vec![5, 3, 9, 3, 1]), vec![1, 3, 3, 5, 9]);
    assert_eq!(sort_values(&vec![]), Vec::<u64>::new());
}

#[test]
fn nearest_rank_edges() {
    let one = [7];
    assert_eq!(percentile(&one, 95, 100), Some(7));
    assert_eq!(percentile(&one, 0, 100), Some(7));
    let ten: Vec<u64> = (1..=10).collect();
    assert_eq!(percentile(&ten, 95, 100), Some(10));
    assert_eq!(percentile(&ten, 90, 100), Some(9));
    assert_eq!(percentile(&ten, 100, 100), Some(10));
    assert_eq!(percentile(&ten, 1, 100), Some(1));
}

#[test]
fn median_of_odd_even_and_empty() {
    assert_eq!(median(&vec![3, 1, 2]), Some(2));
    assert_eq!(median(&vec![4, 1]), Some(2));
    assert_eq!(median(&vec![]), None);
    assert_eq!(median_sorted(&[1, 2, 3, 10]), Some(2));
    assert_eq!(median(&vec![u64::MAX, u64::MAX]), Some(u64::MAX));
    assert_eq!(median(&vec![900, 100, 500, 300]), median(&vec![300, 500, 100, 900]));
}

#[test]
fn mean_rounds_down() {
    assert_eq!(mean(&vec![1, 2]), Some(1));
    assert_eq!(mean(&vec![10, 20, 31]), Some(20));
    assert_eq!(mean(&vec![]), None);
    assert_eq!(mean(&vec![u64::MAX, u64::MAX]), Some(u64::MAX));
}

#[test]
fn extremes_and_failures() {
    assert_eq!(extremes(&vec![4, 9, 1, 7]), (1, 9));
    let pings = vec![ping(1, Some(10), None), ping(2, None, None), ping(3, Some(30), None)];
    let (lat, failed) = latencies_of(&pings);
    assert_eq!(lat, vec![10, 30]);
    assert_eq!(failed, 1);
}

#[test]
fn statistics_cover_the_requested_window() {
    let history = vec![TargetHistory {
        target: "1.1.1.1".to_string(),
        pings: vec![
            ping(NOW - 10 * MINUTE_US, Some(500_000), None),
            ping(NOW - 4 * MINUTE_US, Some(20_000), None),
            ping(NOW - 2 * MINUTE_US, None, None),
            ping(NOW - MINUTE_US, Some(41_000), None),
        ],
    }];
    let primary = "1.1.1.1".to_string();
    let s = get_statistics_at(&history, &primary, None, None, NOW);
    assert_eq!(s.min_us, Some(20_000));
    assert_eq!(s.max_us, Some(41_000));
    assert_eq!(s.avg_us, Some(30_500));
    assert_eq!(s.total_pings, 3);
    assert_eq!(s.failed_pings, 1);

    let s = get_statistics_at(&history, &primary, None, Some(60), NOW);
    assert_eq!(s.max_us, Some(500_000));
    assert_eq!(s.total_pings, 4);

    let s = get_statistics_at(&history, &primary, Some("8.8.8.8".to_string()), None, NOW);
    assert_eq!(s.min_us, None);
    assert_eq!(s.avg_us, None);
    assert_eq!(s.total_pings, 0);
}

#[test]
fn session_details_summarise_its_pings() {
    let sessions = vec![session("s1"), session("s2")];
    let history = vec![TargetHistory {
        target: "1.1.1.1".to_string(),
        pings: vec![
            ping(1, Some(30), Some("s1")),
            ping(2, Some(10), Some("s1")),
            ping(3, None, Some("s1")),
            ping(4, Some(20), Some("s1")),
            ping(5, Some(999), Some("s2")),
            ping(6, Some(40), Some("s1")),
        ],
    }];
    let tests = vec![speed_test("a", Some("s1")), speed_test("b", Some("s2")), speed_test("c", Some("s1"))];
    let d = get_session_details(&sessions, &history, &tests, &"s1".to_string(), &"1.1.1.1".to_string())
        .expect("known session");
    assert_eq!(d.session.id, "s1");
    assert_eq!(d.median_us, Some(25));
    assert_eq!(d.average_us, Some(25));
    assert_eq!(d.p95_us, Some(40));
    assert_eq!(d.total_pings, 5);
    assert_eq!(d.failed_pings, 1);
    assert_eq!(d.latest_speed_test.map(|t| t.id), Some("c".to_string()));

    let e = get_session_details(&sessions, &history, &tests, &"nope".to_string(), &"1.1.1.1".to_string());
    assert_eq!(e.err(), Some("Network session not found".to_string()));
}
