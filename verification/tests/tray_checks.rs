use pingzilla::history::TargetHistory;
use pingzilla::tray::{
    get_icon_type_for_latency, ip_row_text, ping_row_text, ping_title_text, site_item_id,
    site_row_text, stats_row_text, status_rows_at, target_row_text, tray_for_mode, tray_state_for,
    update_tray_if_changed, visible_site_monitors,
};
use pingzilla::types::{
    DisplayMode, IpInfo, PingMethod, PingResult, SiteMonitor, SiteStatus, TrayIconType, TrayState,
    MINUTE_US,
};

fn ping(timestamp: i64, latency_us: Option<u64>) -> PingResult {
    PingResult {
        timestamp,
        latency_us,
        target: "1.1.1.1".to_string(),
        method: Some(PingMethod::Icmp),
        session_id: None,
    }
}

#[test]
fn icons_follow_latency_bands() {
    assert_eq!(get_icon_type_for_latency(Some(99_999)), TrayIconType::Happy);
    assert_eq!(get_icon_type_for_latency(Some(100_000)), TrayIconType::Angry);
    assert_eq!(get_icon_type_for_latency(Some(149_999)), TrayIconType::Angry);
    assert_eq!(get_icon_type_for_latency(Some(150_000)), TrayIconType::Sad);
    assert_eq!(get_icon_type_for_latency(None), TrayIconType::Dead);
}

#[test]
fn titles_round_half_to_even() {
    assert_eq!(ping_title_text(Some(42_400)), "42ms");
    assert_eq!(ping_title_text(Some(42_500)), "42ms");
    assert_eq!(ping_title_text(Some(43_500)), "44ms");
    assert_eq!(ping_title_text(Some(42_501)), "43ms");
    assert_eq!(ping_title_text(Some(0)), "0ms");
    assert_eq!(ping_title_text(None), "---");
}

#[test]
fn display_modes_pick_icon_and_title() {
    let s = tray_state_for(DisplayMode::PingOnly, Some(20_000));
    assert_eq!(s.icon_type, TrayIconType::Transparent);
    assert_eq!(s.title, "20ms");
    let s = tray_state_for(DisplayMode::IconAndPing, Some(200_000));
    assert_eq!(s.icon_type, TrayIconType::Sad);
    let d = tray_for_mode(DisplayMode::IconOnly, Some(20_000));
    assert_eq!(d.icon, TrayIconType::Happy);
    assert_eq!(d.title, "");
    let d = tray_for_mode(DisplayMode::PingOnly, None);
    assert_eq!(d.icon, TrayIconType::Transparent);
    assert_eq!(d.title, "---");
}

#[test]
fn the_tray_is_redrawn_only_on_change() {
    let mut last: Option<TrayState> = None;
    let a = TrayState { icon_type: TrayIconType::Happy, title: "20ms".to_string() };
    let d = update_tray_if_changed(&a, &mut last, DisplayMode::IconAndPing).expect("first draw");
    assert_eq!(d.icon, TrayIconType::Happy);
    assert_eq!(d.title, "20ms");
    assert!(update_tray_if_changed(&a, &mut last, DisplayMode::IconAndPing).is_none());
    let b = TrayState { icon_type: TrayIconType::Happy, title: "21ms".to_string() };
    let d = update_tray_if_changed(&b, &mut last, DisplayMode::IconOnly).expect("changed title");
    assert_eq!(d.title, "");
    assert_eq!(last.map(|s| s.title), Some("21ms".to_string()));
}

#[test]
fn menu_rows() {
    assert_eq!(ping_row_text(&Some(ping(0, Some(20_000)))), "🟢 Ping: 20ms");
    assert_eq!(ping_row_text(&Some(ping(0, Some(120_000)))), "🟡 Ping: 120ms");
    assert_eq!(ping_row_text(&Some(ping(0, Some(150_000)))), "🔴 Ping: 150ms");
    assert_eq!(ping_row_text(&Some(ping(0, None))), "⚫ Ping: Timeout");
    assert_eq!(ping_row_text(&None), "⚪ Ping: ---");
    assert_eq!(target_row_text(&"1.1.1.1".to_string()), "   → 1.1.1.1");
    assert_eq!(stats_row_text(Some(10_000), Some(15_400), Some(20_600)), "   ↓10ms · ~15ms · ↑21ms");
    assert_eq!(stats_row_text(None, None, None), "   ↓-- · ~-- · ↑--");
    assert_eq!(site_item_id(&"https://a.example".to_string()), "site_https://a.example");
}

#[test]
fn ip_row_shows_address_and_flag() {
    let info = IpInfo {
        ip: "203.0.113.1".to_string(),
        country: "United States".to_string(),
        country_code: "US".to_string(),
        city: None,
        isp: None,
    };
    assert_eq!(ip_row_text(&Some(info)), "📍 IP: 203.0.113.1 (🇺🇸 US)");
    assert_eq!(ip_row_text(&None), "📍 IP: Loading...");
}

#[test]
fn site_rows() {
    let url = "https://example.com/path".to_string();
    let up = SiteStatus { url: url.clone(), is_up: true, latency_us: Some(12_999), last_check: 0, last_down: None };
    assert_eq!(site_row_text(&url, Some(&up)), "  ✅ example.com (12ms)");
    let down = SiteStatus { url: url.clone(), is_up: false, latency_us: None, last_check: 0, last_down: Some(0) };
    assert_eq!(site_row_text(&url, Some(&down)), "  ❌ example.com ");
    assert_eq!(site_row_text(&url, None), "  ⏳ example.com");
}

#[test]
fn the_menu_lists_the_first_five_enabled_sites() {
    let ms: Vec<SiteMonitor> = (0..8)
        .map(|i| SiteMonitor { url: format!("s{}", i), name: None, enabled: i != 1 })
        .collect();
    let urls: Vec<String> = visible_site_monitors(&ms).into_iter().map(|m| m.url).collect();
    assert_eq!(urls, vec!["s0", "s2", "s3", "s4", "s5"]);
}

#[test]
fn status_rows_for_the_primary_target() {
    let now = 100 * MINUTE_US;
    let history = vec![TargetHistory {
        target: "1.1.1.1".to_string(),
        pings: vec![ping(now - 10 * MINUTE_US, Some(900_000)), ping(now - MINUTE_US, Some(30_000)), ping(now, Some(50_000))],
    }];
    let (p, t, s) = status_rows_at(&history, &"1.1.1.1".to_string(), now);
    assert_eq!(p, "🟢 Ping: 50ms");
    assert_eq!(t, "   → 1.1.1.1");
    assert_eq!(s, "   ↓30ms · ~40ms · ↑50ms");
    let (p, _, s) = status_rows_at(&history, &"8.8.8.8".to_string(), now);
    assert_eq!(p, "⚪ Ping: ---");
    assert_eq!(s, "   ↓-- · ~-- · ↑--");
}
