use pingzilla::sites::{
    apply_site_check, check_site_status, enabled_monitors, remove_status, set_status, shorten_url,
    site_address,
};
use pingzilla::types::{SiteMonitor, SiteStatus};

fn monitor(url: &str, name: Option<&str>, enabled: bool) -> SiteMonitor {
    SiteMonitor { url: url.to_string(), name: name.map(|s| s.to_string()), enabled }
}

#[test]
fn urls_are_shortened_to_their_host() {
    assert_eq!(shorten_url("https://example.com/path"), "example.com");
    assert_eq!(shorten_url("http://example.com"), "example.com");
    assert_eq!(shorten_url("example.com/a/b"), "example.com");
    assert_eq!(shorten_url("https://http://x.org/"), "x.org");
    assert_eq!(shorten_url("https://https://x.org/"), "x.org");
    assert_eq!(shorten_url("http://https://x.org/"), "https:");
    assert_eq!(shorten_url(""), "");
    for u in ["https://a.b/c/d", "http://https://x.org/", "plain", "a/b"] {
        let once = shorten_url(u);
        assert!(!once.contains('/'));
        assert!(u.contains(once.as_str()));
        assert_eq!(shorten_url(&once), once);
    }
}

#[test]
fn site_addresses_take_the_port_from_the_scheme_or_the_host() {
    assert_eq!(site_address("https://example.com/path"), "example.com:443");
    assert_eq!(site_address("http://example.com"), "example.com:80");
    assert_eq!(site_address("example.com"), "example.com:443");
    assert_eq!(site_address("http://example.com:8080/x"), "example.com:8080");
    assert_eq!(site_address("https://example.com:+81"), "example.com:81");
    assert_eq!(site_address("http://example.com:99999"), "example.com:99999");
    assert_eq!(site_address("http://example.com:-1"), "example.com:-1");
    assert_eq!(site_address("https://example.com:007/"), "example.com:7");
    assert_eq!(site_address("https://example.com:2147483647"), "example.com:2147483647");
    assert_eq!(site_address("https://example.com:2147483648"), "example.com:443");
    assert_eq!(site_address("https://example.com:-2147483648"), "example.com:-2147483648");
    assert_eq!(site_address("https://example.com:-"), "example.com:443");
    assert_eq!(site_address("https://example.com:x1"), "example.com:443");
    assert_eq!(site_address("http://example.com:"), "example.com:80");
}

#[test]
fn a_check_records_up_or_down() {
    let up = check_site_status(&"https://a.example".to_string(), Some(12_000), 50);
    assert!(up.is_up);
    assert_eq!(up.latency_us, Some(12_000));
    assert_eq!(up.last_check, 50);
    assert_eq!(up.last_down, None);
    let down = check_site_status(&"https://a.example".to_string(), None, 60);
    assert!(!down.is_up);
    assert_eq!(down.latency_us, None);
    assert_eq!(down.last_down, Some(60));
}

#[test]
fn going_down_alerts_once_and_recovery_keeps_the_last_outage() {
    let m = monitor("https://a.example", Some("Shop"), true);
    let mut statuses: Vec<SiteStatus> = Vec::new();
    let r = apply_site_check(&mut statuses, &m, Some(10_000), 1);
    assert!(!r.changed);
    assert_eq!(r.alert, None);
    let r = apply_site_check(&mut statuses, &m, None, 2);
    assert!(r.changed);
    assert_eq!(r.alert.as_deref(), Some("Shop is not responding"));
    let r = apply_site_check(&mut statuses, &m, None, 3);
    assert!(!r.changed);
    assert_eq!(r.alert, None);
    assert_eq!(statuses[0].last_down, Some(3));
    let r = apply_site_check(&mut statuses, &m, Some(20_000), 4);
    assert!(r.changed);
    assert_eq!(r.alert, None);
    assert_eq!(statuses.len(), 1);
    assert!(statuses[0].is_up);
    assert_eq!(statuses[0].last_down, Some(3));
    assert_eq!(statuses[0].last_check, 4);

    let unnamed = monitor("https://b.example", None, true);
    let r = apply_site_check(&mut statuses, &unnamed, None, 5);
    assert_eq!(r.alert.as_deref(), Some("https://b.example is not responding"));
    assert_eq!(statuses.len(), 2);
}

#[test]
fn statuses_are_replaced_and_removed_by_url() {
    let mut s: Vec<SiteStatus> = Vec::new();
    set_status(&mut s, check_site_status(&"u1".to_string(), Some(1), 1));
    set_status(&mut s, check_site_status(&"u2".to_string(), Some(2), 1));
    set_status(&mut s, check_site_status(&"u1".to_string(), None, 2));
    let u1 = s.iter().find(|x| x.url == "u1").unwrap();
    assert!(!u1.is_up);
    remove_status(&mut s, &"u1".to_string());
    assert!(s.iter().all(|x| x.url != "u1"));
    assert!(s.iter().any(|x| x.url == "u2"));
}

#[test]
fn only_enabled_monitors_are_checked() {
    let ms = vec![monitor("a", None, true), monitor("b", None, false), monitor("c", None, true)];
    let urls: Vec<String> = enabled_monitors(&ms).into_iter().map(|m| m.url).collect();
    assert_eq!(urls, vec!["a".to_string(), "c".to_string()]);
}

#[test]
fn checked_monitors_keep_their_names() {
    let ms = vec![monitor("a", Some("Shop"), true), monitor("b", Some("Blog"), false)];
    let e = enabled_monitors(&ms);
    assert_eq!(e.len(), 1);
    assert_eq!(e[0].name.as_deref(), Some("Shop"));
    assert!(e[0].enabled);
}
