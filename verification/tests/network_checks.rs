use pingzilla::network::{
    country_to_flag, detect_network_change_at, ip_info_from_lookup, network_fingerprint,
    should_send_vpn_notification_at, vpn_alert_message,
};
use pingzilla::types::{IpInfo, NetworkChangeType, VpnProtectionSettings, SECOND_US};

fn info(ip: &str, country: &str, code: &str, isp: Option<&str>) -> IpInfo {
    IpInfo {
        ip: ip.to_string(),
        country: country.to_string(),
        country_code: code.to_string(),
        city: None,
        isp: isp.map(|s| s.to_string()),
    }
}

#[test]
fn fingerprint_trims_and_names_a_missing_isp() {
    let a = info("  10.0.0.1 ", "Germany", "DE", None);
    assert_eq!(network_fingerprint(&a), "10.0.0.1|Unknown ISP");
    let b = info("10.0.0.1", "Germany", "DE", Some("  Telekom\t"));
    assert_eq!(network_fingerprint(&b), "10.0.0.1|Telekom");
}

#[test]
fn lookup_fields_default_when_missing() {
    let i = ip_info_from_lookup(None, None, None, Some("Berlin".to_string()), None);
    assert_eq!(i.ip, "Unknown");
    assert_eq!(i.country, "Unknown");
    assert_eq!(i.country_code, "");
    assert_eq!(i.city.as_deref(), Some("Berlin"));
    assert_eq!(i.isp, None);
    let j = ip_info_from_lookup(
        Some("1.2.3.4".to_string()),
        Some("France".to_string()),
        Some("FR".to_string()),
        None,
        Some("Orange".to_string()),
    );
    assert_eq!(j.ip, "1.2.3.4");
    assert_eq!(j.country, "France");
    assert_eq!(j.country_code, "FR");
    assert_eq!(j.isp.as_deref(), Some("Orange"));
}

#[test]
fn country_change_is_reported_before_ip_and_isp() {
    let prev = info("1.1.1.1", "Germany", "DE", Some("A"));
    let cur = info("2.2.2.2", "France", "FR", Some("B"));
    let e = detect_network_change_at(&prev, &cur, false, 77).expect("a change");
    assert_eq!(e.change_type, NetworkChangeType::CountryChanged);
    assert_eq!(e.timestamp, 77);
    assert!(!e.is_expected);
    assert_eq!(e.previous.as_ref().map(|p| p.ip.clone()), Some("1.1.1.1".to_string()));
    assert_eq!(e.current.ip, "2.2.2.2");

    let cur_ip = info("2.2.2.2", "Germany", "DE", Some("B"));
    let e = detect_network_change_at(&prev, &cur_ip, true, 5).expect("a change");
    assert_eq!(e.change_type, NetworkChangeType::IpChanged);
    assert!(e.is_expected);

    let cur_isp = info("1.1.1.1", "Germany", "DE", Some("B"));
    let e = detect_network_change_at(&prev, &cur_isp, false, 5).expect("a change");
    assert_eq!(e.change_type, NetworkChangeType::IspChanged);

    let same = info("1.1.1.1", "Deutschland", "DE", Some("A"));
    assert!(detect_network_change_at(&prev, &same, false, 5).is_none());
}

#[test]
fn vpn_alerts_follow_settings_and_spacing() {
    let prev = info("1.1.1.1", "Germany", "DE", None);
    let cur = info("2.2.2.2", "France", "FR", None);
    let change = detect_network_change_at(&prev, &cur, false, 100 * SECOND_US).unwrap();
    let settings = VpnProtectionSettings::default();
    assert!(should_send_vpn_notification_at(&change, &settings, None, 100 * SECOND_US));
    assert!(!should_send_vpn_notification_at(&change, &settings, Some(71 * SECOND_US), 100 * SECOND_US));
    assert!(should_send_vpn_notification_at(&change, &settings, Some(70 * SECOND_US), 100 * SECOND_US));
    let mut quiet = VpnProtectionSettings::default();
    quiet.alert_on_country_change = false;
    assert!(!should_send_vpn_notification_at(&change, &quiet, None, 100 * SECOND_US));

    let manual = detect_network_change_at(&prev, &cur, true, 100 * SECOND_US).unwrap();
    assert!(!should_send_vpn_notification_at(&manual, &settings, None, 100 * SECOND_US));

    let isp_prev = info("1.1.1.1", "Germany", "DE", Some("A"));
    let isp_cur = info("1.1.1.1", "Germany", "DE", Some("B"));
    let isp_change = detect_network_change_at(&isp_prev, &isp_cur, false, 0).unwrap();
    assert!(!should_send_vpn_notification_at(&isp_change, &settings, None, 0));
}

#[test]
fn vpn_alert_texts() {
    let prev = info("1.1.1.1", "Germany", "DE", None);
    let cur = info("2.2.2.2", "France", "FR", None);
    let a = vpn_alert_message(NetworkChangeType::CountryChanged, &prev, &cur);
    assert_eq!(a.title, "VPN Alert: Location Changed!");
    assert_eq!(a.body, "Germany → France. Check your VPN connection.");
    let b = vpn_alert_message(NetworkChangeType::IpChanged, &prev, &cur);
    assert_eq!(b.title, "Network: IP Changed");
    assert_eq!(b.body, "Your IP address changed to 2.2.2.2");
    let c = vpn_alert_message(NetworkChangeType::IspChanged, &prev, &cur);
    assert_eq!(c.title, "Network Change");
    assert_eq!(c.body, "Network configuration changed");
}

#[test]
fn two_letter_codes_become_flags() {
    assert_eq!(country_to_flag("US"), "🇺🇸");
    assert_eq!(country_to_flag("de"), "🇩🇪");
    assert_eq!(country_to_flag("us"), country_to_flag("US"));
    assert_eq!(country_to_flag("AZ"), "\u{1F1E6}\u{1F1FF}");
    assert_eq!(country_to_flag("USA"), "🌐");
    assert_eq!(country_to_flag(""), "🌐");
    // Two bytes of UTF-8 but one character: upper-cased and shifted all the same.
    assert_eq!(country_to_flag("é"), "\u{1F26E}");
}
