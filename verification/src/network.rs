//! Public-IP information: the network fingerprint, change detection between
//! two lookups, the VPN alert policy and its texts, and country flags.
use vstd::prelude::*;
use crate::text::{trim, trim_text, push_char, push_str, text, chars_of};
use crate::types::{
    IpInfo, IpInfoView, NetworkChangeEvent, NetworkChangeType, ChangeView, VpnProtectionSettings,
    opt_view, opt_eq, SECOND_US,
};
use vstd::string::*;

verus! {

/// The ISP name used in a fingerprint.
pub open spec fn isp_text(isp: Option<Seq<char>>) -> Seq<char> {
    match isp {
        Some(s) => s,
        None => "Unknown ISP"@,
    }
}

/// `"<ip>|<isp>"`, both trimmed; a missing ISP reads "Unknown ISP".
pub open spec fn fingerprint_of(info: IpInfoView) -> Seq<char> {
    trim(info.ip) + seq!['|'] + trim(isp_text(info.isp))
}

/// The fingerprint that identifies a network session: public IP and ISP.
pub fn network_fingerprint(info: &IpInfo) -> (r: String)
    ensures
        r@ == fingerprint_of(info@),
{
    let mut r = trim_text(info.ip.as_str());
    push_char(&mut r, '|');
    let isp = match &info.isp {
        Some(s) => trim_text(s.as_str()),
        None => trim_text("Unknown ISP"),
    };
    push_str(&mut r, isp.as_str());
    r
}

/// `IpInfo` from the fields of an ip-api.com answer: a missing `query` or
/// `country` reads "Unknown", a missing `countryCode` reads "".
pub fn ip_info_from_lookup(
    query: Option<String>,
    country: Option<String>,
    country_code: Option<String>,
    city: Option<String>,
    isp: Option<String>,
) -> (r: IpInfo)
    ensures
        r.ip@ == (match query {
            Some(s) => s@,
            None => "Unknown"@,
        }),
        r.country@ == (match country {
            Some(s) => s@,
            None => "Unknown"@,
        }),
        r.country_code@ == (match country_code {
            Some(s) => s@,
            None => ""@,
        }),
        opt_view(r.city) == opt_view(city),
        opt_view(r.isp) == opt_view(isp),
{
    IpInfo {
        ip: match query {
            Some(s) => s,
            None => text("Unknown"),
        },
        country: match country {
            Some(s) => s,
            None => text("Unknown"),
        },
        country_code: match country_code {
            Some(s) => s,
            None => text(""),
        },
        city,
        isp,
    }
}

/// What changed between two lookups: the country first (a VPN that dropped),
/// then the IP, then the ISP.
pub open spec fn change_kind(prev: IpInfoView, cur: IpInfoView) -> Option<NetworkChangeType> {
    if prev.country_code != cur.country_code {
        Some(NetworkChangeType::CountryChanged)
    } else if prev.ip != cur.ip {
        Some(NetworkChangeType::IpChanged)
    } else if prev.isp != cur.isp {
        Some(NetworkChangeType::IspChanged)
    } else {
        None
    }
}

/// The event reported for a change of kind `k` seen at `now`.
pub open spec fn change_event(
    k: NetworkChangeType,
    prev: IpInfoView,
    cur: IpInfoView,
    now: i64,
    is_manual: bool,
) -> ChangeView {
    ChangeView {
        change_type: k,
        previous: Some(prev),
        current: cur,
        timestamp: now,
        is_expected: is_manual,
    }
}

/// Compares two lookups; the event carries the time `now`.
pub fn detect_network_change_at(prev: &IpInfo, current: &IpInfo, is_manual: bool, now: i64) -> (r:
    Option<NetworkChangeEvent>)
    ensures
        match change_kind(prev@, current@) {
            None => r is None,
            Some(k) => r is Some && r->0@ == change_event(k, prev@, current@, now, is_manual),
        },
{
    let kind = if prev.country_code != current.country_code {
        NetworkChangeType::CountryChanged
    } else if prev.ip != current.ip {
        NetworkChangeType::IpChanged
    } else if !opt_eq(&prev.isp, &current.isp) {
        NetworkChangeType::IspChanged
    } else {
        return None;
    };
    Some(
        NetworkChangeEvent {
            change_type: kind,
            previous: Some(prev.clone()),
            current: current.clone(),
            timestamp: now,
            is_expected: is_manual,
        },
    )
}

/// The VPN alert policy: never for a change the user asked for, at most one
/// alert per 30 seconds, and only for country or IP changes the settings
/// ask about.
pub open spec fn vpn_alert_allowed(
    change: ChangeView,
    alert_on_country_change: bool,
    alert_on_ip_change: bool,
    last_notification: Option<i64>,
    now: i64,
) -> bool {
    &&& !change.is_expected
    &&& match last_notification {
        Some(last) => now - last >= 30 * SECOND_US,
        None => true,
    }
    &&& match change.change_type {
        NetworkChangeType::CountryChanged => alert_on_country_change,
        NetworkChangeType::IpChanged => alert_on_ip_change,
        _ => false,
    }
}

/// Whether a change seen at `now` should raise a VPN alert.
pub fn should_send_vpn_notification_at(
    change: &NetworkChangeEvent,
    settings: &VpnProtectionSettings,
    last_notification: Option<i64>,
    now: i64,
) -> (r: bool)
    ensures
        r == vpn_alert_allowed(
            change@,
            settings.alert_on_country_change,
            settings.alert_on_ip_change,
            last_notification,
            now,
        ),
{
    if change.is_expected {
        return false;
    }
    if let Some(last) = last_notification {
        if (now as i128) - (last as i128) < 30 * (SECOND_US as i128) {
            return false;
        }
    }
    match change.change_type {
        NetworkChangeType::CountryChanged => settings.alert_on_country_change,
        NetworkChangeType::IpChanged => settings.alert_on_ip_change,
        NetworkChangeType::IspChanged => false,
        NetworkChangeType::Initial => false,
    }
}

/// Title and body of a VPN alert.
pub open spec fn vpn_alert_text(
    k: NetworkChangeType,
    prev_country: Seq<char>,
    cur_country: Seq<char>,
    cur_ip: Seq<char>,
) -> (Seq<char>, Seq<char>) {
    match k {
        NetworkChangeType::CountryChanged => (
            "VPN Alert: Location Changed!"@,
            prev_country + " → "@ + cur_country + ". Check your VPN connection."@,
        ),
        NetworkChangeType::IpChanged => ("Network: IP Changed"@, "Your IP address changed to "@
            + cur_ip),
        _ => ("Network Change"@, "Network configuration changed"@),
    }
}

/// A notification: title and body.
pub struct Alert {
    pub title: String,
    pub body: String,
}

/// Title and body of the alert for a change of kind `k`.
pub fn vpn_alert_message(k: NetworkChangeType, prev: &IpInfo, current: &IpInfo) -> (r: Alert)
    ensures
        (r.title@, r.body@) == vpn_alert_text(k, prev.country@, current.country@, current.ip@),
{
    match k {
        NetworkChangeType::CountryChanged => {
            let mut body = prev.country.clone();
            push_str(&mut body, " → ");
            push_str(&mut body, current.country.as_str());
            push_str(&mut body, ". Check your VPN connection.");
            Alert { title: text("VPN Alert: Location Changed!"), body }
        },
        NetworkChangeType::IpChanged => {
            let mut body = text("Your IP address changed to ");
            push_str(&mut body, current.ip.as_str());
            Alert { title: text("Network: IP Changed"), body }
        },
        _ => Alert { title: text("Network Change"), body: text("Network configuration changed") },
    }
}

/// What `str::to_uppercase` returns for a text (Unicode upper-case mapping).
pub uninterp spec fn uppercase(s: Seq<char>) -> Seq<char>;

pub open spec fn is_ascii_text(s: Seq<char>) -> bool {
    forall|i: int| 0 <= i < s.len() ==> (#[trigger] s[i] as u32) < 128
}

/// ASCII upper-casing: `a`..`z` become `A`..`Z`, everything else stays.
pub open spec fn ascii_upper(s: Seq<char>) -> Seq<char> {
    s.map_values(
        |c: char|
            if 'a' <= c && c <= 'z' {
                ((c as u32) - 32) as char
            } else {
                c
            },
    )
}

/// `str::to_uppercase`. Its result is named `uppercase`; on ASCII text it is
/// the ASCII upper-casing, as the Unicode mapping gives for those characters.
#[verifier::external_body]
fn to_upper(s: &str) -> (r: String)
    ensures
        r@ == uppercase(s@),
        is_ascii_text(s@) ==> r@ == ascii_upper(s@),
{
    s.to_uppercase()
}

/// A Unicode scalar value.
pub open spec fn is_scalar(u: u32) -> bool {
    u <= 0x10FFFF && !(0xD800 <= u && u <= 0xDFFF)
}

/// `char::from_u32`: the character with that code, if it is a scalar value.
#[verifier::external_body]
fn char_from_u32(u: u32) -> (r: Option<char>)
    ensures
        is_scalar(u) ==> r == Some(u as char),
        !is_scalar(u) ==> r is None,
{
    char::from_u32(u)
}

/// The regional-indicator symbol for a letter (the character itself when
/// that code is no character).
pub open spec fn flag_char(c: char) -> char {
    let u: int = (0x1F1E6 - ('A' as u32)) + (c as u32);
    if 0 <= u <= 0x10FFFF && is_scalar(u as u32) {
        (u as u32) as char
    } else {
        c
    }
}

/// A flag emoji for a two-byte country code ("US" gives the US flag); a globe
/// for any other length.
pub fn country_to_flag(country_code: &str) -> (r: String)
    ensures
        country_code.spec_bytes().len() != 2 ==> r@ == "🌐"@,
        country_code.spec_bytes().len() == 2 ==> r@ == uppercase(country_code@).map_values(
            |c: char| flag_char(c),
        ),
        country_code.spec_bytes().len() == 2 && is_ascii_text(country_code@) ==> r@ == ascii_upper(
            country_code@,
        ).map_values(|c: char| flag_char(c)),
{
    if country_code.as_bytes().len() != 2 {
        return text("🌐");
    }
    let upper = to_upper(country_code);
    let v = chars_of(upper.as_str());
    let mut r = String::new();
    let mut i: usize = 0;
    while i < v.len()
        invariant
            i <= v.len(),
            v@ == uppercase(country_code@),
            r@ == v@.subrange(0, i as int).map_values(|c: char| flag_char(c)),
        decreases v.len() - i,
    {
        let c = v[i];
        let u: u64 = ((0x1F1E6 - ('A' as u32)) as u64) + (c as u32 as u64);
        let f = if u <= 0x10FFFF {
            match char_from_u32(u as u32) {
                Some(f) => f,
                None => c,
            }
        } else {
            c
        };
        push_char(&mut r, f);
        proof {
            assert(v@.subrange(0, i + 1).map_values(|c: char| flag_char(c)) =~= v@.subrange(
                0,
                i as int,
            ).map_values(|c: char| flag_char(c)).push(flag_char(c)));
        }
        i += 1;
    }
    assert(v@.subrange(0, v.len() as int) =~= v@);
    r
}

} // verus!
