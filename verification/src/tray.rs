//! What the menu bar and its menu show: the icon for a latency, the title,
//! when the tray needs redrawing, and the texts of the menu rows.
use vstd::prelude::*;
use crate::text::{decimal, push_decimal, push_str, push_char, text};
use crate::types::{
    DisplayMode, TrayIconType, TrayState, IpInfo, IpInfoView, SiteMonitor, SiteStatus, StatusView,
    PingResult, PingView, MonitorView, monitor_views, MINUTE_US,
};
use crate::network::{country_to_flag, uppercase, flag_char};
use crate::sites::{shortened, shorten_url};
use crate::history::{TargetHistory, pings_of, pings_for, latest_ping};
use vstd::utf8::encode_utf8;
use crate::stats::{window_stats, taken_after, latencies, least, greatest, mean_of};

verus! {

/// Icon for a latency: under 100 ms happy, under 150 ms angry, slower sad,
/// no answer dead.
pub open spec fn icon_for(latency_us: Option<u64>) -> TrayIconType {
    match latency_us {
        Some(l) => if l < 100_000 {
            TrayIconType::Happy
        } else if l < 150_000 {
            TrayIconType::Angry
        } else {
            TrayIconType::Sad
        },
        None => TrayIconType::Dead,
    }
}

/// The menu bar icon for a latency.
pub fn get_icon_type_for_latency(latency_us: Option<u64>) -> (r: TrayIconType)
    ensures
        r == icon_for(latency_us),
{
    match latency_us {
        Some(l) => if l < 100_000 {
            TrayIconType::Happy
        } else if l < 150_000 {
            TrayIconType::Angry
        } else {
            TrayIconType::Sad
        },
        None => TrayIconType::Dead,
    }
}

/// A latency in whole milliseconds, rounded to nearest with ties to even
/// (as `{:.0}` formats a millisecond value).
pub open spec fn rounded_ms(us: u64) -> nat {
    let q = (us / 1000) as nat;
    let rem = us % 1000;
    if rem > 500 || (rem == 500 && q % 2 == 1) {
        q + 1
    } else {
        q
    }
}

/// "<ms>ms" for a latency.
pub open spec fn ms_text(us: u64) -> Seq<char> {
    decimal(rounded_ms(us)) + "ms"@
}

/// Appends the rounded milliseconds of a latency followed by "ms".
pub fn push_ms(s: &mut String, us: u64)
    ensures
        final(s)@ == old(s)@ + ms_text(us),
{
    let q = us / 1000;
    let rem = us % 1000;
    let ms = if rem > 500 || (rem == 500 && q % 2 == 1) {
        q + 1
    } else {
        q
    };
    push_decimal(s, ms);
    push_str(s, "ms");
    assert(old(s)@ + decimal(ms as nat) + "ms"@ =~= old(s)@ + ms_text(us));
}

/// The menu bar title for a latency: "<ms>ms", or "---" without an answer.
pub open spec fn ping_title(latency_us: Option<u64>) -> Seq<char> {
    match latency_us {
        Some(l) => ms_text(l),
        None => "---"@,
    }
}

pub fn ping_title_text(latency_us: Option<u64>) -> (r: String)
    ensures
        r@ == ping_title(latency_us),
{
    match latency_us {
        Some(l) => {
            let mut s = String::new();
            push_ms(&mut s, l);
            assert(s@ =~= ms_text(l));
            s
        },
        None => text("---"),
    }
}

/// Tray state for the latest primary-target ping: the transparent icon in
/// ping-only mode, else the latency's icon; the latency as title.
pub fn tray_state_for(mode: DisplayMode, latency_us: Option<u64>) -> (r: TrayState)
    ensures
        r.icon_type == (if mode == DisplayMode::PingOnly {
            TrayIconType::Transparent
        } else {
            icon_for(latency_us)
        }),
        r.title@ == ping_title(latency_us),
{
    let icon_type = match mode {
        DisplayMode::PingOnly => TrayIconType::Transparent,
        _ => get_icon_type_for_latency(latency_us),
    };
    TrayState { icon_type, title: ping_title_text(latency_us) }
}

/// What the tray shows for a state in a display mode: icon only (empty
/// title), icon and title, or title beside the transparent icon.
pub open spec fn shown(mode: DisplayMode, icon: TrayIconType, title: Seq<char>) -> (TrayIconType, Seq<char>) {
    match mode {
        DisplayMode::IconOnly => (icon, Seq::empty()),
        DisplayMode::IconAndPing => (icon, title),
        DisplayMode::PingOnly => (TrayIconType::Transparent, title),
    }
}

/// An icon and a title to draw in the menu bar.
pub struct TrayDraw {
    pub icon: TrayIconType,
    pub title: String,
}

fn shown_for(mode: DisplayMode, icon: TrayIconType, title: &String) -> (r: TrayDraw)
    ensures
        (r.icon, r.title@) == shown(mode, icon, title@),
{
    match mode {
        DisplayMode::IconOnly => TrayDraw { icon, title: String::new() },
        DisplayMode::IconAndPing => TrayDraw { icon, title: title.clone() },
        DisplayMode::PingOnly => TrayDraw { icon: TrayIconType::Transparent, title: title.clone() },
    }
}

/// What the tray shows right after the display mode changes, for the
/// latest primary-target latency.
pub fn tray_for_mode(mode: DisplayMode, latency_us: Option<u64>) -> (r: TrayDraw)
    ensures
        (r.icon, r.title@) == shown(mode, icon_for(latency_us), ping_title(latency_us)),
{
    let icon = get_icon_type_for_latency(latency_us);
    let title = ping_title_text(latency_us);
    shown_for(mode, icon, &title)
}

/// Redraws only on change: when `new_state` equals the last drawn state
/// nothing is drawn; otherwise returns what to draw and remembers it.
pub fn update_tray_if_changed(
    new_state: &TrayState,
    last_state: &mut Option<TrayState>,
    mode: DisplayMode,
) -> (r: Option<TrayDraw>)
    ensures
        match *old(last_state) {
            Some(last) if last.icon_type == new_state.icon_type && last.title@ == new_state.title@ => {
                &&& r is None
                &&& *final(last_state) == *old(last_state)
            },
            _ => {
                &&& r is Some
                &&& (r->0.icon, r->0.title@) == shown(mode, new_state.icon_type, new_state.title@)
                &&& (*final(last_state)) is Some
                &&& (*final(last_state))->0.icon_type == new_state.icon_type
                &&& (*final(last_state))->0.title@ == new_state.title@
            },
        },
{
    if let Some(last) = &*last_state {
        if last.same_as(new_state) {
            return None;
        }
    }
    let r = shown_for(mode, new_state.icon_type, &new_state.title);
    *last_state = Some(new_state.clone());
    Some(r)
}

/// Quality dot of the ping row.
pub open spec fn quality_dot(p: Option<PingView>) -> Seq<char> {
    match p {
        Some(v) => match v.latency_us {
            Some(l) => if l < 100_000 {
                "🟢"@
            } else if l < 150_000 {
                "🟡"@
            } else {
                "🔴"@
            },
            None => "⚫"@,
        },
        None => "⚪"@,
    }
}

/// Latency text of the ping row.
pub open spec fn ping_row_value(p: Option<PingView>) -> Seq<char> {
    match p {
        Some(v) => match v.latency_us {
            Some(l) => ms_text(l),
            None => "Timeout"@,
        },
        None => "---"@,
    }
}

/// The ping row: "<dot> Ping: <latency>".
pub open spec fn ping_row(p: Option<PingView>) -> Seq<char> {
    quality_dot(p) + " Ping: "@ + ping_row_value(p)
}

pub fn ping_row_text(p: &Option<PingResult>) -> (r: String)
    ensures
        r@ == ping_row(match *p {
            Some(x) => Some(x@),
            None => None,
        }),
{
    let mut s = match p {
        Some(x) => match x.latency_us {
            Some(l) => if l < 100_000 {
                text("🟢")
            } else if l < 150_000 {
                text("🟡")
            } else {
                text("🔴")
            },
            None => text("⚫"),
        },
        None => text("⚪"),
    };
    push_str(&mut s, " Ping: ");
    match p {
        Some(x) => match x.latency_us {
            Some(l) => push_ms(&mut s, l),
            None => push_str(&mut s, "Timeout"),
        },
        None => push_str(&mut s, "---"),
    }
    s
}

/// The target row: "   → <target>".
pub fn target_row_text(primary_target: &String) -> (r: String)
    ensures
        r@ == "   → "@ + primary_target@,
{
    let mut s = text("   → ");
    push_str(&mut s, primary_target.as_str());
    s
}

/// One statistic of the stats row: "<ms>ms" or "--".
pub open spec fn stat_text(v: Option<u64>) -> Seq<char> {
    match v {
        Some(l) => ms_text(l),
        None => "--"@,
    }
}

fn push_stat(s: &mut String, v: Option<u64>)
    ensures
        final(s)@ == old(s)@ + stat_text(v),
{
    match v {
        Some(l) => push_ms(s, l),
        None => push_str(s, "--"),
    }
}

/// The stats row: "   ↓<min> · ~<mean> · ↑<max>".
pub open spec fn stats_row(min: Option<u64>, avg: Option<u64>, max: Option<u64>) -> Seq<char> {
    "   ↓"@ + stat_text(min) + " · ~"@ + stat_text(avg) + " · ↑"@ + stat_text(max)
}

pub fn stats_row_text(min: Option<u64>, avg: Option<u64>, max: Option<u64>) -> (r: String)
    ensures
        r@ == stats_row(min, avg, max),
{
    let mut s = text("   ↓");
    push_stat(&mut s, min);
    push_str(&mut s, " · ~");
    push_stat(&mut s, avg);
    push_str(&mut s, " · ↑");
    push_stat(&mut s, max);
    s
}

/// The IP row: "📍 IP: <ip> (<flag> <code>)", or "📍 IP: Loading..." before
/// the first lookup.
pub fn ip_row_text(info: &Option<IpInfo>) -> (r: String)
    ensures
        match *info {
            Some(i) => r@ == "📍 IP: "@ + i.ip@ + " ("@ + flag_of(i.country_code@) + " "@
                + i.country_code@ + ")"@,
            None => r@ == "📍 IP: Loading..."@,
        },
{
    match info {
        Some(i) => {
            let flag = country_to_flag(i.country_code.as_str());
            let mut s = text("📍 IP: ");
            push_str(&mut s, i.ip.as_str());
            push_str(&mut s, " (");
            push_str(&mut s, flag.as_str());
            push_str(&mut s, " ");
            push_str(&mut s, i.country_code.as_str());
            push_str(&mut s, ")");
            s
        },
        None => text("📍 IP: Loading..."),
    }
}

/// The flag shown for a country code (see `country_to_flag`).
pub open spec fn flag_of(code: Seq<char>) -> Seq<char> {
    if encode_utf8(code).len() != 2 {
        "🌐"@
    } else {
        uppercase(code).map_values(|c: char| flag_char(c))
    }
}

/// Whole milliseconds of a latency, truncated and capped at `i32::MAX`
/// (as `ms as i32` converts a millisecond value).
pub open spec fn truncated_ms(us: u64) -> nat {
    let ms = (us / 1000) as nat;
    if ms > 0x7fff_ffff {
        0x7fff_ffff
    } else {
        ms
    }
}

/// A site row: "  ✅ <site> (<ms>ms)" when up, "  ❌ <site> " when down,
/// "  ⏳ <site>" before its first check.
pub open spec fn site_row(url: Seq<char>, status: Option<StatusView>) -> Seq<char> {
    match status {
        Some(st) => "  "@ + (if st.is_up {
            "✅"@
        } else {
            "❌"@
        }) + " "@ + shortened(url) + " "@ + match st.latency_us {
            Some(l) => "("@ + decimal(truncated_ms(l)) + "ms)"@,
            None => Seq::empty(),
        },
        None => "  ⏳ "@ + shortened(url),
    }
}

pub fn site_row_text(url: &String, status: Option<&SiteStatus>) -> (r: String)
    ensures
        r@ == site_row(url@, match status {
            Some(st) => Some(st@),
            None => None,
        }),
{
    match status {
        Some(st) => {
            let mut s = text("  ");
            push_str(&mut s, if st.is_up {
                "✅"
            } else {
                "❌"
            });
            push_str(&mut s, " ");
            let short = shorten_url(url.as_str());
            push_str(&mut s, short.as_str());
            push_str(&mut s, " ");
            match st.latency_us {
                Some(l) => {
                    let ms = l / 1000;
                    let capped: u64 = if ms > 0x7fff_ffff {
                        0x7fff_ffff
                    } else {
                        ms
                    };
                    push_str(&mut s, "(");
                    push_decimal(&mut s, capped);
                    push_str(&mut s, "ms)");
                },
                None => {},
            }
            assert(s@ =~= site_row(url@, Some(st@)));
            s
        },
        None => {
            let mut s = text("  ⏳ ");
            let short = shorten_url(url.as_str());
            push_str(&mut s, short.as_str());
            s
        },
    }
}

/// The monitors listed in the menu: the first five enabled ones.
pub open spec fn visible_monitors(s: Seq<MonitorView>) -> Seq<MonitorView>
    decreases s.len(),
{
    if s.len() == 0 {
        Seq::empty()
    } else {
        let v = visible_monitors(s.drop_last());
        if s.last().enabled && v.len() < 5 {
            v.push(s.last())
        } else {
            v
        }
    }
}

/// The first five enabled monitors, listed in the menu.
pub fn visible_site_monitors(monitors: &Vec<SiteMonitor>) -> (r: Vec<SiteMonitor>)
    ensures
        monitor_views(r@) == visible_monitors(monitor_views(monitors@)),
        r.len() <= 5,
{
    let ghost mv = monitor_views(monitors@);
    let mut r: Vec<SiteMonitor> = Vec::new();
    let mut i: usize = 0;
    while i < monitors.len()
        invariant
            i <= monitors.len(),
            mv == monitor_views(monitors@),
            monitor_views(r@) == visible_monitors(mv.subrange(0, i as int)),
            r.len() <= 5,
        decreases monitors.len() - i,
    {
        assert(mv.subrange(0, i + 1).drop_last() =~= mv.subrange(0, i as int));
        assert(mv.subrange(0, i + 1).last() == monitors@[i as int]@);
        if monitors[i].enabled && r.len() < 5 {
            let ghost before = monitor_views(r@);
            r.push(monitors[i].clone());
            assert(monitor_views(r@) =~= before.push(monitors@[i as int]@));
        }
        i += 1;
    }
    assert(mv.subrange(0, monitors.len() as int) =~= mv);
    r
}

/// Menu item id of a site row: "site_<url>".
pub fn site_item_id(url: &String) -> (r: String)
    ensures
        r@ == "site_"@ + url@,
{
    let mut s = text("site_");
    push_str(&mut s, url.as_str());
    s
}

/// The stats row for the pings of the five minutes before `now`.
pub open spec fn recent_stats_row(ps: Seq<PingView>, now: i64) -> Seq<char> {
    let st = window_stats(ps, now - 5 * MINUTE_US);
    stats_row(st.0, st.2, st.1)
}

/// The dynamic rows of the menu for the primary target at `now`: the ping
/// row for its latest ping, the target row, and the stats of its last five
/// minutes.
pub fn status_rows_at(history: &Vec<TargetHistory>, primary_target: &String, now: i64) -> (r: (
    String,
    String,
    String,
))
    ensures
        ({
            let ps = pings_of(history@, primary_target@);
            &&& r.0@ == ping_row(if ps.len() > 0 {
                Some(ps.last())
            } else {
                None
            })
            &&& r.1@ == "   → "@ + primary_target@
            &&& r.2@ == recent_stats_row(ps, now)
        }),
{
    let latest = latest_ping(history, primary_target);
    let ping = ping_row_text(&latest);
    let target = target_row_text(primary_target);
    let stats = crate::stats::get_statistics_at(history, primary_target, None, Some(5), now);
    let row = stats_row_text(stats.min_us, stats.avg_us, stats.max_us);
    (ping, target, row)
}

} // verus!
