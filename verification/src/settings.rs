//! User settings: monitored targets and the primary one, display mode,
//! ping interval, speed test duration, and site monitors.
use vstd::prelude::*;
use crate::text::text;
use crate::types::{
    DisplayMode, SiteMonitor, MonitorView, monitor_views, string_views, contains_string, opt_view,
};
use crate::history::{TargetHistory, has_target, pings_of, insert_empty, remove_entries, distinct_targets};
use crate::types::PingView;

verus! {

/// Default ping interval, in seconds, for saved data that does not name one.
pub fn default_ping_interval() -> (secs: u32)
    ensures
        secs == 10,
{
    10
}

/// Default speed test duration, in seconds, for saved data that does not name one.
pub fn default_speed_test_duration() -> (secs: u32)
    ensures
        secs == 7,
{
    7
}

/// Adds a target (with an empty history) unless it is already monitored.
pub fn add_target(targets: &mut Vec<String>, history: &mut Vec<TargetHistory>, target: String)
    ensures
        string_views(old(targets)@).contains(target@) ==> {
            &&& final(targets)@ == old(targets)@
            &&& final(history)@ == old(history)@
        },
        !string_views(old(targets)@).contains(target@) ==> {
            &&& string_views(final(targets)@) == string_views(old(targets)@).push(target@)
            &&& has_target(final(history)@, target@)
            &&& pings_of(final(history)@, target@) == Seq::<PingView>::empty()
            &&& forall|k: Seq<char>|
                k != target@ ==> (#[trigger] has_target(final(history)@, k) == has_target(
                    old(history)@,
                    k,
                ) && pings_of(final(history)@, k) == pings_of(old(history)@, k))
        },
        distinct_targets(old(history)@) ==> distinct_targets(final(history)@),
{
    if !contains_string(targets, &target) {
        let ghost before = string_views(targets@);
        targets.push(target.clone());
        assert(string_views(targets@) =~= before.push(target@));
        insert_empty(history, target);
    }
}

/// The targets other than `t`, in order.
pub open spec fn without(s: Seq<Seq<char>>, t: Seq<char>) -> Seq<Seq<char>>
    decreases s.len(),
{
    if s.len() == 0 {
        s
    } else if s.last() == t {
        without(s.drop_last(), t)
    } else {
        without(s.drop_last(), t).push(s.last())
    }
}

pub open spec fn last_target_error() -> Seq<char> {
    "Cannot remove the last target"@
}

/// Stops monitoring a target: refused when only one target is left;
/// otherwise the target and its history are removed, and a primary target
/// that was removed becomes the first remaining one (empty if none is left).
pub fn remove_target(
    targets: &mut Vec<String>,
    history: &mut Vec<TargetHistory>,
    primary_target: &mut String,
    target: &String,
) -> (r: Result<(), String>)
    ensures
        old(targets)@.len() <= 1 ==> {
            &&& r is Err
            &&& r->Err_0@ == last_target_error()
            &&& final(targets)@ == old(targets)@
            &&& final(history)@ == old(history)@
            &&& *final(primary_target) == *old(primary_target)
        },
        old(targets)@.len() > 1 ==> {
            &&& r is Ok
            &&& string_views(final(targets)@) == without(string_views(old(targets)@), target@)
            &&& !has_target(final(history)@, target@)
            &&& forall|k: Seq<char>|
                k != target@ ==> (#[trigger] has_target(final(history)@, k) == has_target(
                    old(history)@,
                    k,
                ) && pings_of(final(history)@, k) == pings_of(old(history)@, k))
            &&& final(primary_target)@ == if old(primary_target)@ == target@ {
                if final(targets)@.len() > 0 {
                    final(targets)@[0]@
                } else {
                    Seq::<char>::empty()
                }
            } else {
                old(primary_target)@
            }
        },
        distinct_targets(old(history)@) ==> distinct_targets(final(history)@),
{
    if targets.len() <= 1 {
        return Err(text("Cannot remove the last target"));
    }
    let ghost tv = string_views(targets@);
    let mut kept: Vec<String> = Vec::new();
    let mut i: usize = 0;
    while i < targets.len()
        invariant
            i <= targets.len(),
            tv == string_views(targets@),
            string_views(kept@) == without(tv.subrange(0, i as int), target@),
        decreases targets.len() - i,
    {
        assert(tv.subrange(0, i + 1).drop_last() =~= tv.subrange(0, i as int));
        assert(tv.subrange(0, i + 1).last() == targets@[i as int]@);
        if targets[i] != *target {
            let ghost before = string_views(kept@);
            kept.push(targets[i].clone());
            assert(string_views(kept@) =~= before.push(targets@[i as int]@));
        }
        i += 1;
    }
    assert(tv.subrange(0, targets.len() as int) =~= tv);
    *targets = kept;
    remove_entries(history, target);
    if *primary_target == *target {
        *primary_target = if targets.len() > 0 {
            targets[0].clone()
        } else {
            String::new()
        };
    }
    Ok(())
}

pub open spec fn target_not_found_error() -> Seq<char> {
    "Target not found"@
}

/// Makes a monitored target the primary one (shown in the menu bar).
pub fn set_primary_target(targets: &Vec<String>, primary_target: &mut String, target: String) -> (r:
    Result<(), String>)
    ensures
        string_views(targets@).contains(target@) ==> r is Ok && final(primary_target)@ == target@,
        !string_views(targets@).contains(target@) ==> {
            &&& r is Err
            &&& r->Err_0@ == target_not_found_error()
            &&& *final(primary_target) == *old(primary_target)
        },
{
    if !contains_string(targets, &target) {
        return Err(text("Target not found"));
    }
    *primary_target = target;
    Ok(())
}

/// The name of a display mode in settings.
pub open spec fn mode_name(m: DisplayMode) -> Seq<char> {
    match m {
        DisplayMode::IconOnly => "icon_only"@,
        DisplayMode::IconAndPing => "icon_and_ping"@,
        DisplayMode::PingOnly => "ping_only"@,
    }
}

/// The name of a display mode in settings.
pub fn display_mode_name(m: DisplayMode) -> (r: String)
    ensures
        r@ == mode_name(m),
{
    match m {
        DisplayMode::IconOnly => text("icon_only"),
        DisplayMode::IconAndPing => text("icon_and_ping"),
        DisplayMode::PingOnly => text("ping_only"),
    }
}

/// Reads a display mode by its name; other names are refused.
pub fn parse_display_mode(mode: &String) -> (r: Result<DisplayMode, String>)
    ensures
        match r {
            Ok(m) => mode_name(m) == mode@,
            Err(e) => e@ == "Invalid display mode"@ && forall|m: DisplayMode| mode_name(m)
                != mode@,
        },
{
    let icon_only = text("icon_only");
    let icon_and_ping = text("icon_and_ping");
    let ping_only = text("ping_only");
    if *mode == icon_only {
        Ok(DisplayMode::IconOnly)
    } else if *mode == icon_and_ping {
        Ok(DisplayMode::IconAndPing)
    } else if *mode == ping_only {
        Ok(DisplayMode::PingOnly)
    } else {
        assert forall|m: DisplayMode| mode_name(m) != mode@ by {
            match m {
                DisplayMode::IconOnly => {},
                DisplayMode::IconAndPing => {},
                DisplayMode::PingOnly => {},
            }
        }
        Err(text("Invalid display mode"))
    }
}

/// Settings as reported to the dashboard: primary target, alert threshold
/// and display mode name.
pub fn get_settings(primary_target: &String, threshold_ms: u32, mode: DisplayMode) -> (r: (
    String,
    u32,
    String,
))
    ensures
        r.0@ == primary_target@,
        r.1 == threshold_ms,
        r.2@ == mode_name(mode),
{
    (primary_target.clone(), threshold_ms, display_mode_name(mode))
}

/// Sets the ping interval, which must lie between 5 and 120 seconds.
pub fn set_ping_interval(current: &mut u32, interval_secs: u32) -> (r: Result<(), String>)
    ensures
        interval_secs < 5 ==> r is Err && r->Err_0@ == "Ping interval must be at least 5 seconds"@
            && *final(current) == *old(current),
        interval_secs > 120 ==> r is Err && r->Err_0@
            == "Ping interval must be at most 120 seconds"@ && *final(current) == *old(current),
        5 <= interval_secs <= 120 ==> r is Ok && *final(current) == interval_secs,
{
    if interval_secs < 5 {
        return Err(text("Ping interval must be at least 5 seconds"));
    }
    if interval_secs > 120 {
        return Err(text("Ping interval must be at most 120 seconds"));
    }
    *current = interval_secs;
    Ok(())
}

/// Sets the speed test duration, which must lie between 3 and 30 seconds.
pub fn set_speed_test_duration(current: &mut u32, duration_secs: u32) -> (r: Result<(), String>)
    ensures
        !(3 <= duration_secs <= 30) ==> r is Err && r->Err_0@
            == "Speed test duration must be between 3 and 30 seconds"@ && *final(current) == *old(
            current,
        ),
        3 <= duration_secs <= 30 ==> r is Ok && *final(current) == duration_secs,
{
    if !(3 <= duration_secs && duration_secs <= 30) {
        return Err(text("Speed test duration must be between 3 and 30 seconds"));
    }
    *current = duration_secs;
    Ok(())
}

/// Whether some monitor watches `url`.
pub open spec fn monitors_url(s: Seq<MonitorView>, url: Seq<char>) -> bool {
    exists|i: int| 0 <= i < s.len() && s[i].url == url
}

/// Starts monitoring a site (enabled), at most 10 and each URL once.
pub fn add_site_monitor(monitors: &mut Vec<SiteMonitor>, url: String, name: Option<String>) -> (r:
    Result<(), String>)
    ensures
        old(monitors)@.len() >= 10 ==> r is Err && r->Err_0@
            == "Maximum of 10 site monitors allowed"@ && final(monitors)@ == old(monitors)@,
        old(monitors)@.len() < 10 && monitors_url(monitor_views(old(monitors)@), url@) ==> r is Err
            && r->Err_0@ == "Site already being monitored"@ && final(monitors)@ == old(monitors)@,
        old(monitors)@.len() < 10 && !monitors_url(monitor_views(old(monitors)@), url@) ==> r is Ok
            && monitor_views(final(monitors)@) == monitor_views(old(monitors)@).push(
            MonitorView { url: url@, name: opt_view(name), enabled: true },
        ),
{
    if monitors.len() >= 10 {
        return Err(text("Maximum of 10 site monitors allowed"));
    }
    let ghost mv = monitor_views(monitors@);
    let mut i: usize = 0;
    while i < monitors.len()
        invariant
            i <= monitors.len(),
            mv == monitor_views(monitors@),
            monitors.len() < 10,
            forall|j: int| 0 <= j < i ==> mv[j].url != url@,
        decreases monitors.len() - i,
    {
        if monitors[i].url == url {
            assert(mv[i as int].url == url@);
            return Err(text("Site already being monitored"));
        }
        i += 1;
    }
    monitors.push(SiteMonitor { url, name, enabled: true });
    assert(monitor_views(monitors@) =~= mv.push(
        MonitorView { url: monitors@.last().url@, name: opt_view(monitors@.last().name), enabled: true },
    ));
    Ok(())
}

/// The monitors that do not watch `url`, in order.
pub open spec fn monitors_without(s: Seq<MonitorView>, url: Seq<char>) -> Seq<MonitorView>
    decreases s.len(),
{
    if s.len() == 0 {
        s
    } else if s.last().url == url {
        monitors_without(s.drop_last(), url)
    } else {
        monitors_without(s.drop_last(), url).push(s.last())
    }
}

/// Stops monitoring `url`.
pub fn remove_site_monitor(monitors: &mut Vec<SiteMonitor>, url: &String)
    ensures
        monitor_views(final(monitors)@) == monitors_without(monitor_views(old(monitors)@), url@),
{
    let ghost mv = monitor_views(monitors@);
    let mut kept: Vec<SiteMonitor> = Vec::new();
    let mut i: usize = 0;
    while i < monitors.len()
        invariant
            i <= monitors.len(),
            mv == monitor_views(monitors@),
            monitor_views(kept@) == monitors_without(mv.subrange(0, i as int), url@),
        decreases monitors.len() - i,
    {
        assert(mv.subrange(0, i + 1).drop_last() =~= mv.subrange(0, i as int));
        assert(mv.subrange(0, i + 1).last() == monitors@[i as int]@);
        if monitors[i].url != *url {
            let ghost before = monitor_views(kept@);
            kept.push(monitors[i].clone());
            assert(monitor_views(kept@) =~= before.push(monitors@[i as int]@));
        }
        i += 1;
    }
    assert(mv.subrange(0, monitors.len() as int) =~= mv);
    *monitors = kept;
}

} // verus!
