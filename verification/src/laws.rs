//! Properties that hold across calls and of every state the monitor can reach.
use vstd::prelude::*;
use vstd::relations::sorted_by;
use crate::types::{IpInfoView, PingView, SessionView, ChangeView, DisplayMode, MonitorView};
use crate::history::{claim_pings, claim_all, drop_older_prefix, recorded_pings};
use crate::sessions::{
    NetworkAlias, session_step, keeps_session, drop_expired, session_edge, end_session, alias_of,
};
use crate::network::{fingerprint_of, flag_char, ascii_upper, is_ascii_text};
use crate::restore::{
    all_pings, times_with, with_legacy_history, with_legacy_sessions, close_at_last_ping,
    keep_recent, restored_history,
};
use crate::restore::{SavedData, LoadedData, restores};
use crate::state::{AppState, saved_from};
use crate::types::{string_views, monitor_views};
use crate::sessions::alias_views;
use crate::history::history_view;
use crate::stats::taken_after;
use crate::network::vpn_alert_allowed;
use crate::sites::{was_up, kept_status, checked_status, status_of};
use crate::types::{StatusView, SiteStatus};
use crate::settings::{without, mode_name, monitors_url};
use crate::stats::{ascending, sorted_values, median_of, percentile_of, rank_index, lemma_ascending_total};
use crate::sites::shortened;
use crate::text::{before_char, strip_prefixes, has_prefix};
use crate::service::{latency_alert_due, plan_for};
use crate::state::capped_changes;
use crate::types::{DAY_US, SECOND_US, SpeedTestView, NetworkChangeType, session_views};
use crate::restore::{live_sessions, restored_sessions};
use crate::stats::last_test_in;

verus! {

proof fn lemma_drop_expired_keeps_last(s: Seq<SessionView>, cutoff: int)
    requires
        s.len() > 0,
        session_edge(s.last()) >= cutoff,
    ensures
        drop_expired(s, cutoff).len() > 0,
        drop_expired(s, cutoff).last() == s.last(),
    decreases s.len(),
{
    if session_edge(s[0]) < cutoff {
        assert(s.len() > 1);
        assert(s.drop_first().last() == s.last());
        lemma_drop_expired_keeps_last(s.drop_first(), cutoff);
    }
}

/// Opening a session makes it current and keeps it as the newest session.
pub proof fn opened_session_is_current_and_newest(
    sv0: Seq<SessionView>,
    cur0: Option<Seq<char>>,
    hv0: Seq<(Seq<char>, Seq<PingView>)>,
    aliases: Seq<NetworkAlias>,
    info: IpInfoView,
    force_new: bool,
    now: i64,
    r: Option<SessionView>,
    sv1: Seq<SessionView>,
    cur1: Option<Seq<char>>,
    hv1: Seq<(Seq<char>, Seq<PingView>)>,
)
    requires
        session_step(sv0, cur0, hv0, aliases, info, force_new, now, r, sv1, cur1, hv1),
        r is Some,
    ensures
        cur1 == Some(r->0.id),
        sv1.len() > 0,
        sv1.last() == r->0,
        r->0.fingerprint == fingerprint_of(info),
        r->0.ended_at is None,
{
    let ended = match cur0 {
        Some(c) => end_session(sv0, c, now),
        None => sv0,
    };
    assert(ended.push(r->0).last() == r->0);
    lemma_drop_expired_keeps_last(ended.push(r->0), now - DAY_US);
}

/// Ensuring the session twice for the same network changes nothing the
/// second time: the session opened (or kept) by the first call is kept.
pub proof fn ensure_session_is_idempotent(
    sv0: Seq<SessionView>,
    cur0: Option<Seq<char>>,
    hv0: Seq<(Seq<char>, Seq<PingView>)>,
    aliases: Seq<NetworkAlias>,
    info: IpInfoView,
    force_new: bool,
    now: i64,
    r1: Option<SessionView>,
    sv1: Seq<SessionView>,
    cur1: Option<Seq<char>>,
    hv1: Seq<(Seq<char>, Seq<PingView>)>,
    later: i64,
    r2: Option<SessionView>,
    sv2: Seq<SessionView>,
    cur2: Option<Seq<char>>,
    hv2: Seq<(Seq<char>, Seq<PingView>)>,
)
    requires
        session_step(sv0, cur0, hv0, aliases, info, force_new, now, r1, sv1, cur1, hv1),
        session_step(sv1, cur1, hv1, aliases, info, false, later, r2, sv2, cur2, hv2),
    ensures
        r2 is None,
        sv2 == sv1,
        cur2 == cur1,
        hv2 == hv1,
{
    let fp = fingerprint_of(info);
    if !keeps_session(sv0, cur0, fp, force_new) {
        opened_session_is_current_and_newest(
            sv0,
            cur0,
            hv0,
            aliases,
            info,
            force_new,
            now,
            r1,
            sv1,
            cur1,
            hv1,
        );
        let i = sv1.len() - 1;
        assert(sv1[i].id == cur1->0 && sv1[i].fingerprint == fp);
        assert(keeps_session(sv1, cur1, fp, false));
    } else {
        assert(keeps_session(sv1, cur1, fp, false));
    }
}

/// A session opened for a named network takes the network's name.
pub proof fn named_network_labels_new_session(
    sv0: Seq<SessionView>,
    cur0: Option<Seq<char>>,
    hv0: Seq<(Seq<char>, Seq<PingView>)>,
    aliases: Seq<NetworkAlias>,
    info: IpInfoView,
    force_new: bool,
    now: i64,
    r: Option<SessionView>,
    sv1: Seq<SessionView>,
    cur1: Option<Seq<char>>,
    hv1: Seq<(Seq<char>, Seq<PingView>)>,
    name: Seq<char>,
)
    requires
        alias_of(aliases, fingerprint_of(info)) == Some(name),
        session_step(sv0, cur0, hv0, aliases, info, force_new, now, r, sv1, cur1, hv1),
        r is Some,
    ensures
        r->0.label == Some(name),
{
}

proof fn lemma_all_pings_claim(hv: Seq<(Seq<char>, Seq<PingView>)>, id: Seq<char>, since: Option<int>)
    ensures
        all_pings(claim_all(hv, id, since)) == claim_pings(all_pings(hv), id, since),
    decreases hv.len(),
{
    if hv.len() > 0 {
        let c = claim_all(hv, id, since);
        assert(c.drop_last() =~= claim_all(hv.drop_last(), id, since));
        lemma_all_pings_claim(hv.drop_last(), id, since);
        assert(claim_pings(all_pings(hv.drop_last()) + hv.last().1, id, since) =~= claim_pings(
            all_pings(hv.drop_last()),
            id,
            since,
        ) + claim_pings(hv.last().1, id, since));
    } else {
        assert(claim_pings(Seq::<PingView>::empty(), id, since) =~= Seq::<PingView>::empty());
    }
}

proof fn lemma_claimed_have_sessions(ps: Seq<PingView>, id: Seq<char>)
    ensures
        times_with(claim_pings(ps, id, None), None).len() == 0,
    decreases ps.len(),
{
    if ps.len() > 0 {
        let c = claim_pings(ps, id, None);
        assert(c.drop_last() =~= claim_pings(ps.drop_last(), id, None));
        lemma_claimed_have_sessions(ps.drop_last(), id);
    }
}

/// After the migration of saved history, every ping has a session.
pub proof fn migration_leaves_no_ping_without_session(hv: Seq<(Seq<char>, Seq<PingView>)>)
    ensures
        times_with(all_pings(with_legacy_history(hv)), None).len() == 0,
{
    if times_with(all_pings(hv), None).len() > 0 {
        lemma_all_pings_claim(hv, crate::restore::legacy_id(), None);
        lemma_claimed_have_sessions(all_pings(hv), crate::restore::legacy_id());
    }
}

/// Migrating already migrated history changes nothing.
pub proof fn migration_is_idempotent(hv: Seq<(Seq<char>, Seq<PingView>)>, sv: Seq<SessionView>)
    ensures
        with_legacy_history(with_legacy_history(hv)) == with_legacy_history(hv),
        with_legacy_sessions(with_legacy_history(hv), sv) == sv,
{
    migration_leaves_no_ping_without_session(hv);
}

/// After saved sessions are repaired, none is left open, and a session that
/// was already closed keeps its end.
pub proof fn repaired_sessions_are_closed(sv: Seq<SessionView>, ps: Seq<PingView>)
    ensures
        forall|i: int|
            0 <= i < sv.len() ==> (#[trigger] close_at_last_ping(sv[i], ps)).ended_at is Some,
        forall|i: int|
            0 <= i < sv.len() && sv[i].ended_at is Some ==> #[trigger] close_at_last_ping(
                sv[i],
                ps,
            ) == sv[i],
{
}

proof fn lemma_without_contains(s: Seq<Seq<char>>, t: Seq<char>, x: Seq<char>)
    requires
        s.contains(x),
        x != t,
    ensures
        without(s, t).contains(x),
    decreases s.len(),
{
    if s.last() == x {
        assert(without(s, t).last() == x);
    } else {
        let i = choose|i: int| 0 <= i < s.len() && s[i] == x;
        assert(s.drop_last()[i] == x);
        lemma_without_contains(s.drop_last(), t, x);
        let w = without(s.drop_last(), t);
        let j = choose|j: int| 0 <= j < w.len() && w[j] == x;
        if s.last() != t {
            assert(w.push(s.last())[j] == x);
        }
    }
}

/// The primary target is always one of the targets: adding a target keeps
/// it, and removing one (refused when one is left) keeps or replaces it
/// with the first remaining target, provided no target is listed twice.
pub proof fn removal_keeps_primary_among_targets(
    targets: Seq<Seq<char>>,
    primary: Seq<char>,
    target: Seq<char>,
)
    requires
        targets.len() > 1,
        targets.no_duplicates(),
        targets.contains(primary),
    ensures
        ({
            let rest = without(targets, target);
            let new_primary = if primary == target {
                if rest.len() > 0 {
                    rest[0]
                } else {
                    Seq::empty()
                }
            } else {
                primary
            };
            &&& rest.len() > 0
            &&& rest.contains(new_primary)
        }),
{
    let rest = without(targets, target);
    let other = if targets[0] != target {
        targets[0]
    } else {
        targets[1]
    };
    assert(targets.contains(other));
    assert(other != target) by {
        if targets[0] == target {
            assert(targets[1] != targets[0]);
        }
    }
    lemma_without_contains(targets, target, other);
    if primary != target {
        lemma_without_contains(targets, target, primary);
    } else {
        assert(rest.contains(rest[0]));
    }
}

/// Adding a target keeps the primary target among the targets and never
/// lists a target twice.
pub proof fn adding_keeps_targets_distinct(targets: Seq<Seq<char>>, primary: Seq<char>, t: Seq<char>)
    requires
        targets.no_duplicates(),
        targets.contains(primary),
        !targets.contains(t),
    ensures
        targets.push(t).no_duplicates(),
        targets.push(t).contains(primary),
{
    let i = choose|i: int| 0 <= i < targets.len() && targets[i] == primary;
    assert(targets.push(t)[i] == primary);
    assert forall|a: int, b: int| 0 <= a < b < targets.len() + 1 implies targets.push(t)[a]
        != targets.push(t)[b] by {
        if b == targets.len() {
            assert(targets.push(t)[a] == targets[a]);
        }
    }
}

/// Each display mode has its own name, so reading back the name of a mode
/// gives that mode.
pub proof fn display_mode_names_are_distinct(a: DisplayMode, b: DisplayMode)
    ensures
        mode_name(a) == mode_name(b) ==> a == b,
{
    reveal_strlit("icon_only");
    reveal_strlit("icon_and_ping");
    reveal_strlit("ping_only");
    if a != b {
        match (a, b) {
            (DisplayMode::IconOnly, DisplayMode::IconAndPing) => {
                assert(mode_name(a).len() != mode_name(b).len());
            },
            (DisplayMode::IconAndPing, DisplayMode::IconOnly) => {
                assert(mode_name(a).len() != mode_name(b).len());
            },
            (DisplayMode::IconOnly, DisplayMode::PingOnly) => {
                assert(mode_name(a)[0] != mode_name(b)[0]);
            },
            (DisplayMode::PingOnly, DisplayMode::IconOnly) => {
                assert(mode_name(a)[0] != mode_name(b)[0]);
            },
            (DisplayMode::IconAndPing, DisplayMode::PingOnly) => {
                assert(mode_name(a)[0] != mode_name(b)[0]);
            },
            (DisplayMode::PingOnly, DisplayMode::IconAndPing) => {
                assert(mode_name(a)[0] != mode_name(b)[0]);
            },
            _ => {},
        }
    }
}

/// Site monitors never exceed ten and never watch a URL twice: adding one
/// succeeds only below ten and for a new URL.
pub proof fn monitors_stay_bounded_and_distinct(s: Seq<MonitorView>, m: MonitorView)
    requires
        s.len() < 10,
        !monitors_url(s, m.url),
        forall|i: int, j: int| 0 <= i < j < s.len() ==> s[i].url != s[j].url,
    ensures
        s.push(m).len() <= 10,
        forall|i: int, j: int| 0 <= i < j < s.len() + 1 ==> s.push(m)[i].url != s.push(m)[j].url,
{
    assert forall|i: int, j: int| 0 <= i < j < s.len() + 1 implies s.push(m)[i].url != s.push(
        m,
    )[j].url by {
        if j == s.len() {
            assert(s.push(m)[i] == s[i]);
        }
    }
}

/// The median of sorted latencies lies between the least and the greatest.
pub proof fn median_lies_between_extremes(sorted: Seq<u64>)
    requires
        sorted.len() > 0,
        sorted_by(sorted, ascending()),
    ensures
        sorted[0] <= median_of(sorted)->0 <= sorted.last(),
{
    let n = sorted.len();
    let m = (n / 2) as int;
    if n % 2 == 0 {
        assert((ascending())(sorted[0], sorted[m - 1]));
        assert((ascending())(sorted[m], sorted[n - 1]));
        assert((ascending())(sorted[m - 1], sorted[m]));
    } else {
        if m > 0 {
            assert((ascending())(sorted[0], sorted[m]));
        }
        if m < n - 1 {
            assert((ascending())(sorted[m], sorted[n - 1]));
        }
    }
}

/// A percentile is one of the values; the 100th is the greatest of sorted
/// values.
pub proof fn percentile_is_a_value(sorted: Seq<u64>, num: nat, den: nat)
    requires
        sorted.len() > 0,
        den > 0,
    ensures
        sorted.contains(percentile_of(sorted, num, den)->0),
        percentile_of(sorted, den, den) == Some(sorted.last()),
{
    let i = rank_index(sorted.len(), num, den);
    assert(0 <= i < sorted.len());
    let n = sorted.len();
    assert((n * den + den - 1) / (den as int) == n) by (nonlinear_arith)
        requires
            den > 0,
    {
        assert(n * den + den - 1 == n * den + (den - 1));
    }
}

/// Latencies come out sorted: `sorted_values` is in ascending order.
pub proof fn sorted_values_are_ascending(s: Seq<u64>)
    ensures
        sorted_by(sorted_values(s), ascending()),
        sorted_values(s).to_multiset() == s.to_multiset(),
{
    s.lemma_sort_by_ensures(ascending());
}

/// Recording keeps history within 24 hours: the oldest ping left is not
/// older than the cutoff.
pub proof fn retention_drops_old_front(s: Seq<PingView>, cutoff: int)
    ensures
        drop_older_prefix(s, cutoff).len() > 0 ==> drop_older_prefix(s, cutoff)[0].timestamp
            >= cutoff,
    decreases s.len(),
{
    if s.len() > 0 && s[0].timestamp < cutoff {
        retention_drops_old_front(s.drop_first(), cutoff);
    }
}

/// High-latency alerts are at least 61 seconds apart: right after one at
/// `t1`, none is due before `t1` plus 61 seconds.
pub proof fn latency_alerts_are_spaced(latency_us: u64, threshold_ms: u32, t1: i64, t2: i64)
    requires
        t2 - t1 < 61 * SECOND_US,
    ensures
        !latency_alert_due(latency_us, threshold_ms, Some(t1), t2),
{
}

/// The change history never holds more than 100 changes.
pub proof fn change_history_is_capped(h: Seq<ChangeView>, e: ChangeView)
    requires
        h.len() <= 100,
    ensures
        capped_changes(h, e).len() <= 100,
        capped_changes(h, e).last() == e,
{
}

proof fn lemma_taken_after_is_recent(ps: Seq<PingView>, cutoff: int)
    ensures
        forall|i: int|
            0 <= i < taken_after(ps, cutoff).len() ==> #[trigger] taken_after(ps, cutoff)[i].timestamp
                > cutoff,
    decreases ps.len(),
{
    if ps.len() > 0 {
        lemma_taken_after_is_recent(ps.drop_last(), cutoff);
    }
}

/// Loading keeps at most 24 hours of history: every ping of a loaded
/// history was taken after the load time minus 24 hours.
pub proof fn loaded_history_is_within_a_day(data: SavedData, now: i64)
    ensures
        forall|t: int, i: int|
            0 <= t < restored_history(data, now).len() && 0 <= i < restored_history(
                data,
                now,
            )[t].1.len() ==> #[trigger] restored_history(data, now)[t].1[i].timestamp > now
                - DAY_US,
{
    let hv = history_view(data.history@);
    let cutoff = now - DAY_US;
    let kept = keep_recent(hv, cutoff);
    assert forall|t: int, i: int|
        0 <= t < restored_history(data, now).len() && 0 <= i < restored_history(
            data,
            now,
        )[t].1.len() implies #[trigger] restored_history(data, now)[t].1[i].timestamp > cutoff by {
        lemma_taken_after_is_recent(hv[t].1, cutoff);
        assert(kept[t].1 == taken_after(hv[t].1, cutoff));
        assert(kept[t].1[i].timestamp > cutoff);
        if times_with(all_pings(kept), None).len() > 0 {
            let c = claim_all(kept, crate::restore::legacy_id(), None);
            assert(c[t].1[i] == crate::history::claim(kept[t].1[i], crate::restore::legacy_id(), None));
        }
    }
}

/// VPN alerts are at least 30 seconds apart: within 30 seconds of the last
/// one, no change raises another.
pub proof fn vpn_alerts_are_spaced(
    change: ChangeView,
    on_country: bool,
    on_ip: bool,
    t1: i64,
    t2: i64,
)
    requires
        t2 - t1 < 30 * SECOND_US,
    ensures
        !vpn_alert_allowed(change, on_country, on_ip, Some(t1), t2),
{
}

/// A site whose latest check failed counts as down, so a further failed
/// check raises no second alert.
pub proof fn down_sites_alert_once(
    s: Seq<SiteStatus>,
    url: Seq<char>,
    prev: Option<StatusView>,
    now: i64,
)
    requires
        status_of(s, url) == Some(kept_status(prev, checked_status(url, None, now))),
    ensures
        !was_up(s, url),
{
}

/// What is saved comes back when loaded: the targets, the primary target,
/// the alert threshold, the intervals, the VPN settings, the site monitors
/// and the network names, and of the history the pings of the last 24
/// hours (those without a session given to the legacy session).
pub proof fn saving_then_loading_keeps_settings(s: AppState, d: SavedData, r: LoadedData, now: i64)
    requires
        saved_from(d, s),
        restores(r, d, now),
    ensures
        string_views(r.targets@) == string_views(s.targets@),
        r.primary_target@ == s.primary_target@,
        r.notification_threshold_ms == s.notification_threshold_ms,
        r.ping_interval_secs == s.ping_interval_secs,
        r.speed_test_duration_secs == s.speed_test_duration_secs,
        r.vpn_settings.enabled == s.vpn_settings.enabled,
        r.vpn_settings.check_interval_secs == s.vpn_settings.check_interval_secs,
        r.vpn_settings.alert_on_country_change == s.vpn_settings.alert_on_country_change,
        r.vpn_settings.alert_on_ip_change == s.vpn_settings.alert_on_ip_change,
        monitor_views(r.site_monitors@) == monitor_views(s.site_monitors@),
        alias_views(r.network_aliases@) == alias_views(s.network_aliases@),
        history_view(r.history@) == with_legacy_history(
            keep_recent(history_view(s.ping_history@), now - DAY_US),
        ),
{
}

proof fn lemma_drop_keeps_last(s: Seq<PingView>, cutoff: int)
    requires
        s.len() > 0,
        s.last().timestamp >= cutoff,
    ensures
        drop_older_prefix(s, cutoff).len() > 0,
        drop_older_prefix(s, cutoff).last() == s.last(),
    decreases s.len(),
{
    if s[0].timestamp < cutoff {
        assert(s.len() > 1);
        assert(s.drop_first().last() == s.last());
        lemma_drop_keeps_last(s.drop_first(), cutoff);
    }
}

/// The ping just recorded is the target's latest ping (the one the menu
/// bar and `get_current_ping` show), unless it is itself older than the
/// retention window.
pub proof fn recorded_ping_is_latest(ps: Seq<PingView>, p: PingView, cutoff: int)
    requires
        p.timestamp >= cutoff,
    ensures
        recorded_pings(ps, p, cutoff).len() > 0,
        recorded_pings(ps, p, cutoff).last() == p,
{
    assert(ps.push(p).last() == p);
    lemma_drop_keeps_last(ps.push(p), cutoff);
}

/// A capital letter becomes its regional-indicator symbol: 'A' gives
/// U+1F1E6 and 'Z' gives U+1F1FF, so a two-letter code becomes its flag.
pub proof fn capitals_become_regional_indicators(c: char)
    requires
        'A' <= c <= 'Z',
    ensures
        flag_char(c) as u32 == 0x1F1E6 + ((c as u32) - ('A' as u32)),
        0x1F1E6 <= flag_char(c) as u32 <= 0x1F1FF,
{
}

/// Upper-casing ASCII text twice changes nothing more, so a code and its
/// upper-cased form give the same flag.
pub proof fn flags_ignore_case(s: Seq<char>)
    requires
        is_ascii_text(s),
    ensures
        is_ascii_text(ascii_upper(s)),
        ascii_upper(ascii_upper(s)) == ascii_upper(s),
        ascii_upper(ascii_upper(s)).map_values(|c: char| flag_char(c)) == ascii_upper(s).map_values(
            |c: char| flag_char(c),
        ),
{
    assert(ascii_upper(ascii_upper(s)) =~= ascii_upper(s));
}

/// The first tick of the background service looks up the public IP,
/// whatever the ping interval.
pub proof fn first_tick_looks_up_the_ip(last_interval_secs: u64)
    ensures
        plan_for(1, last_interval_secs).check_ip,
{
}

/// The order of the latencies does not matter: values with the same
/// elements (a reordering) sort alike, and so have the same median and the
/// same percentiles.
pub proof fn reordering_keeps_sorted_values(a: Seq<u64>, b: Seq<u64>)
    requires
        a.to_multiset() == b.to_multiset(),
    ensures
        sorted_values(a) == sorted_values(b),
        median_of(sorted_values(a)) == median_of(sorted_values(b)),
{
    lemma_ascending_total();
    a.lemma_sort_by_ensures(ascending());
    b.lemma_sort_by_ensures(ascending());
    vstd::seq_lib::lemma_sorted_unique(sorted_values(a), sorted_values(b), ascending());
}

proof fn lemma_before_char_prefix_of(s: Seq<char>, c: char)
    ensures
        before_char(s, c).len() <= s.len(),
        before_char(s, c) == s.subrange(0, before_char(s, c).len() as int),
        forall|i: int| 0 <= i < before_char(s, c).len() ==> before_char(s, c)[i] != c,
    decreases s.len(),
{
    if s.len() > 0 && s[0] != c {
        lemma_before_char_prefix_of(s.drop_first(), c);
        let t = before_char(s.drop_first(), c);
        assert(before_char(s, c) =~= seq![s[0]] + t);
        assert(s.subrange(0, t.len() as int + 1) =~= seq![s[0]] + s.drop_first().subrange(0, t.len() as int));
    } else if s.len() > 0 {
        assert(before_char(s, c) =~= s.subrange(0, 0));
    } else {
        assert(before_char(s, c) =~= s.subrange(0, 0));
    }
}

proof fn lemma_strip_prefixes_suffix(s: Seq<char>, p: Seq<char>)
    ensures
        strip_prefixes(s, p).len() <= s.len(),
        strip_prefixes(s, p) == s.subrange(s.len() - strip_prefixes(s, p).len(), s.len() as int),
    decreases s.len(),
{
    if p.len() > 0 && has_prefix(s, p) {
        let t = s.subrange(p.len() as int, s.len() as int);
        lemma_strip_prefixes_suffix(t, p);
        let r = strip_prefixes(t, p);
        assert(t.subrange(t.len() - r.len(), t.len() as int) =~= s.subrange(
            s.len() - r.len(),
            s.len() as int,
        ));
    } else {
        assert(s.subrange(0, s.len() as int) =~= s);
    }
}

proof fn lemma_strip_without_slash(s: Seq<char>, p: Seq<char>)
    requires
        forall|i: int| 0 <= i < s.len() ==> s[i] != '/',
        p.len() > 0,
        exists|i: int| 0 <= i < p.len() && p[i] == '/',
    ensures
        strip_prefixes(s, p) == s,
{
    if has_prefix(s, p) {
        let i = choose|i: int| 0 <= i < p.len() && p[i] == '/';
        assert(s.subrange(0, p.len() as int)[i] == s[i]);
    }
}

proof fn lemma_before_char_without(s: Seq<char>, c: char)
    requires
        forall|i: int| 0 <= i < s.len() ==> s[i] != c,
    ensures
        before_char(s, c) == s,
    decreases s.len(),
{
    if s.len() > 0 {
        lemma_before_char_without(s.drop_first(), c);
        assert(seq![s[0]] + s.drop_first() =~= s);
    }
}

/// A shortened URL holds no '/', is a piece of the URL it came from, and
/// shortening it again changes nothing.
pub proof fn shortening_is_a_slash_free_piece_and_settles(url: Seq<char>)
    ensures
        forall|i: int| 0 <= i < shortened(url).len() ==> shortened(url)[i] != '/',
        exists|k: int|
            0 <= k && k + shortened(url).len() <= url.len() && #[trigger] url.subrange(
                k,
                k + shortened(url).len(),
            ) == shortened(url),
        shortened(shortened(url)) == shortened(url),
{
    reveal_strlit("https://");
    reveal_strlit("http://");
    let a = strip_prefixes(url, "https://"@);
    let b = strip_prefixes(a, "http://"@);
    let r = before_char(b, '/');
    lemma_strip_prefixes_suffix(url, "https://"@);
    lemma_strip_prefixes_suffix(a, "http://"@);
    lemma_before_char_prefix_of(b, '/');
    let k = url.len() - b.len();
    assert(a == url.subrange(url.len() - a.len(), url.len() as int));
    assert(b == a.subrange(a.len() - b.len(), a.len() as int));
    assert(b =~= url.subrange(k, url.len() as int));
    assert(r =~= b.subrange(0, r.len() as int));
    assert(url.subrange(k, k + r.len()) =~= r);
    assert(shortened(url) == r);
    assert(url.subrange(k, k + shortened(url).len()) == shortened(url));
    assert("https://"@[6] == '/');
    assert("http://"@[5] == '/');
    lemma_strip_without_slash(r, "https://"@);
    lemma_strip_without_slash(r, "http://"@);
    lemma_before_char_without(r, '/');
}

/// After a session step for `info` (forced or not), the current session is
/// one whose fingerprint is `info`'s: a session is kept only when the
/// session with the current id already describes this network; otherwise
/// the newly opened one becomes current. Going home -> cafe -> home thus
/// opens a new home session rather than staying in the cafe's.
pub proof fn current_session_describes_the_network(
    sv0: Seq<SessionView>,
    cur0: Option<Seq<char>>,
    hv0: Seq<(Seq<char>, Seq<PingView>)>,
    aliases: Seq<NetworkAlias>,
    info: IpInfoView,
    force_new: bool,
    now: i64,
    r: Option<SessionView>,
    sv1: Seq<SessionView>,
    cur1: Option<Seq<char>>,
    hv1: Seq<(Seq<char>, Seq<PingView>)>,
)
    requires
        session_step(sv0, cur0, hv0, aliases, info, force_new, now, r, sv1, cur1, hv1),
    ensures
        cur1 is Some,
        exists|i: int|
            0 <= i < sv1.len() && sv1[i].id == cur1->0 && #[trigger] sv1[i].fingerprint
                == fingerprint_of(info),
        r is None ==> cur1 == cur0 && sv1 == sv0,
{
    if r is Some {
        opened_session_is_current_and_newest(
            sv0,
            cur0,
            hv0,
            aliases,
            info,
            force_new,
            now,
            r,
            sv1,
            cur1,
            hv1,
        );
        let i = sv1.len() - 1;
        assert(sv1[i].id == cur1->0 && sv1[i].fingerprint == fingerprint_of(info));
    }
}

proof fn lemma_live_sessions_keep(sv: Seq<SessionView>, cutoff: int, i: int)
    requires
        0 <= i < sv.len(),
        sv[i].ended_at is None || sv[i].ended_at->0 > cutoff,
    ensures
        exists|j: int| 0 <= j < live_sessions(sv, cutoff).len() && #[trigger] live_sessions(sv, cutoff)[j] == sv[i],
    decreases sv.len(),
{
    let l = live_sessions(sv, cutoff);
    if i == sv.len() - 1 {
        assert(l[l.len() - 1] == sv[i]);
    } else {
        lemma_live_sessions_keep(sv.drop_last(), cutoff, i);
        let p = live_sessions(sv.drop_last(), cutoff);
        let j = choose|j: int| 0 <= j < p.len() && #[trigger] p[j] == sv.drop_last()[i];
        if sv.last().ended_at is None || sv.last().ended_at->0 > cutoff {
            assert(l[j] == p[j]);
        }
    }
}

/// Loading keeps every saved session that is still open or ended within
/// the last 24 hours: its id is among the loaded sessions.
pub proof fn loading_keeps_recent_sessions(r: LoadedData, data: SavedData, now: i64, i: int)
    requires
        restores(r, data, now),
        0 <= i < data.network_sessions@.len(),
        data.network_sessions@[i].ended_at is None || data.network_sessions@[i].ended_at->0 > now
            - DAY_US,
    ensures
        exists|j: int|
            0 <= j < r.network_sessions@.len() && #[trigger] r.network_sessions@[j].id@
                == data.network_sessions@[i].id@,
{
    let h1 = keep_recent(history_view(data.history@), now - DAY_US);
    let sv = session_views(data.network_sessions@);
    let s1 = live_sessions(sv, now - DAY_US);
    let s2 = with_legacy_sessions(h1, s1);
    let out = session_views(r.network_sessions@);
    assert(sv[i] == data.network_sessions@[i]@);
    lemma_live_sessions_keep(sv, now - DAY_US, i);
    let j = choose|j: int| 0 <= j < s1.len() && #[trigger] s1[j] == sv[i];
    let ts = times_with(all_pings(h1), None);
    let k = if ts.len() == 0 || crate::sessions::has_session(s1, crate::restore::legacy_id()) {
        j
    } else {
        j + 1
    };
    assert(k < s2.len());
    assert(s2[k] == s1[j]);
    assert(out == restored_sessions(data, now));
    assert(out.len() == s2.len());
    assert(out.len() == r.network_sessions@.len());
    assert(out[k] == close_at_last_ping(s2[k], all_pings(with_legacy_history(h1))));
    assert(r.network_sessions@[k]@ == out[k]);
    assert(r.network_sessions@[k].id@ == data.network_sessions@[i].id@);
}

/// The speed test shown with a session's details was taken in that session,
/// and no later test in the list was; when none is shown, no test was
/// taken in it.
pub proof fn session_speed_test_belongs_to_the_session(ts: Seq<SpeedTestView>, id: Seq<char>)
    ensures
        match last_test_in(ts, id) {
            Some(t) => {
                &&& t.session_id == Some(id)
                &&& exists|k: int|
                    0 <= k < ts.len() && ts[k] == t && forall|m: int|
                        k < m < ts.len() ==> (#[trigger] ts[m]).session_id != Some(id)
            },
            None => forall|m: int| 0 <= m < ts.len() ==> (#[trigger] ts[m]).session_id != Some(id),
        },
    decreases ts.len(),
{
    if ts.len() > 0 {
        session_speed_test_belongs_to_the_session(ts.drop_last(), id);
        let p = ts.drop_last();
        if ts.last().session_id != Some(id) {
            match last_test_in(p, id) {
                Some(t) => {
                    let k = choose|k: int|
                        0 <= k < p.len() && p[k] == t && forall|m: int|
                            k < m < p.len() ==> (#[trigger] p[m]).session_id != Some(id);
                    assert(ts[k] == t);
                    assert forall|m: int| k < m < ts.len() implies (#[trigger] ts[m]).session_id
                        != Some(id) by {
                        if m < ts.len() - 1 {
                            assert(ts[m] == p[m]);
                        }
                    }
                },
                None => {
                    assert forall|m: int| 0 <= m < ts.len() implies (#[trigger] ts[m]).session_id
                        != Some(id) by {
                        if m < ts.len() - 1 {
                            assert(ts[m] == p[m]);
                        }
                    }
                },
            }
        } else {
            assert(ts[ts.len() - 1] == ts.last());
        }
    }
}

/// Each kind of VPN alert follows its own setting: with IP-change alerts off
/// an IP change never alerts, with country-change alerts off a country
/// change never alerts, whatever the other setting; an ISP-only change
/// never alerts; and an unexpected change the settings ask for, with no
/// alert before, does alert.
pub proof fn vpn_alerts_follow_their_settings(
    change: ChangeView,
    on_country: bool,
    on_ip: bool,
    last: Option<i64>,
    now: i64,
)
    ensures
        change.change_type == NetworkChangeType::IpChanged && !on_ip ==> !vpn_alert_allowed(
            change,
            on_country,
            on_ip,
            last,
            now,
        ),
        change.change_type == NetworkChangeType::CountryChanged && !on_country ==> !vpn_alert_allowed(
            change,
            on_country,
            on_ip,
            last,
            now,
        ),
        change.change_type == NetworkChangeType::IspChanged ==> !vpn_alert_allowed(
            change,
            on_country,
            on_ip,
            last,
            now,
        ),
        change.is_expected ==> !vpn_alert_allowed(change, on_country, on_ip, last, now),
        !change.is_expected && last is None && (change.change_type == NetworkChangeType::IpChanged
            && on_ip || change.change_type == NetworkChangeType::CountryChanged && on_country)
            ==> vpn_alert_allowed(change, on_country, on_ip, last, now),
{
}

/// A check that finds a site up keeps the time it was last down from its
/// previous status, whether that status was up or down (up -> up keeps
/// `Some(x)`); a check that finds it down records the check's time as its
/// last outage. Either way the check's time and result are recorded.
pub proof fn site_checks_keep_the_last_outage(
    prev: StatusView,
    url: Seq<char>,
    outcome: Option<u64>,
    now: i64,
)
    ensures
        outcome is Some ==> kept_status(Some(prev), checked_status(url, outcome, now)).last_down
            == prev.last_down,
        outcome is Some ==> kept_status(None, checked_status(url, outcome, now)).last_down is None,
        outcome is None ==> kept_status(Some(prev), checked_status(url, outcome, now)).last_down
            == Some(now),
        kept_status(Some(prev), checked_status(url, outcome, now)).is_up == outcome is Some,
        kept_status(Some(prev), checked_status(url, outcome, now)).last_check == now,
        kept_status(Some(prev), checked_status(url, outcome, now)).latency_us == outcome,
        kept_status(Some(prev), checked_status(url, outcome, now)).url == url,
{
}

} // verus!
