//! Saved data: what is kept when history is loaded (the last 24 hours),
//! the migration of pings recorded before sessions existed, and the closing
//! of sessions that were still open when the app last ran.
use vstd::prelude::*;
use crate::text::text;
use crate::types::{
    PingResult, PingView, NetworkSession, SessionView, SpeedTestResult, SpeedTestView, SiteMonitor,
    VpnProtectionSettings, ping_views, session_views, speed_test_views, opt_eq, DAY_US,
};
use crate::history::{TargetHistory, history_view, entry_view, claim_all, claim_unassigned, opt_int};
use crate::sessions::{NetworkAlias, has_session};
use crate::stats::{taken_after, pings_after};

verus! {

/// Every recorded ping, target after target.
pub open spec fn all_pings(hv: Seq<(Seq<char>, Seq<PingView>)>) -> Seq<PingView>
    decreases hv.len(),
{
    if hv.len() == 0 {
        Seq::empty()
    } else {
        all_pings(hv.drop_last()) + hv.last().1
    }
}

/// Timestamps of the pings whose session is `sid`, in order.
pub open spec fn times_with(ps: Seq<PingView>, sid: Option<Seq<char>>) -> Seq<i64>
    decreases ps.len(),
{
    if ps.len() == 0 {
        Seq::empty()
    } else {
        let r = times_with(ps.drop_last(), sid);
        if ps.last().session_id == sid {
            r.push(ps.last().timestamp)
        } else {
            r
        }
    }
}

/// Least element of a non-empty sequence.
pub open spec fn seq_min(s: Seq<i64>) -> i64
    decreases s.len(),
{
    if s.len() <= 1 {
        s[0]
    } else {
        let m = seq_min(s.drop_last());
        if s.last() < m {
            s.last()
        } else {
            m
        }
    }
}

/// Greatest element of a non-empty sequence.
pub open spec fn seq_max(s: Seq<i64>) -> i64
    decreases s.len(),
{
    if s.len() <= 1 {
        s[0]
    } else {
        let m = seq_max(s.drop_last());
        if s.last() > m {
            s.last()
        } else {
            m
        }
    }
}

proof fn lemma_all_pings_step(hv: Seq<(Seq<char>, Seq<PingView>)>, i: int)
    requires
        0 <= i < hv.len(),
    ensures
        all_pings(hv.subrange(0, i + 1)) == all_pings(hv.subrange(0, i)) + hv[i].1,
{
    assert(hv.subrange(0, i + 1).drop_last() =~= hv.subrange(0, i));
}

proof fn lemma_times_step(p: Seq<PingView>, ps: Seq<PingView>, j: int, sid: Option<Seq<char>>)
    requires
        0 <= j < ps.len(),
    ensures
        times_with(p + ps.subrange(0, j + 1), sid) == (if ps[j].session_id == sid {
            times_with(p + ps.subrange(0, j), sid).push(ps[j].timestamp)
        } else {
            times_with(p + ps.subrange(0, j), sid)
        }),
{
    let q = p + ps.subrange(0, j + 1);
    assert(q.drop_last() =~= p + ps.subrange(0, j));
    assert(q.last() == ps[j]);
}

/// Earliest and latest timestamps of the pings whose session is `sid`.
pub fn time_span(h: &Vec<TargetHistory>, sid: &Option<String>) -> (r: Option<(i64, i64)>)
    ensures
        ({
            let ts = times_with(all_pings(history_view(h@)), crate::types::opt_view(*sid));
            match r {
                None => ts.len() == 0,
                Some((lo, hi)) => ts.len() > 0 && lo == seq_min(ts) && hi == seq_max(ts),
            }
        }),
{
    let ghost hv = history_view(h@);
    let ghost sv = crate::types::opt_view(*sid);
    let mut found = false;
    let mut lo: i64 = 0;
    let mut hi: i64 = 0;
    let mut i: usize = 0;
    while i < h.len()
        invariant
            i <= h.len(),
            hv == history_view(h@),
            sv == crate::types::opt_view(*sid),
            ({
                let ts = times_with(all_pings(hv.subrange(0, i as int)), sv);
                &&& found == (ts.len() > 0)
                &&& found ==> lo == seq_min(ts) && hi == seq_max(ts)
            }),
        decreases h.len() - i,
    {
        let ghost p = all_pings(hv.subrange(0, i as int));
        let ghost ps = hv[i as int].1;
        assert(ps == ping_views(h@[i as int].pings@));
        let pings = &h[i].pings;
        let mut j: usize = 0;
        assert(p + ps.subrange(0, 0) =~= p);
        while j < pings.len()
            invariant
                j <= pings.len(),
                ps == ping_views(pings@),
                sv == crate::types::opt_view(*sid),
                ({
                    let ts = times_with(p + ps.subrange(0, j as int), sv);
                    &&& found == (ts.len() > 0)
                    &&& found ==> lo == seq_min(ts) && hi == seq_max(ts)
                }),
            decreases pings.len() - j,
        {
            proof {
                lemma_times_step(p, ps, j as int, sv);
            }
            let ghost before = times_with(p + ps.subrange(0, j as int), sv);
            assert(ps[j as int] == pings@[j as int]@);
            if opt_eq(&pings[j].session_id, sid) {
                let t = pings[j].timestamp;
                let ghost after = before.push(t);
                assert(after.drop_last() =~= before);
                assert(after == times_with(p + ps.subrange(0, j + 1), sv));
                if !found {
                    found = true;
                    lo = t;
                    hi = t;
                } else {
                    if t < lo {
                        lo = t;
                    }
                    if t > hi {
                        hi = t;
                    }
                }
            }
            j += 1;
        }
        proof {
            lemma_all_pings_step(hv, i as int);
            assert(ps.subrange(0, ps.len() as int) =~= ps);
        }
        i += 1;
    }
    assert(hv.subrange(0, hv.len() as int) =~= hv);
    if found {
        Some((lo, hi))
    } else {
        None
    }
}

/// Id, fingerprint, address and label of the session that holds the pings
/// recorded before sessions existed.
pub open spec fn legacy_id() -> Seq<char> {
    "session-legacy-unknown"@
}

pub open spec fn legacy_session(started: i64, ended: i64) -> SessionView {
    SessionView {
        id: legacy_id(),
        fingerprint: "legacy-unknown"@,
        public_ip: "Unknown"@,
        isp: None,
        label: Some("Unknown previous connection"@),
        started_at: started,
        ended_at: Some(ended),
    }
}

/// The history after the migration: pings without a session belong to the
/// legacy session (nothing changes when every ping has one).
pub open spec fn with_legacy_history(hv: Seq<(Seq<char>, Seq<PingView>)>) -> Seq<(Seq<char>, Seq<PingView>)> {
    if times_with(all_pings(hv), None).len() == 0 {
        hv
    } else {
        claim_all(hv, legacy_id(), None)
    }
}

/// The sessions after the migration: the legacy session, spanning the
/// earliest to the latest ping without a session, is added in front unless
/// one with its id exists.
pub open spec fn with_legacy_sessions(hv: Seq<(Seq<char>, Seq<PingView>)>, sv: Seq<SessionView>) -> Seq<SessionView> {
    let ts = times_with(all_pings(hv), None);
    if ts.len() == 0 || has_session(sv, legacy_id()) {
        sv
    } else {
        seq![legacy_session(seq_min(ts), seq_max(ts))] + sv
    }
}

/// Gives the pings without a session to a session "session-legacy-unknown"
/// spanning their earliest to latest timestamps, added in front of the
/// sessions unless one with that id exists. Nothing changes when every ping
/// has a session.
pub fn attach_legacy_session(history: &mut Vec<TargetHistory>, sessions: &mut Vec<NetworkSession>)
    ensures
        history_view(final(history)@) == with_legacy_history(history_view(old(history)@)),
        session_views(final(sessions)@) == with_legacy_sessions(
            history_view(old(history)@),
            session_views(old(sessions)@),
        ),
{
    let none: Option<String> = None;
    let span = time_span(history, &none);
    match span {
        None => {},
        Some((lo, hi)) => {
            let id = text("session-legacy-unknown");
            let ghost sv = session_views(sessions@);
            if !any_session_id(sessions, &id) {
                let s = NetworkSession {
                    id: text("session-legacy-unknown"),
                    fingerprint: text("legacy-unknown"),
                    public_ip: text("Unknown"),
                    isp: None,
                    label: Some(text("Unknown previous connection")),
                    started_at: lo,
                    ended_at: Some(hi),
                };
                sessions.insert(0, s);
                assert(session_views(sessions@) =~= seq![legacy_session(lo, hi)] + sv);
            }
            claim_unassigned(history, &id, None);
        },
    }
}

fn any_session_id(s: &Vec<NetworkSession>, id: &String) -> (r: bool)
    ensures
        r == has_session(session_views(s@), id@),
{
    let mut i: usize = 0;
    while i < s.len()
        invariant
            i <= s.len(),
            forall|j: int| 0 <= j < i ==> session_views(s@)[j].id != id@,
        decreases s.len() - i,
    {
        if s[i].id == *id {
            assert(session_views(s@)[i as int].id == id@);
            return true;
        }
        i += 1;
    }
    false
}

/// An open session ends at its last ping (at its start when it has none).
pub open spec fn close_at_last_ping(v: SessionView, ps: Seq<PingView>) -> SessionView {
    if v.ended_at is None {
        let ts = times_with(ps, Some(v.id));
        SessionView {
            ended_at: Some(
                if ts.len() > 0 {
                    seq_max(ts)
                } else {
                    v.started_at
                },
            ),
            ..v
        }
    } else {
        v
    }
}

/// Closes every open session at the time of its last recorded ping.
pub fn close_open_sessions_at_last_ping(
    history: &Vec<TargetHistory>,
    sessions: &mut Vec<NetworkSession>,
)
    ensures
        session_views(final(sessions)@) == session_views(old(sessions)@).map_values(
            |v: SessionView| close_at_last_ping(v, all_pings(history_view(history@))),
        ),
{
    let ghost sv = session_views(sessions@);
    let ghost ps = all_pings(history_view(history@));
    let n = sessions.len();
    let mut j: usize = 0;
    while j < n
        invariant
            n == sessions.len(),
            j <= n,
            sv.len() == n,
            ps == all_pings(history_view(history@)),
            forall|m: int|
                0 <= m < j ==> #[trigger] session_views(sessions@)[m] == close_at_last_ping(
                    sv[m],
                    ps,
                ),
            forall|m: int| j <= m < n ==> #[trigger] session_views(sessions@)[m] == sv[m],
        decreases n - j,
    {
        let ghost before = sessions@;
        assert(session_views(sessions@)[j as int] == sv[j as int]);
        if sessions[j].ended_at.is_none() {
            let sid = Some(sessions[j].id.clone());
            let end = match time_span(history, &sid) {
                Some((_, hi)) => hi,
                None => sessions[j].started_at,
            };
            sessions[j].ended_at = Some(end);
        }
        proof {
            assert(session_views(sessions@)[j as int] =~= close_at_last_ping(sv[j as int], ps));
            assert forall|m: int| 0 <= m < n && m != j implies #[trigger] session_views(
                sessions@,
            )[m] == session_views(before)[m] by {
                assert(sessions@[m] == before[m]);
            }
        }
        j += 1;
    }
    assert(session_views(sessions@) =~= sv.map_values(
        |v: SessionView| close_at_last_ping(v, ps),
    ));
}

} // verus!

verus! {

/// Everything the app persists.
pub struct SavedData {
    pub history: Vec<TargetHistory>,
    pub targets: Vec<String>,
    pub primary_target: String,
    pub notification_threshold_ms: u32,
    pub site_monitors: Vec<SiteMonitor>,
    pub vpn_settings: VpnProtectionSettings,
    pub ping_interval_secs: u32,
    pub speed_test_duration_secs: u32,
    pub network_sessions: Vec<NetworkSession>,
    pub network_aliases: Vec<NetworkAlias>,
    pub speed_tests: Vec<SpeedTestResult>,
}

/// What the app starts from after loading saved data.
pub struct LoadedData {
    pub history: Vec<TargetHistory>,
    pub targets: Vec<String>,
    pub primary_target: String,
    pub notification_threshold_ms: u32,
    pub site_monitors: Vec<SiteMonitor>,
    pub vpn_settings: VpnProtectionSettings,
    pub ping_interval_secs: u32,
    pub network_sessions: Vec<NetworkSession>,
    pub network_aliases: Vec<NetworkAlias>,
    pub speed_tests: Vec<SpeedTestResult>,
    pub speed_test_duration_secs: u32,
}

/// Each target keeps the pings taken after `cutoff`.
pub open spec fn keep_recent(hv: Seq<(Seq<char>, Seq<PingView>)>, cutoff: int) -> Seq<(Seq<char>, Seq<PingView>)> {
    hv.map_values(|e: (Seq<char>, Seq<PingView>)| (e.0, taken_after(e.1, cutoff)))
}

/// The sessions still open, or ended after `cutoff`.
pub open spec fn live_sessions(sv: Seq<SessionView>, cutoff: int) -> Seq<SessionView>
    decreases sv.len(),
{
    if sv.len() == 0 {
        sv
    } else if sv.last().ended_at is None || sv.last().ended_at->0 > cutoff {
        live_sessions(sv.drop_last(), cutoff).push(sv.last())
    } else {
        live_sessions(sv.drop_last(), cutoff)
    }
}

/// The speed tests taken after `cutoff`.
pub open spec fn tests_after(tv: Seq<SpeedTestView>, cutoff: int) -> Seq<SpeedTestView>
    decreases tv.len(),
{
    if tv.len() == 0 {
        tv
    } else if tv.last().timestamp > cutoff {
        tests_after(tv.drop_last(), cutoff).push(tv.last())
    } else {
        tests_after(tv.drop_last(), cutoff)
    }
}

fn recent_history(h: &Vec<TargetHistory>, cutoff: i128) -> (r: Vec<TargetHistory>)
    ensures
        history_view(r@) == keep_recent(history_view(h@), cutoff as int),
{
    let ghost hv = history_view(h@);
    let mut r: Vec<TargetHistory> = Vec::new();
    let mut i: usize = 0;
    while i < h.len()
        invariant
            i <= h.len(),
            hv == history_view(h@),
            r.len() == i,
            history_view(r@) == keep_recent(hv.subrange(0, i as int), cutoff as int),
        decreases h.len() - i,
    {
        let pings = pings_after(&h[i].pings, cutoff);
        let ghost before = history_view(r@);
        assert(hv[i as int] == entry_view(h@[i as int]));
        r.push(TargetHistory { target: h[i].target.clone(), pings });
        assert(history_view(r@)[i as int] == (hv[i as int].0, taken_after(hv[i as int].1, cutoff as int)));
        assert forall|k: int| 0 <= k < i + 1 implies #[trigger] history_view(r@)[k] == keep_recent(
            hv.subrange(0, i + 1),
            cutoff as int,
        )[k] by {
            if k < i {
                assert(history_view(r@)[k] == before[k]);
                assert(before[k] == keep_recent(hv.subrange(0, i as int), cutoff as int)[k]);
            }
        }
        assert(history_view(r@) =~= keep_recent(hv.subrange(0, i + 1), cutoff as int));
        i += 1;
    }
    assert(hv.subrange(0, h.len() as int) =~= hv);
    r
}

fn live_session_list(s: Vec<NetworkSession>, cutoff: i128) -> (r: Vec<NetworkSession>)
    ensures
        session_views(r@) == live_sessions(session_views(s@), cutoff as int),
{
    let ghost sv = session_views(s@);
    let mut r: Vec<NetworkSession> = Vec::new();
    let mut i: usize = 0;
    while i < s.len()
        invariant
            i <= s.len(),
            sv == session_views(s@),
            session_views(r@) == live_sessions(sv.subrange(0, i as int), cutoff as int),
        decreases s.len() - i,
    {
        assert(sv.subrange(0, i + 1).drop_last() =~= sv.subrange(0, i as int));
        assert(sv.subrange(0, i + 1).last() == s@[i as int]@);
        let keep = match s[i].ended_at {
            None => true,
            Some(e) => (e as i128) > cutoff,
        };
        if keep {
            let ghost before = session_views(r@);
            r.push(s[i].clone());
            assert(session_views(r@) =~= before.push(s@[i as int]@));
        }
        i += 1;
    }
    assert(sv.subrange(0, s.len() as int) =~= sv);
    r
}

fn tests_taken_after(t: Vec<SpeedTestResult>, cutoff: i128) -> (r: Vec<SpeedTestResult>)
    ensures
        speed_test_views(r@) == tests_after(speed_test_views(t@), cutoff as int),
{
    let ghost tv = speed_test_views(t@);
    let mut r: Vec<SpeedTestResult> = Vec::new();
    let mut i: usize = 0;
    while i < t.len()
        invariant
            i <= t.len(),
            tv == speed_test_views(t@),
            speed_test_views(r@) == tests_after(tv.subrange(0, i as int), cutoff as int),
        decreases t.len() - i,
    {
        assert(tv.subrange(0, i + 1).drop_last() =~= tv.subrange(0, i as int));
        assert(tv.subrange(0, i + 1).last() == t@[i as int]@);
        if (t[i].timestamp as i128) > cutoff {
            let ghost before = speed_test_views(r@);
            r.push(t[i].clone());
            assert(speed_test_views(r@) =~= before.push(t@[i as int]@));
        }
        i += 1;
    }
    assert(tv.subrange(0, t.len() as int) =~= tv);
    r
}

/// The history kept from saved data loaded at `now`.
pub open spec fn restored_history(data: SavedData, now: i64) -> Seq<(Seq<char>, Seq<PingView>)> {
    with_legacy_history(keep_recent(history_view(data.history@), now - DAY_US))
}

/// The sessions kept from saved data loaded at `now`.
pub open spec fn restored_sessions(data: SavedData, now: i64) -> Seq<SessionView> {
    let h1 = keep_recent(history_view(data.history@), now - DAY_US);
    let s1 = live_sessions(session_views(data.network_sessions@), now - DAY_US);
    with_legacy_sessions(h1, s1).map_values(
        |v: SessionView| close_at_last_ping(v, all_pings(with_legacy_history(h1))),
    )
}

/// `r` is what loading `data` at `now` gives: the last 24 hours of pings,
/// sessions and speed tests, the migration of pings without a session, open
/// sessions closed at their last ping, and the settings as saved.
pub open spec fn restores(r: LoadedData, data: SavedData, now: i64) -> bool {
    &&& history_view(r.history@) == restored_history(data, now)
    &&& session_views(r.network_sessions@) == restored_sessions(data, now)
    &&& speed_test_views(r.speed_tests@) == tests_after(speed_test_views(data.speed_tests@), now - DAY_US)
    &&& r.targets == data.targets
    &&& r.primary_target == data.primary_target
    &&& r.notification_threshold_ms == data.notification_threshold_ms
    &&& r.site_monitors == data.site_monitors
    &&& r.vpn_settings == data.vpn_settings
    &&& r.ping_interval_secs == data.ping_interval_secs
    &&& r.network_aliases == data.network_aliases
    &&& r.speed_test_duration_secs == data.speed_test_duration_secs
}

/// Loads saved data at `now`.
pub fn restore_saved_at(data: SavedData, now: i64) -> (r: LoadedData)
    ensures
        restores(r, data, now),
{
    let ghost d = data;
    let cutoff: i128 = (now as i128) - (DAY_US as i128);
    let SavedData {
        history,
        targets,
        primary_target,
        notification_threshold_ms,
        site_monitors,
        vpn_settings,
        ping_interval_secs,
        speed_test_duration_secs,
        network_sessions,
        network_aliases,
        speed_tests,
    } = data;
    let mut h = recent_history(&history, cutoff);
    let mut s = live_session_list(network_sessions, cutoff);
    let ghost h1 = history_view(h@);
    attach_legacy_session(&mut h, &mut s);
    close_open_sessions_at_last_ping(&h, &mut s);
    let tests = tests_taken_after(speed_tests, cutoff);
    LoadedData {
        history: h,
        targets,
        primary_target,
        notification_threshold_ms,
        site_monitors,
        vpn_settings,
        ping_interval_secs,
        network_sessions: s,
        network_aliases,
        speed_tests: tests,
        speed_test_duration_secs,
    }
}

/// The target of a file in the first format: that of its first kept ping,
/// else "1.1.1.1".
pub open spec fn legacy_target(kept: Seq<PingView>) -> Seq<char> {
    if kept.len() > 0 {
        kept[0].target
    } else {
        "1.1.1.1"@
    }
}

/// Loads a file in the first format (one list of pings) at `now`: the pings
/// of the last 24 hours under one target, migrated to the legacy session,
/// with default settings.
pub open spec fn legacy_restores(r: LoadedData, pings: Seq<PingResult>, now: i64) -> bool {
    let kept = taken_after(ping_views(pings), now - DAY_US);
    let t = legacy_target(kept);
    let hv = seq![(t, kept)];
    &&& history_view(r.history@) == with_legacy_history(hv)
    &&& session_views(r.network_sessions@) == with_legacy_sessions(hv, Seq::empty())
    &&& r.targets@.len() == 1 && r.targets@[0]@ == t
    &&& r.primary_target@ == t
}

pub fn restore_legacy_at(pings: Vec<PingResult>, now: i64) -> (r: LoadedData)
    ensures
        ({
            &&& legacy_restores(r, pings@, now)
            &&& r.notification_threshold_ms == 400
            &&& r.site_monitors@.len() == 0
            &&& r.vpn_settings.enabled && r.vpn_settings.check_interval_secs == 60
            &&& r.vpn_settings.alert_on_country_change && r.vpn_settings.alert_on_ip_change
            &&& r.vpn_settings.expected_country is None
            &&& r.ping_interval_secs == 10
            &&& r.network_aliases@.len() == 0
            &&& r.speed_tests@.len() == 0
            &&& r.speed_test_duration_secs == 7
        }),
{
    let cutoff: i128 = (now as i128) - (DAY_US as i128);
    let kept = pings_after(&pings, cutoff);
    let target = if kept.len() > 0 {
        kept[0].target.clone()
    } else {
        text("1.1.1.1")
    };
    let mut h: Vec<TargetHistory> = Vec::new();
    h.push(TargetHistory { target: target.clone(), pings: kept });
    assert(history_view(h@) =~= seq![(target@, crate::stats::taken_after(ping_views(pings@), now - DAY_US))]);
    let mut s: Vec<NetworkSession> = Vec::new();
    assert(session_views(s@) =~= Seq::<SessionView>::empty());
    attach_legacy_session(&mut h, &mut s);
    let mut targets: Vec<String> = Vec::new();
    targets.push(target.clone());
    LoadedData {
        history: h,
        targets,
        primary_target: target,
        notification_threshold_ms: 400,
        site_monitors: Vec::new(),
        vpn_settings: VpnProtectionSettings::default(),
        ping_interval_secs: 10,
        network_sessions: s,
        network_aliases: Vec::new(),
        speed_tests: Vec::new(),
        speed_test_duration_secs: crate::settings::default_speed_test_duration(),
    }
}

/// The starting point without saved data: target "1.1.1.1" with no pings,
/// default settings, no sessions.
pub fn fresh_start() -> (r: LoadedData)
    ensures
        history_view(r.history@) == seq![("1.1.1.1"@, Seq::<PingView>::empty())],
        r.targets@.len() == 1 && r.targets@[0]@ == "1.1.1.1"@,
        r.primary_target@ == "1.1.1.1"@,
        r.notification_threshold_ms == 400,
        r.site_monitors@.len() == 0,
        r.vpn_settings.enabled && r.vpn_settings.check_interval_secs == 60,
        r.vpn_settings.alert_on_country_change && r.vpn_settings.alert_on_ip_change,
        r.vpn_settings.expected_country is None,
        r.ping_interval_secs == 10,
        r.network_sessions@.len() == 0,
        r.network_aliases@.len() == 0,
        r.speed_tests@.len() == 0,
        r.speed_test_duration_secs == 7,
{
    let mut h: Vec<TargetHistory> = Vec::new();
    let none: Vec<PingResult> = Vec::new();
    assert(ping_views(none@) =~= Seq::<PingView>::empty());
    h.push(TargetHistory { target: text("1.1.1.1"), pings: none });
    assert(history_view(h@)[0] == ("1.1.1.1"@, Seq::<PingView>::empty()));
    assert(history_view(h@) =~= seq![("1.1.1.1"@, Seq::<PingView>::empty())]);
    let mut targets: Vec<String> = Vec::new();
    targets.push(text("1.1.1.1"));
    LoadedData {
        history: h,
        targets,
        primary_target: text("1.1.1.1"),
        notification_threshold_ms: 400,
        site_monitors: Vec::new(),
        vpn_settings: VpnProtectionSettings::default(),
        ping_interval_secs: 10,
        network_sessions: Vec::new(),
        network_aliases: Vec::new(),
        speed_tests: Vec::new(),
        speed_test_duration_secs: crate::settings::default_speed_test_duration(),
    }
}

} // verus!
