//! Latency statistics: sorting, nearest-rank percentiles, medians, and the
//! summaries of a time window or of a network session.
use vstd::prelude::*;
use vstd::relations::{sorted_by, total_ordering};
use vstd::seq_lib::{to_multiset_build, to_multiset_insert, lemma_sorted_unique};
use crate::text::text;
use crate::types::{
    PingResult, PingView, NetworkSession, SessionView, SpeedTestResult, SpeedTestView, ping_views,
    session_views, speed_test_views, opt_is, MINUTE_US,
};
use crate::history::{TargetHistory, pings_of, pings_for};
use crate::sessions::{has_session, session_by_id, lemma_session_first_unique, find_session};

verus! {

/// The ascending order on latencies.
pub open spec fn ascending() -> spec_fn(u64, u64) -> bool {
    |a: u64, b: u64| a <= b
}

/// The values in ascending order.
pub open spec fn sorted_values(s: Seq<u64>) -> Seq<u64> {
    s.sort_by(ascending())
}

pub proof fn lemma_ascending_total()
    ensures
        total_ordering(ascending()),
{
}

/// Sorts latencies in ascending order (insertion sort).
pub fn sort_values(v: &Vec<u64>) -> (r: Vec<u64>)
    ensures
        r@ == sorted_values(v@),
{
    let mut r: Vec<u64> = Vec::new();
    let mut i: usize = 0;
    assert(r@ =~= v@.subrange(0, 0));
    while i < v.len()
        invariant
            i <= v.len(),
            sorted_by(r@, ascending()),
            r@.to_multiset() == v@.subrange(0, i as int).to_multiset(),
        decreases v.len() - i,
    {
        let x = v[i];
        let mut pos: usize = 0;
        while pos < r.len() && r[pos] <= x
            invariant
                pos <= r.len(),
                forall|k: int| 0 <= k < pos ==> r@[k] <= x,
            decreases r.len() - pos,
        {
            pos += 1;
        }
        let ghost before = r@;
        r.insert(pos, x);
        proof {
            to_multiset_insert(before, pos as int, x);
            assert(v@.subrange(0, i + 1) =~= v@.subrange(0, i as int).push(x));
            to_multiset_build(v@.subrange(0, i as int), x);
            assert forall|a: int, b: int| 0 <= a < b < r@.len() implies #[trigger] (ascending())(
                r@[a],
                r@[b],
            ) by {
                if b < pos {
                    assert((ascending())(before[a], before[b]));
                } else if b == pos {
                    assert(r@[a] == before[a]);
                } else if a < pos {
                    assert(r@[b] == before[b - 1]);
                    if pos < before.len() {
                        assert(before[pos as int] > x);
                        assert((ascending())(before[pos as int], before[b - 1]));
                    }
                } else if a == pos {
                    assert(r@[b] == before[b - 1]);
                    assert(before[pos as int] > x);
                    if b - 1 > pos {
                        assert((ascending())(before[pos as int], before[b - 1]));
                    }
                } else {
                    assert((ascending())(before[a - 1], before[b - 1]));
                }
            }
        }
        i += 1;
    }
    proof {
        assert(v@.subrange(0, v.len() as int) =~= v@);
        lemma_ascending_total();
        v@.lemma_sort_by_ensures(ascending());
        lemma_sorted_unique(r@, v@.sort_by(ascending()), ascending());
    }
    r
}

/// Nearest-rank position for the fraction `num / den` of `len` values:
/// `ceil(len * num / den) - 1`, kept within `0 .. len - 1`.
pub open spec fn rank_index(len: nat, num: nat, den: nat) -> int {
    let rank = (len * num + den - 1) / (den as int);
    let idx = if rank >= 1 {
        rank - 1
    } else {
        0
    };
    if idx > len - 1 {
        len - 1
    } else {
        idx
    }
}

/// The nearest-rank percentile `num / den` of sorted values; none when empty.
pub open spec fn percentile_of(sorted: Seq<u64>, num: nat, den: nat) -> Option<u64> {
    if sorted.len() == 0 {
        None
    } else {
        Some(sorted[rank_index(sorted.len(), num, den)])
    }
}

/// Nearest-rank percentile `num / den` of `sorted` (the 95th is `95 / 100`).
pub fn percentile(sorted: &[u64], num: u64, den: u64) -> (r: Option<u64>)
    requires
        den > 0,
    ensures
        r == percentile_of(sorted@, num as nat, den as nat),
{
    let n = sorted.len();
    if n == 0 {
        return None;
    }
    proof {
        let a: int = n as int;
        let b: int = num as int;
        assert(a * b <= 0xffff_ffff_ffff_ffff * 0xffff_ffff_ffff_ffff) by (nonlinear_arith)
            requires
                0 <= a <= 0xffff_ffff_ffff_ffff,
                0 <= b <= 0xffff_ffff_ffff_ffff,
        ;
    }
    let prod: u128 = (n as u128) * (num as u128);
    let rank: u128 = (prod + (den as u128) - 1) / (den as u128);
    let idx0: u128 = if rank >= 1 {
        rank - 1
    } else {
        0
    };
    let idx: usize = if idx0 > (n - 1) as u128 {
        n - 1
    } else {
        idx0 as usize
    };
    assert(idx as int == rank_index(n as nat, num as nat, den as nat));
    Some(sorted[idx])
}

/// Median of sorted values: the middle one, or the mean (rounded down) of
/// the two middle ones; none when empty.
pub open spec fn median_of(sorted: Seq<u64>) -> Option<u64> {
    if sorted.len() == 0 {
        None
    } else if sorted.len() % 2 == 0 {
        let m = (sorted.len() / 2) as int;
        Some(((sorted[m - 1] + sorted[m]) / 2) as u64)
    } else {
        Some(sorted[(sorted.len() / 2) as int])
    }
}

/// Median of sorted values.
pub fn median_sorted(sorted: &[u64]) -> (r: Option<u64>)
    ensures
        r == median_of(sorted@),
{
    let n = sorted.len();
    if n == 0 {
        None
    } else if n % 2 == 0 {
        let m = n / 2;
        Some((((sorted[m - 1] as u128) + (sorted[m] as u128)) / 2) as u64)
    } else {
        Some(sorted[n / 2])
    }
}

/// Median of any latencies.
pub fn median(values: &Vec<u64>) -> (r: Option<u64>)
    ensures
        r == median_of(sorted_values(values@)),
{
    let s = sort_values(values);
    median_sorted(s.as_slice())
}

/// Sum of latencies.
pub open spec fn total(s: Seq<u64>) -> nat
    decreases s.len(),
{
    if s.len() == 0 {
        0
    } else {
        total(s.drop_last()) + (s.last() as nat)
    }
}

/// Mean of latencies, rounded down; none when empty.
pub open spec fn mean_of(s: Seq<u64>) -> Option<u64> {
    if s.len() == 0 {
        None
    } else {
        Some((total(s) / s.len()) as u64)
    }
}

/// Least latency of a non-empty sequence.
pub open spec fn least(s: Seq<u64>) -> u64
    decreases s.len(),
{
    if s.len() <= 1 {
        s[0]
    } else if s.last() < least(s.drop_last()) {
        s.last()
    } else {
        least(s.drop_last())
    }
}

/// Greatest latency of a non-empty sequence.
pub open spec fn greatest(s: Seq<u64>) -> u64
    decreases s.len(),
{
    if s.len() <= 1 {
        s[0]
    } else if s.last() > greatest(s.drop_last()) {
        s.last()
    } else {
        greatest(s.drop_last())
    }
}

proof fn lemma_total_bound(s: Seq<u64>)
    ensures
        total(s) <= s.len() * 0xffff_ffff_ffff_ffff,
    decreases s.len(),
{
    if s.len() > 0 {
        lemma_total_bound(s.drop_last());
    }
}

proof fn lemma_mean_fits(t: nat, n: nat)
    requires
        n > 0,
        t <= n * 0xffff_ffff_ffff_ffff,
    ensures
        t / n <= 0xffff_ffff_ffff_ffff,
{
    assert(t / n <= 0xffff_ffff_ffff_ffff) by (nonlinear_arith)
        requires
            n > 0,
            t <= n * 0xffff_ffff_ffff_ffff,
    ;
}

/// Mean of latencies, rounded down to a whole microsecond.
pub fn mean(values: &Vec<u64>) -> (r: Option<u64>)
    ensures
        r == mean_of(values@),
{
    let n = values.len();
    if n == 0 {
        return None;
    }
    let mut sum: u128 = 0;
    let mut i: usize = 0;
    while i < n
        invariant
            n == values.len(),
            i <= n,
            sum == total(values@.subrange(0, i as int)),
            sum <= i * 0xffff_ffff_ffff_ffff,
        decreases n - i,
    {
        assert(values@.subrange(0, i + 1).drop_last() =~= values@.subrange(0, i as int));
        sum = sum + (values[i] as u128);
        i += 1;
    }
    assert(values@.subrange(0, n as int) =~= values@);
    proof {
        lemma_mean_fits(sum as nat, n as nat);
    }
    Some((sum / (n as u128)) as u64)
}

/// Latencies of the successful pings, in order.
pub open spec fn latencies(ps: Seq<PingView>) -> Seq<u64>
    decreases ps.len(),
{
    if ps.len() == 0 {
        Seq::empty()
    } else {
        match ps.last().latency_us {
            Some(l) => latencies(ps.drop_last()).push(l),
            None => latencies(ps.drop_last()),
        }
    }
}

/// Number of pings that got no answer.
pub open spec fn failures(ps: Seq<PingView>) -> nat
    decreases ps.len(),
{
    if ps.len() == 0 {
        0
    } else {
        failures(ps.drop_last()) + if ps.last().latency_us is None {
            1nat
        } else {
            0nat
        }
    }
}

/// The pings taken after `cutoff`.
pub open spec fn taken_after(ps: Seq<PingView>, cutoff: int) -> Seq<PingView>
    decreases ps.len(),
{
    if ps.len() == 0 {
        Seq::empty()
    } else if ps.last().timestamp > cutoff {
        taken_after(ps.drop_last(), cutoff).push(ps.last())
    } else {
        taken_after(ps.drop_last(), cutoff)
    }
}

/// The pings that belong to session `id`.
pub open spec fn in_session(ps: Seq<PingView>, id: Seq<char>) -> Seq<PingView>
    decreases ps.len(),
{
    if ps.len() == 0 {
        Seq::empty()
    } else if ps.last().session_id == Some(id) {
        in_session(ps.drop_last(), id).push(ps.last())
    } else {
        in_session(ps.drop_last(), id)
    }
}

/// Latencies of the successful pings, and the number of failed ones.
pub fn latencies_of(pings: &Vec<PingResult>) -> (r: (Vec<u64>, usize))
    ensures
        r.0@ == latencies(ping_views(pings@)),
        r.1 == failures(ping_views(pings@)),
{
    let ghost ps = ping_views(pings@);
    let mut lat: Vec<u64> = Vec::new();
    let mut failed: usize = 0;
    let mut i: usize = 0;
    while i < pings.len()
        invariant
            i <= pings.len(),
            ps == ping_views(pings@),
            lat@ == latencies(ps.subrange(0, i as int)),
            failed == failures(ps.subrange(0, i as int)),
            failed <= i,
        decreases pings.len() - i,
    {
        assert(ps.subrange(0, i + 1).drop_last() =~= ps.subrange(0, i as int));
        assert(ps.subrange(0, i + 1).last() == pings@[i as int]@);
        match pings[i].latency_us {
            Some(l) => lat.push(l),
            None => failed += 1,
        }
        i += 1;
    }
    assert(ps.subrange(0, pings.len() as int) =~= ps);
    (lat, failed)
}

/// Least and greatest of non-empty latencies.
pub fn extremes(values: &Vec<u64>) -> (r: (u64, u64))
    requires
        values.len() > 0,
    ensures
        r.0 == least(values@),
        r.1 == greatest(values@),
{
    let mut lo = values[0];
    let mut hi = values[0];
    let mut i: usize = 1;
    assert(values@.subrange(0, 1).len() == 1);
    while i < values.len()
        invariant
            1 <= i <= values.len(),
            lo == least(values@.subrange(0, i as int)),
            hi == greatest(values@.subrange(0, i as int)),
        decreases values.len() - i,
    {
        assert(values@.subrange(0, i + 1).drop_last() =~= values@.subrange(0, i as int));
        let x = values[i];
        if x < lo {
            lo = x;
        }
        if x > hi {
            hi = x;
        }
        i += 1;
    }
    assert(values@.subrange(0, values.len() as int) =~= values@);
    (lo, hi)
}

/// Statistics for a target over a time window. Latencies are in
/// microseconds; the mean is rounded down; packet loss is
/// `failed_pings / total_pings`.
pub struct PingStatistics {
    pub min_us: Option<u64>,
    pub max_us: Option<u64>,
    pub avg_us: Option<u64>,
    pub total_pings: usize,
    pub failed_pings: usize,
}

/// Statistics of the pings of `target` taken after `cutoff`.
pub open spec fn window_stats(ps: Seq<PingView>, cutoff: int) -> (
    Option<u64>,
    Option<u64>,
    Option<u64>,
    nat,
    nat,
) {
    let w = taken_after(ps, cutoff);
    let lat = latencies(w);
    (
        if lat.len() == 0 { None } else { Some(least(lat)) },
        if lat.len() == 0 { None } else { Some(greatest(lat)) },
        mean_of(lat),
        w.len(),
        failures(w),
    )
}

pub(crate) fn pings_after(pings: &Vec<PingResult>, cutoff: i128) -> (r: Vec<PingResult>)
    ensures
        ping_views(r@) == taken_after(ping_views(pings@), cutoff as int),
{
    let ghost ps = ping_views(pings@);
    let mut r: Vec<PingResult> = Vec::new();
    let mut i: usize = 0;
    while i < pings.len()
        invariant
            i <= pings.len(),
            ps == ping_views(pings@),
            ping_views(r@) == taken_after(ps.subrange(0, i as int), cutoff as int),
        decreases pings.len() - i,
    {
        assert(ps.subrange(0, i + 1).drop_last() =~= ps.subrange(0, i as int));
        assert(ps.subrange(0, i + 1).last() == pings@[i as int]@);
        if (pings[i].timestamp as i128) > cutoff {
            let ghost before = ping_views(r@);
            r.push(pings[i].clone());
            assert(ping_views(r@) =~= before.push(pings@[i as int]@));
        }
        i += 1;
    }
    assert(ps.subrange(0, pings.len() as int) =~= ps);
    r
}

/// The target a command reads: the one given, else the primary target.
pub open spec fn chosen_target(target: Option<Seq<char>>, primary: Seq<char>) -> Seq<char> {
    match target {
        Some(t) => t,
        None => primary,
    }
}

/// Statistics of the pings of `target` (default: the primary target) taken
/// in the last `minutes` minutes (default 5) before `now`.
pub open spec fn stats_for(
    h: Seq<TargetHistory>,
    primary: Seq<char>,
    target: Option<Seq<char>>,
    minutes: Option<u32>,
    now: i64,
) -> (Option<u64>, Option<u64>, Option<u64>, nat, nat) {
    let m = match minutes {
        Some(m) => m as int,
        None => 5,
    };
    window_stats(pings_of(h, chosen_target(target, primary)), now - m * MINUTE_US)
}

/// The fields of a statistics record.
pub open spec fn stats_tuple(r: PingStatistics) -> (Option<u64>, Option<u64>, Option<u64>, nat, nat) {
    (r.min_us, r.max_us, r.avg_us, r.total_pings as nat, r.failed_pings as nat)
}

/// Statistics of the pings of `target` (default: the primary target) taken
/// in the last `minutes` minutes (default 5) before `now`.
pub fn get_statistics_at(
    history: &Vec<TargetHistory>,
    primary_target: &String,
    target: Option<String>,
    minutes: Option<u32>,
    now: i64,
) -> (r: PingStatistics)
    ensures
        stats_tuple(r) == stats_for(
            history@,
            primary_target@,
            crate::types::opt_view(target),
            minutes,
            now,
        ),
{
    let t = match target {
        Some(t) => t,
        None => primary_target.clone(),
    };
    let m: u32 = match minutes {
        Some(m) => m,
        None => 5,
    };
    let cutoff: i128 = (now as i128) - (m as i128) * (MINUTE_US as i128);
    let all = pings_for(history, &t);
    let window = pings_after(&all, cutoff);
    let (lat, failed) = latencies_of(&window);
    let (min_us, max_us) = if lat.len() == 0 {
        (None, None)
    } else {
        let (lo, hi) = extremes(&lat);
        (Some(lo), Some(hi))
    };
    PingStatistics {
        min_us,
        max_us,
        avg_us: mean(&lat),
        total_pings: window.len(),
        failed_pings: failed,
    }
}

/// Summary of a network session's pings to one target. Latencies are in
/// microseconds; packet loss is `failed_pings / total_pings`.
pub struct SessionDetails {
    pub session: NetworkSession,
    pub median_us: Option<u64>,
    pub average_us: Option<u64>,
    pub p95_us: Option<u64>,
    pub total_pings: usize,
    pub failed_pings: usize,
    pub latest_speed_test: Option<SpeedTestResult>,
}

/// The latest speed test taken in session `id`.
pub open spec fn last_test_in(ts: Seq<SpeedTestView>, id: Seq<char>) -> Option<SpeedTestView>
    decreases ts.len(),
{
    if ts.len() == 0 {
        None
    } else if ts.last().session_id == Some(id) {
        Some(ts.last())
    } else {
        last_test_in(ts.drop_last(), id)
    }
}

fn latest_test_in(tests: &Vec<SpeedTestResult>, id: &String) -> (r: Option<SpeedTestResult>)
    ensures
        match r {
            Some(t) => last_test_in(speed_test_views(tests@), id@) == Some(t@),
            None => last_test_in(speed_test_views(tests@), id@) is None,
        },
{
    let ghost tv = speed_test_views(tests@);
    let mut i: usize = tests.len();
    assert(tv.subrange(0, i as int) =~= tv);
    while i > 0
        invariant
            i <= tests.len(),
            tv == speed_test_views(tests@),
            last_test_in(tv, id@) == last_test_in(tv.subrange(0, i as int), id@),
        decreases i,
    {
        let ghost s = tv.subrange(0, i as int);
        assert(s.drop_last() =~= tv.subrange(0, i - 1));
        assert(s.last() == tests@[i - 1]@);
        if opt_is(&tests[i - 1].session_id, id) {
            return Some(tests[i - 1].clone());
        }
        i -= 1;
    }
    None
}

fn pings_in_session(pings: &Vec<PingResult>, id: &String) -> (r: Vec<PingResult>)
    ensures
        ping_views(r@) == in_session(ping_views(pings@), id@),
{
    let ghost ps = ping_views(pings@);
    let mut r: Vec<PingResult> = Vec::new();
    let mut i: usize = 0;
    while i < pings.len()
        invariant
            i <= pings.len(),
            ps == ping_views(pings@),
            ping_views(r@) == in_session(ps.subrange(0, i as int), id@),
        decreases pings.len() - i,
    {
        assert(ps.subrange(0, i + 1).drop_last() =~= ps.subrange(0, i as int));
        assert(ps.subrange(0, i + 1).last() == pings@[i as int]@);
        if opt_is(&pings[i].session_id, id) {
            let ghost before = ping_views(r@);
            r.push(pings[i].clone());
            assert(ping_views(r@) =~= before.push(pings@[i as int]@));
        }
        i += 1;
    }
    assert(ps.subrange(0, pings.len() as int) =~= ps);
    r
}

/// Details of session `session_id` for `target`: its pings' median, mean
/// and nearest-rank 95th percentile latency, their count and failures, and
/// the latest speed test taken in it.
pub fn get_session_details(
    sessions: &Vec<NetworkSession>,
    history: &Vec<TargetHistory>,
    speed_tests: &Vec<SpeedTestResult>,
    session_id: &String,
    target: &String,
) -> (r: Result<SessionDetails, String>)
    ensures
        ({
            let sv = session_views(sessions@);
            if !has_session(sv, session_id@) {
                r is Err && r->Err_0@ == "Network session not found"@
            } else {
                let w = in_session(pings_of(history@, target@), session_id@);
                let lat = sorted_values(latencies(w));
                &&& r is Ok
                &&& r->Ok_0.session@ == session_by_id(sv, session_id@)
                &&& r->Ok_0.median_us == median_of(lat)
                &&& r->Ok_0.average_us == mean_of(lat)
                &&& r->Ok_0.p95_us == percentile_of(lat, 95, 100)
                &&& r->Ok_0.total_pings == w.len()
                &&& r->Ok_0.failed_pings == failures(w)
                &&& match r->Ok_0.latest_speed_test {
                    Some(t) => last_test_in(speed_test_views(speed_tests@), session_id@) == Some(
                        t@,
                    ),
                    None => last_test_in(speed_test_views(speed_tests@), session_id@) is None,
                }
            }
        }),
{
    let ghost sv = session_views(sessions@);
    let i = match find_session(sessions, session_id) {
        Some(i) => i,
        None => {
            return Err(text("Network session not found"));
        },
    };
    proof {
        lemma_session_first_unique(sv, session_id@, i as int);
    }
    let session = sessions[i].clone();
    let all = pings_for(history, target);
    let matching = pings_in_session(&all, session_id);
    let (lat, failed) = latencies_of(&matching);
    let sorted = sort_values(&lat);
    let average_us = mean(&sorted);
    let median_us = median_sorted(sorted.as_slice());
    let p95_us = percentile(sorted.as_slice(), 95, 100);
    let latest = latest_test_in(speed_tests, session_id);
    Ok(
        SessionDetails {
            session,
            median_us,
            average_us,
            p95_us,
            total_pings: matching.len(),
            failed_pings: failed,
            latest_speed_test: latest,
        },
    )
}

} // verus!
