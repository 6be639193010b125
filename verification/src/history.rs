//! Per-target ping history: lookup, insertion, removal, recording with a
//! 24-hour retention window, and the filters applied when saved data is loaded.
use vstd::prelude::*;
use crate::types::{PingResult, PingView, ping_views, DAY_US, opt_view};

verus! {

/// The pings recorded for one target.
pub struct TargetHistory {
    pub target: String,
    pub pings: Vec<PingResult>,
}

/// `i` is the first entry of `h` for target `k`.
pub open spec fn is_first(h: Seq<TargetHistory>, k: Seq<char>, i: int) -> bool {
    &&& 0 <= i < h.len()
    &&& h[i].target@ == k
    &&& forall|j: int| 0 <= j < i ==> h[j].target@ != k
}

/// Whether `h` has an entry for target `k`.
pub open spec fn has_target(h: Seq<TargetHistory>, k: Seq<char>) -> bool {
    exists|i: int| 0 <= i < h.len() && h[i].target@ == k
}

/// The pings recorded for target `k` (none when there is no entry for it).
pub open spec fn pings_of(h: Seq<TargetHistory>, k: Seq<char>) -> Seq<PingView> {
    if has_target(h, k) {
        ping_views(h[choose|i: int| is_first(h, k, i)].pings@)
    } else {
        Seq::empty()
    }
}

/// No target has two entries.
pub open spec fn distinct_targets(h: Seq<TargetHistory>) -> bool {
    forall|i: int, j: int| 0 <= i < j < h.len() ==> h[i].target@ != h[j].target@
}

pub proof fn lemma_first_exists(h: Seq<TargetHistory>, k: Seq<char>)
    requires
        has_target(h, k),
    ensures
        exists|i: int| is_first(h, k, i),
    decreases h.len(),
{
    if h[0].target@ == k {
        assert(is_first(h, k, 0));
    } else {
        let t = h.drop_first();
        let w = choose|i: int| 0 <= i < h.len() && h[i].target@ == k;
        assert(t[w - 1].target@ == k);
        lemma_first_exists(t, k);
        let i = choose|i: int| is_first(t, k, i);
        assert forall|j: int| 0 <= j < i + 1 implies h[j].target@ != k by {
            if j > 0 {
                assert(h[j] == t[j - 1]);
            }
        }
        assert(is_first(h, k, i + 1));
    }
}

pub proof fn lemma_pings_of_at(h: Seq<TargetHistory>, k: Seq<char>, i: int)
    requires
        is_first(h, k, i),
    ensures
        has_target(h, k),
        pings_of(h, k) == ping_views(h[i].pings@),
{
    assert(has_target(h, k));
    let j = choose|j: int| is_first(h, k, j);
    if j < i {
        assert(h[j].target@ != k);
    } else if i < j {
        assert(h[i].target@ != k);
    }
}

pub proof fn lemma_pings_of_none(h: Seq<TargetHistory>, k: Seq<char>)
    requires
        forall|i: int| 0 <= i < h.len() ==> h[i].target@ != k,
    ensures
        !has_target(h, k),
        pings_of(h, k) == Seq::<PingView>::empty(),
{
}

/// Two histories agree on target `k` when their entries for `k` sit at the
/// same places and hold the same pings.
pub proof fn lemma_pings_of_frame(a: Seq<TargetHistory>, b: Seq<TargetHistory>, k: Seq<char>)
    requires
        a.len() <= b.len(),
        forall|j: int| 0 <= j < a.len() ==> ((#[trigger] a[j].target@ == k) == (b[j].target@ == k)),
        forall|j: int|
            0 <= j < a.len() && #[trigger] a[j].target@ == k ==> ping_views(a[j].pings@)
                == ping_views(b[j].pings@),
        forall|j: int| a.len() <= j < b.len() ==> #[trigger] b[j].target@ != k,
    ensures
        has_target(a, k) == has_target(b, k),
        pings_of(a, k) == pings_of(b, k),
{
    if has_target(a, k) {
        lemma_first_exists(a, k);
        let i = choose|i: int| is_first(a, k, i);
        assert forall|j: int| 0 <= j < i implies b[j].target@ != k by {
            assert(a[j].target@ != k);
        }
        assert(is_first(b, k, i));
        lemma_pings_of_at(a, k, i);
        lemma_pings_of_at(b, k, i);
    } else {
        assert forall|j: int| 0 <= j < b.len() implies b[j].target@ != k by {
            if j < a.len() {
                assert(a[j].target@ != k);
            }
        }
        lemma_pings_of_none(b, k);
    }
}

/// Index of the first entry for `target`, if any.
pub fn find_target(h: &Vec<TargetHistory>, target: &String) -> (r: Option<usize>)
    ensures
        match r {
            Some(i) => is_first(h@, target@, i as int),
            None => forall|i: int| 0 <= i < h.len() ==> h@[i].target@ != target@,
        },
{
    let mut i: usize = 0;
    while i < h.len()
        invariant
            i <= h.len(),
            forall|j: int| 0 <= j < i ==> h@[j].target@ != target@,
        decreases h.len() - i,
    {
        if h[i].target == *target {
            return Some(i);
        }
        i += 1;
    }
    None
}

fn copy_pings(v: &Vec<PingResult>) -> (r: Vec<PingResult>)
    ensures
        ping_views(r@) == ping_views(v@),
{
    let mut r: Vec<PingResult> = Vec::new();
    let mut i: usize = 0;
    while i < v.len()
        invariant
            i <= v.len(),
            ping_views(r@) == ping_views(v@.subrange(0, i as int)),
        decreases v.len() - i,
    {
        r.push(v[i].clone());
        proof {
            assert(ping_views(v@.subrange(0, i + 1)) =~= ping_views(v@.subrange(0, i as int)).push(v@[i as int]@));
        }
        i += 1;
        assert(ping_views(r@) =~= ping_views(v@.subrange(0, i as int)));
    }
    assert(v@.subrange(0, v.len() as int) =~= v@);
    r
}

/// The recorded pings of `target`, oldest first (empty when it has none).
pub fn pings_for(h: &Vec<TargetHistory>, target: &String) -> (r: Vec<PingResult>)
    ensures
        ping_views(r@) == pings_of(h@, target@),
{
    match find_target(h, target) {
        Some(i) => {
            proof {
                lemma_pings_of_at(h@, target@, i as int);
            }
            copy_pings(&h[i].pings)
        },
        None => {
            proof {
                lemma_pings_of_none(h@, target@);
            }
            let r: Vec<PingResult> = Vec::new();
            assert(ping_views(r@) =~= Seq::<PingView>::empty());
            r
        },
    }
}

/// The latest recorded ping of `target`, if any.
pub fn latest_ping(h: &Vec<TargetHistory>, target: &String) -> (r: Option<PingResult>)
    ensures
        match r {
            Some(p) => pings_of(h@, target@).len() > 0 && p@ == pings_of(h@, target@).last(),
            None => pings_of(h@, target@).len() == 0,
        },
{
    match find_target(h, target) {
        Some(i) => {
            proof {
                lemma_pings_of_at(h@, target@, i as int);
            }
            let n = h[i].pings.len();
            if n == 0 {
                None
            } else {
                Some(h[i].pings[n - 1].clone())
            }
        },
        None => {
            proof {
                lemma_pings_of_none(h@, target@);
            }
            None
        },
    }
}

/// `HashMap::insert(target, empty)`: the entry for `target` now holds no pings;
/// every other target keeps its pings.
pub fn insert_empty(h: &mut Vec<TargetHistory>, target: String)
    ensures
        has_target(final(h)@, target@),
        pings_of(final(h)@, target@) == Seq::<PingView>::empty(),
        forall|k: Seq<char>|
            k != target@ ==> (#[trigger] has_target(final(h)@, k) == has_target(old(h)@, k)
                && pings_of(final(h)@, k) == pings_of(old(h)@, k)),
        distinct_targets(old(h)@) ==> distinct_targets(final(h)@),
{
    let ghost t = target@;
    match find_target(h, &target) {
        Some(i) => {
            h[i].pings = Vec::new();
            proof {
                lemma_pings_of_at(final(h)@, t, i as int);
                assert(ping_views(final(h)@[i as int].pings@) =~= Seq::<PingView>::empty());
                assert forall|k: Seq<char>| k != t implies #[trigger] has_target(final(h)@, k)
                    == has_target(old(h)@, k) && pings_of(final(h)@, k) == pings_of(old(h)@, k) by {
                    lemma_pings_of_frame(old(h)@, final(h)@, k);
                }
            }
        },
        None => {
            let ghost before = h@;
            h.push(TargetHistory { target, pings: Vec::new() });
            proof {
                let n = before.len() as int;
                assert(is_first(h@, t, n));
                lemma_pings_of_at(h@, t, n);
                assert(ping_views(h@[n].pings@) =~= Seq::<PingView>::empty());
                assert forall|k: Seq<char>| k != t implies #[trigger] has_target(h@, k)
                    == has_target(before, k) && pings_of(h@, k) == pings_of(before, k) by {
                    lemma_pings_of_frame(before, h@, k);
                }
            }
        },
    }
}

/// `HashMap::remove(target)`: no entry for `target` remains; every other
/// target keeps its pings.
pub fn remove_entries(h: &mut Vec<TargetHistory>, target: &String)
    ensures
        !has_target(final(h)@, target@),
        forall|k: Seq<char>|
            k != target@ ==> (#[trigger] has_target(final(h)@, k) == has_target(old(h)@, k)
                && pings_of(final(h)@, k) == pings_of(old(h)@, k)),
        distinct_targets(old(h)@) ==> distinct_targets(final(h)@),
{
    let ghost old_h = h@;
    let n = h.len();
    let mut kept: Vec<TargetHistory> = Vec::new();
    let ghost mut idx: Seq<int> = Seq::empty();
    let mut q: usize = 0;
    while q < n
        invariant
            n == old_h.len(),
            h@ == old_h,
            q <= n,
            idx.len() == kept.len(),
            forall|m: int| 0 <= m < idx.len() ==> 0 <= #[trigger] idx[m] < q,
            forall|m: int| 0 <= m < idx.len() ==> kept@[m].target@ == old_h[#[trigger] idx[m]].target@,
            forall|m: int| 0 <= m < idx.len() ==> ping_views(kept@[m].pings@) == ping_views(old_h[#[trigger] idx[m]].pings@),
            forall|m: int, p: int| 0 <= m < p < idx.len() ==> idx[m] < idx[p],
            forall|r: int| 0 <= r < q && old_h[r].target@ != target@ ==> exists|m: int|
                0 <= m < idx.len() && #[trigger] idx[m] == r,
            forall|m: int| 0 <= m < kept.len() ==> kept@[m].target@ != target@,
        decreases n - q,
    {
        let ghost idx0 = idx;
        if h[q].target != *target {
            kept.push(TargetHistory { target: h[q].target.clone(), pings: copy_pings(&h[q].pings) });
            proof {
                idx = idx.push(q as int);
                assert(idx[idx.len() - 1] == q);
            }
        }
        proof {
            assert forall|r: int| 0 <= r < q + 1 && old_h[r].target@ != target@ implies exists|m: int|
                0 <= m < idx.len() && #[trigger] idx[m] == r by {
                if r == q {
                    assert(idx[idx.len() - 1] == r);
                } else {
                    let m = choose|m: int| 0 <= m < idx0.len() && #[trigger] idx0[m] == r;
                    assert(idx[m] == r);
                }
            }
        }
        q += 1;
    }
    *h = kept;
    proof {
        let new_h = h@;
        assert forall|k: Seq<char>| k != target@ implies #[trigger] has_target(new_h, k)
            == has_target(old_h, k) && pings_of(new_h, k) == pings_of(old_h, k) by {
            if has_target(old_h, k) {
                lemma_first_exists(old_h, k);
                let i = choose|i: int| is_first(old_h, k, i);
                let m = choose|m: int| 0 <= m < idx.len() && #[trigger] idx[m] == i;
                assert forall|p: int| 0 <= p < m implies new_h[p].target@ != k by {
                    assert(idx[p] < idx[m]);
                    assert(new_h[p].target@ == old_h[idx[p]].target@);
                }
                assert(is_first(new_h, k, m));
                lemma_pings_of_at(new_h, k, m);
                lemma_pings_of_at(old_h, k, i);
            } else {
                assert forall|p: int| 0 <= p < new_h.len() implies new_h[p].target@ != k by {
                    assert(new_h[p].target@ == old_h[idx[p]].target@);
                }
                lemma_pings_of_none(new_h, k);
            }
        }
        if distinct_targets(old_h) {
            assert forall|a: int, b: int| 0 <= a < b < new_h.len() implies new_h[a].target@
                != new_h[b].target@ by {
                assert(idx[a] < idx[b]);
                assert(new_h[a].target@ == old_h[idx[a]].target@);
                assert(new_h[b].target@ == old_h[idx[b]].target@);
            }
        }
    }
}

/// The pings left after dropping the leading ones older than `cutoff`.
pub open spec fn drop_older_prefix(s: Seq<PingView>, cutoff: int) -> Seq<PingView>
    decreases s.len(),
{
    if s.len() > 0 && s[0].timestamp < cutoff {
        drop_older_prefix(s.drop_first(), cutoff)
    } else {
        s
    }
}

/// Start of the 24-hour retention window ending at `now`.
pub open spec fn day_cutoff(now: i64) -> int {
    now - DAY_US
}

proof fn lemma_drop_step(s: Seq<PingView>, cutoff: int, i: int)
    requires
        0 <= i < s.len(),
        s[i].timestamp < cutoff,
    ensures
        drop_older_prefix(s.subrange(i, s.len() as int), cutoff) == drop_older_prefix(
            s.subrange(i + 1, s.len() as int),
            cutoff,
        ),
{
    let t = s.subrange(i, s.len() as int);
    assert(t.drop_first() =~= s.subrange(i + 1, s.len() as int));
}

proof fn lemma_views_subrange(v: Seq<PingResult>, i: int, j: int)
    requires
        0 <= i <= j <= v.len(),
    ensures
        ping_views(v.subrange(i, j)) == ping_views(v).subrange(i, j),
{
    assert(ping_views(v.subrange(i, j)) =~= ping_views(v).subrange(i, j));
}

/// Removes the leading pings older than `cutoff` (`pop_front` while the
/// oldest is older).
pub fn prune_older(v: &mut Vec<PingResult>, cutoff: i128)
    ensures
        ping_views(final(v)@) == drop_older_prefix(ping_views(old(v)@), cutoff as int),
{
    let ghost s = ping_views(v@);
    let n = v.len();
    let mut i: usize = 0;
    proof {
        assert(s.subrange(0, n as int) =~= s);
    }
    while i < n && (v[i].timestamp as i128) < cutoff
        invariant
            n == v.len(),
            i <= n,
            s == ping_views(v@),
            drop_older_prefix(s, cutoff as int) == drop_older_prefix(
                s.subrange(i as int, n as int),
                cutoff as int,
            ),
        decreases n - i,
    {
        proof {
            lemma_drop_step(s, cutoff as int, i as int);
        }
        i += 1;
    }
    proof {
        let t = s.subrange(i as int, n as int);
        if i < n {
            assert(t[0] == s[i as int]);
        }
        assert(drop_older_prefix(t, cutoff as int) == t);
    }
    let mut kept: Vec<PingResult> = Vec::new();
    let mut j = i;
    let ghost vs = v@;
    while j < n
        invariant
            i <= j <= n,
            n == v.len(),
            v@ == vs,
            ping_views(kept@) == ping_views(vs.subrange(i as int, j as int)),
        decreases n - j,
    {
        kept.push(v[j].clone());
        proof {
            assert(ping_views(vs.subrange(i as int, j + 1)) =~= ping_views(
                vs.subrange(i as int, j as int),
            ).push(vs[j as int]@));
        }
        j += 1;
    }
    proof {
        lemma_views_subrange(vs, i as int, n as int);
    }
    *v = kept;
}

/// History after appending `p` to its target's pings (creating the entry
/// when missing) and dropping that target's leading pings older than `cutoff`.
pub open spec fn recorded_pings(old_pings: Seq<PingView>, p: PingView, cutoff: int) -> Seq<
    PingView,
> {
    drop_older_prefix(old_pings.push(p), cutoff)
}

/// Appends a ping to its target's history and drops that target's leading
/// pings older than 24 hours before `now`. Other targets are untouched.
pub fn record_ping(h: &mut Vec<TargetHistory>, p: PingResult, now: i64)
    ensures
        has_target(final(h)@, p.target@),
        pings_of(final(h)@, p.target@) == recorded_pings(
            pings_of(old(h)@, p.target@),
            p@,
            day_cutoff(now),
        ),
        forall|k: Seq<char>|
            k != p.target@ ==> (#[trigger] has_target(final(h)@, k) == has_target(old(h)@, k)
                && pings_of(final(h)@, k) == pings_of(old(h)@, k)),
        distinct_targets(old(h)@) ==> distinct_targets(final(h)@),
{
    let ghost t = p.target@;
    let ghost pv = p@;
    let cutoff: i128 = (now as i128) - (DAY_US as i128);
    match find_target(h, &p.target) {
        Some(i) => {
            proof {
                lemma_pings_of_at(h@, t, i as int);
            }
            let mut pings = Vec::new();
            std::mem::swap(&mut pings, &mut h[i].pings);
            let ghost before = ping_views(pings@);
            pings.push(p);
            assert(ping_views(pings@) =~= before.push(pv));
            prune_older(&mut pings, cutoff);
            h[i].pings = pings;
            proof {
                lemma_pings_of_at(final(h)@, t, i as int);
                assert forall|k: Seq<char>| k != t implies #[trigger] has_target(final(h)@, k)
                    == has_target(old(h)@, k) && pings_of(final(h)@, k) == pings_of(old(h)@, k) by {
                    lemma_pings_of_frame(old(h)@, final(h)@, k);
                }
            }
        },
        None => {
            proof {
                lemma_pings_of_none(h@, t);
            }
            let ghost before = h@;
            let target = p.target.clone();
            let mut pings = Vec::new();
            pings.push(p);
            assert(ping_views(pings@) =~= Seq::<PingView>::empty().push(pv));
            prune_older(&mut pings, cutoff);
            h.push(TargetHistory { target, pings });
            proof {
                let n = before.len() as int;
                assert(is_first(h@, t, n));
                lemma_pings_of_at(h@, t, n);
                assert forall|k: Seq<char>| k != t implies #[trigger] has_target(h@, k)
                    == has_target(before, k) && pings_of(h@, k) == pings_of(before, k) by {
                    lemma_pings_of_frame(before, h@, k);
                }
            }
        },
    }
}

} // verus!

verus! {

/// A history seen as (target, pings) pairs.
pub open spec fn entry_view(e: TargetHistory) -> (Seq<char>, Seq<PingView>) {
    (e.target@, ping_views(e.pings@))
}

pub open spec fn history_view(h: Seq<TargetHistory>) -> Seq<(Seq<char>, Seq<PingView>)> {
    h.map_values(|e: TargetHistory| entry_view(e))
}

/// A ping without a session, taken at or after `since` (when given), is
/// assigned to session `id`; other pings stay as they are.
pub open spec fn claim(p: PingView, id: Seq<char>, since: Option<int>) -> PingView {
    if p.session_id is None && (match since {
        Some(c) => p.timestamp >= c,
        None => true,
    }) {
        PingView { session_id: Some(id), ..p }
    } else {
        p
    }
}

pub open spec fn claim_pings(s: Seq<PingView>, id: Seq<char>, since: Option<int>) -> Seq<PingView> {
    s.map_values(|p: PingView| claim(p, id, since))
}

pub open spec fn claim_all(
    hv: Seq<(Seq<char>, Seq<PingView>)>,
    id: Seq<char>,
    since: Option<int>,
) -> Seq<(Seq<char>, Seq<PingView>)> {
    hv.map_values(|e: (Seq<char>, Seq<PingView>)| (e.0, claim_pings(e.1, id, since)))
}

pub open spec fn opt_int(o: Option<i128>) -> Option<int> {
    match o {
        Some(c) => Some(c as int),
        None => None,
    }
}

fn claim_in(pings: &mut Vec<PingResult>, id: &String, since: Option<i128>)
    ensures
        ping_views(final(pings)@) == claim_pings(ping_views(old(pings)@), id@, opt_int(since)),
{
    let ghost old_v = ping_views(pings@);
    let n = pings.len();
    let mut j: usize = 0;
    while j < n
        invariant
            n == pings.len(),
            j <= n,
            old_v.len() == n,
            forall|m: int| 0 <= m < j ==> #[trigger] pings@[m]@ == claim(old_v[m], id@, opt_int(since)),
            forall|m: int| j <= m < n ==> #[trigger] pings@[m]@ == old_v[m],
        decreases n - j,
    {
        let take = pings[j].session_id.is_none() && match since {
            Some(c) => (pings[j].timestamp as i128) >= c,
            None => true,
        };
        let ghost before = pings@;
        if take {
            pings[j].session_id = Some(id.clone());
        }
        proof {
            assert(before[j as int]@ == old_v[j as int]);
            if take {
                assert(pings@[j as int].session_id == Some(*id));
                assert(pings@[j as int].timestamp == before[j as int].timestamp);
                assert(old_v[j as int].session_id is None);
            } else {
                assert(pings@[j as int] == before[j as int]);
            }
            assert(pings@[j as int]@ =~= claim(old_v[j as int], id@, opt_int(since)));
            assert forall|m: int| 0 <= m < n && m != j implies #[trigger] pings@[m] == before[m] by {}
        }
        j += 1;
    }
    assert(ping_views(pings@) =~= claim_pings(old_v, id@, opt_int(since)));
}

/// Assigns every ping without a session, taken at or after `since` (when
/// given), to session `id`.
pub fn claim_unassigned(h: &mut Vec<TargetHistory>, id: &String, since: Option<i128>)
    ensures
        history_view(final(h)@) == claim_all(history_view(old(h)@), id@, opt_int(since)),
{
    let ghost old_h = history_view(h@);
    let n = h.len();
    let mut i: usize = 0;
    while i < n
        invariant
            n == h.len(),
            i <= n,
            old_h.len() == n,
            forall|m: int| 0 <= m < i ==> #[trigger] entry_view(h@[m]) == (old_h[m].0, claim_pings(old_h[m].1, id@, opt_int(since))),
            forall|m: int| i <= m < n ==> #[trigger] entry_view(h@[m]) == old_h[m],
        decreases n - i,
    {
        let ghost orig = h@[i as int];
        assert(entry_view(orig) == old_h[i as int]);
        let mut pings = Vec::new();
        std::mem::swap(&mut pings, &mut h[i].pings);
        assert(pings == orig.pings);
        assert(h@[i as int].target == orig.target);
        claim_in(&mut pings, id, since);
        let ghost before = h@;
        h[i].pings = pings;
        proof {
            assert(entry_view(h@[i as int]) == (old_h[i as int].0, claim_pings(old_h[i as int].1, id@, opt_int(since))));
            assert forall|m: int| 0 <= m < n && m != i implies #[trigger] h@[m] == before[m] by {}
        }
        i += 1;
    }
    assert(history_view(h@) =~= claim_all(old_h, id@, opt_int(since)));
}

} // verus!

verus! {

impl Clone for TargetHistory {
    fn clone(&self) -> (r: Self)
        ensures
            entry_view(r) == entry_view(*self),
    {
        TargetHistory { target: self.target.clone(), pings: copy_pings(&self.pings) }
    }
}

/// A copy of a history.
pub fn copy_history(v: &Vec<TargetHistory>) -> (r: Vec<TargetHistory>)
    ensures
        history_view(r@) == history_view(v@),
{
    let r = v.clone();
    assert forall|i: int| 0 <= i < r.len() implies entry_view(r@[i]) == entry_view(v@[i]) by {
        assert(cloned::<TargetHistory>(v[i], r[i]));
    }
    assert(history_view(r@) =~= history_view(v@));
    r
}

} // verus!
