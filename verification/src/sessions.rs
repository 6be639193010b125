//! Network sessions: continuous periods on one public IP + ISP fingerprint,
//! their user-given names, and the repairs applied to saved sessions.
use vstd::prelude::*;
use vstd::string::*;
use crate::text::{trim, trim_text, text, push_str, push_signed_decimal, signed_decimal};
use crate::types::{
    IpInfo, IpInfoView, NetworkSession, SessionView, PingView, session_views, opt_view,
    copy_opt, DAY_US, MINUTE_US,
};
use crate::history::{
    TargetHistory, history_view, entry_view, claim_all, claim_unassigned, opt_int,
};
use crate::network::{fingerprint_of, network_fingerprint};

verus! {

/// A user-given name for the networks with one fingerprint.
pub struct NetworkAlias {
    pub fingerprint: String,
    pub label: String,
}

pub open spec fn alias_first(a: Seq<NetworkAlias>, k: Seq<char>, i: int) -> bool {
    &&& 0 <= i < a.len()
    &&& a[i].fingerprint@ == k
    &&& forall|j: int| 0 <= j < i ==> a[j].fingerprint@ != k
}

pub open spec fn has_alias(a: Seq<NetworkAlias>, k: Seq<char>) -> bool {
    exists|i: int| 0 <= i < a.len() && a[i].fingerprint@ == k
}

/// The name given to fingerprint `k`, if any (`HashMap::get`).
pub open spec fn alias_of(a: Seq<NetworkAlias>, k: Seq<char>) -> Option<Seq<char>> {
    if has_alias(a, k) {
        Some(a[choose|i: int| alias_first(a, k, i)].label@)
    } else {
        None
    }
}

proof fn lemma_alias_first_exists(a: Seq<NetworkAlias>, k: Seq<char>)
    requires
        has_alias(a, k),
    ensures
        exists|i: int| alias_first(a, k, i),
    decreases a.len(),
{
    if a[0].fingerprint@ == k {
        assert(alias_first(a, k, 0));
    } else {
        let t = a.drop_first();
        let w = choose|i: int| 0 <= i < a.len() && a[i].fingerprint@ == k;
        assert(t[w - 1].fingerprint@ == k);
        lemma_alias_first_exists(t, k);
        let i = choose|i: int| alias_first(t, k, i);
        assert forall|j: int| 0 <= j < i + 1 implies a[j].fingerprint@ != k by {
            if j > 0 {
                assert(a[j] == t[j - 1]);
            }
        }
        assert(alias_first(a, k, i + 1));
    }
}

proof fn lemma_alias_at(a: Seq<NetworkAlias>, k: Seq<char>, i: int)
    requires
        alias_first(a, k, i),
    ensures
        alias_of(a, k) == Some(a[i].label@),
{
    assert(has_alias(a, k));
    let j = choose|j: int| alias_first(a, k, j);
    if j < i {
        assert(a[j].fingerprint@ != k);
    } else if i < j {
        assert(a[i].fingerprint@ != k);
    }
}

proof fn lemma_alias_frame(a: Seq<NetworkAlias>, b: Seq<NetworkAlias>, k: Seq<char>)
    requires
        a.len() <= b.len(),
        forall|j: int|
            0 <= j < a.len() ==> ((#[trigger] a[j].fingerprint@ == k) == (b[j].fingerprint@ == k)),
        forall|j: int|
            0 <= j < a.len() && #[trigger] a[j].fingerprint@ == k ==> a[j].label@ == b[j].label@,
        forall|j: int| a.len() <= j < b.len() ==> #[trigger] b[j].fingerprint@ != k,
    ensures
        alias_of(a, k) == alias_of(b, k),
{
    if has_alias(a, k) {
        lemma_alias_first_exists(a, k);
        let i = choose|i: int| alias_first(a, k, i);
        assert forall|j: int| 0 <= j < i implies b[j].fingerprint@ != k by {
            assert(a[j].fingerprint@ != k);
        }
        assert(alias_first(b, k, i));
        lemma_alias_at(a, k, i);
        lemma_alias_at(b, k, i);
    } else {
        assert forall|j: int| 0 <= j < b.len() implies b[j].fingerprint@ != k by {
            if j < a.len() {
                assert(a[j].fingerprint@ != k);
            }
        }
    }
}

fn find_alias(a: &Vec<NetworkAlias>, k: &String) -> (r: Option<usize>)
    ensures
        match r {
            Some(i) => alias_first(a@, k@, i as int),
            None => !has_alias(a@, k@),
        },
{
    let mut i: usize = 0;
    while i < a.len()
        invariant
            i <= a.len(),
            forall|j: int| 0 <= j < i ==> a@[j].fingerprint@ != k@,
        decreases a.len() - i,
    {
        if a[i].fingerprint == *k {
            return Some(i);
        }
        i += 1;
    }
    None
}

/// The name given to a fingerprint (`HashMap::get(..).cloned()`).
pub fn lookup_alias(a: &Vec<NetworkAlias>, k: &String) -> (r: Option<String>)
    ensures
        opt_view(r) == alias_of(a@, k@),
{
    match find_alias(a, k) {
        Some(i) => {
            proof {
                lemma_alias_at(a@, k@, i as int);
            }
            Some(a[i].label.clone())
        },
        None => None,
    }
}

/// Names fingerprint `k` (`HashMap::insert`); other names are unchanged.
pub fn set_alias(a: &mut Vec<NetworkAlias>, k: String, label: String)
    ensures
        alias_of(final(a)@, k@) == Some(label@),
        forall|x: Seq<char>| x != k@ ==> #[trigger] alias_of(final(a)@, x) == alias_of(old(a)@, x),
{
    let ghost kk = k@;
    let ghost lv = label@;
    match find_alias(a, &k) {
        Some(i) => {
            a[i].label = label;
            proof {
                lemma_alias_at(final(a)@, kk, i as int);
                assert forall|x: Seq<char>| x != kk implies #[trigger] alias_of(final(a)@, x)
                    == alias_of(old(a)@, x) by {
                    lemma_alias_frame(old(a)@, final(a)@, x);
                }
            }
        },
        None => {
            let ghost before = a@;
            a.push(NetworkAlias { fingerprint: k, label });
            proof {
                let n = before.len() as int;
                assert(alias_first(a@, kk, n));
                lemma_alias_at(a@, kk, n);
                assert forall|x: Seq<char>| x != kk implies #[trigger] alias_of(a@, x) == alias_of(
                    before,
                    x,
                ) by {
                    lemma_alias_frame(before, a@, x);
                }
            }
        },
    }
}

/// Forgets the name of fingerprint `k` (`HashMap::remove`); other names are unchanged.
pub fn remove_alias(a: &mut Vec<NetworkAlias>, k: &String)
    ensures
        alias_of(final(a)@, k@) is None,
        forall|x: Seq<char>| x != k@ ==> #[trigger] alias_of(final(a)@, x) == alias_of(old(a)@, x),
{
    let ghost old_a = a@;
    let n = a.len();
    let mut kept: Vec<NetworkAlias> = Vec::new();
    let ghost mut idx: Seq<int> = Seq::empty();
    let mut q: usize = 0;
    while q < n
        invariant
            n == old_a.len(),
            a@ == old_a,
            q <= n,
            idx.len() == kept.len(),
            forall|m: int| 0 <= m < idx.len() ==> 0 <= #[trigger] idx[m] < q,
            forall|m: int|
                0 <= m < idx.len() ==> kept@[m].fingerprint@ == old_a[#[trigger] idx[m]].fingerprint@
                    && kept@[m].label@ == old_a[idx[m]].label@,
            forall|m: int, p: int| 0 <= m < p < idx.len() ==> idx[m] < idx[p],
            forall|r: int|
                0 <= r < q && old_a[r].fingerprint@ != k@ ==> exists|m: int|
                    0 <= m < idx.len() && #[trigger] idx[m] == r,
            forall|m: int| 0 <= m < kept.len() ==> kept@[m].fingerprint@ != k@,
        decreases n - q,
    {
        let ghost idx0 = idx;
        if a[q].fingerprint != *k {
            kept.push(
                NetworkAlias { fingerprint: a[q].fingerprint.clone(), label: a[q].label.clone() },
            );
            proof {
                idx = idx.push(q as int);
                assert(idx[idx.len() - 1] == q);
            }
        }
        proof {
            assert forall|r: int|
                0 <= r < q + 1 && old_a[r].fingerprint@ != k@ implies exists|m: int|
                0 <= m < idx.len() && #[trigger] idx[m] == r by {
                if r == q {
                    assert(idx[idx.len() - 1] == r);
                } else {
                    let m = choose|m: int| 0 <= m < idx0.len() && #[trigger] idx0[m] == r;
                    assert(idx[m] == r);
                }
            }
        }
        q += 1;
    }
    *a = kept;
    proof {
        let b = a@;
        assert(!has_alias(b, k@));
        assert forall|x: Seq<char>| x != k@ implies #[trigger] alias_of(b, x) == alias_of(
            old_a,
            x,
        ) by {
            if has_alias(old_a, x) {
                lemma_alias_first_exists(old_a, x);
                let i = choose|i: int| alias_first(old_a, x, i);
                let m = choose|m: int| 0 <= m < idx.len() && #[trigger] idx[m] == i;
                assert forall|p: int| 0 <= p < m implies b[p].fingerprint@ != x by {
                    assert(idx[p] < idx[m]);
                    assert(b[p].fingerprint@ == old_a[idx[p]].fingerprint@);
                }
                assert(alias_first(b, x, m));
                lemma_alias_at(b, x, m);
                lemma_alias_at(old_a, x, i);
            } else {
                assert forall|p: int| 0 <= p < b.len() implies b[p].fingerprint@ != x by {
                    assert(b[p].fingerprint@ == old_a[idx[p]].fingerprint@);
                }
            }
        }
    }
}

/// `i` is the first session with id `id`.
pub open spec fn session_first(s: Seq<SessionView>, id: Seq<char>, i: int) -> bool {
    &&& 0 <= i < s.len()
    &&& s[i].id == id
    &&& forall|j: int| 0 <= j < i ==> s[j].id != id
}

pub open spec fn has_session(s: Seq<SessionView>, id: Seq<char>) -> bool {
    exists|i: int| 0 <= i < s.len() && s[i].id == id
}

/// The first session with id `id`.
pub open spec fn session_by_id(s: Seq<SessionView>, id: Seq<char>) -> SessionView {
    s[choose|i: int| session_first(s, id, i)]
}

pub proof fn lemma_session_first_exists(s: Seq<SessionView>, id: Seq<char>)
    requires
        has_session(s, id),
    ensures
        exists|i: int| session_first(s, id, i),
    decreases s.len(),
{
    if s[0].id == id {
        assert(session_first(s, id, 0));
    } else {
        let t = s.drop_first();
        let w = choose|i: int| 0 <= i < s.len() && s[i].id == id;
        assert(t[w - 1].id == id);
        lemma_session_first_exists(t, id);
        let i = choose|i: int| session_first(t, id, i);
        assert forall|j: int| 0 <= j < i + 1 implies s[j].id != id by {
            if j > 0 {
                assert(s[j] == t[j - 1]);
            }
        }
        assert(session_first(s, id, i + 1));
    }
}

pub proof fn lemma_session_first_unique(s: Seq<SessionView>, id: Seq<char>, i: int)
    requires
        session_first(s, id, i),
    ensures
        (choose|j: int| session_first(s, id, j)) == i,
{
    assert(has_session(s, id));
    let j = choose|j: int| session_first(s, id, j);
    if j < i {
        assert(s[j].id != id);
    } else if i < j {
        assert(s[i].id != id);
    }
}

/// The first session with id `id` ends at `now`; without such a session,
/// nothing changes.
pub open spec fn end_session(s: Seq<SessionView>, id: Seq<char>, now: i64) -> Seq<SessionView> {
    if has_session(s, id) {
        let i = choose|i: int| session_first(s, id, i);
        s.update(i, SessionView { ended_at: Some(now), ..s[i] })
    } else {
        s
    }
}

/// When a session ended, or when it started if it is still open.
pub open spec fn session_edge(v: SessionView) -> i64 {
    match v.ended_at {
        Some(e) => e,
        None => v.started_at,
    }
}

/// Drops the leading sessions that ended (or, when open, started) before `cutoff`.
pub open spec fn drop_expired(s: Seq<SessionView>, cutoff: int) -> Seq<SessionView>
    decreases s.len(),
{
    if s.len() > 0 && session_edge(s[0]) < cutoff {
        drop_expired(s.drop_first(), cutoff)
    } else {
        s
    }
}

/// Id of a session started at `now`: "session-" and the microsecond timestamp.
pub open spec fn session_id_for(now: i64) -> Seq<char> {
    "session-"@ + signed_decimal(now as int)
}

/// The session opened at `now` for the network described by `info`.
pub open spec fn new_session(info: IpInfoView, label: Option<Seq<char>>, now: i64) -> SessionView {
    SessionView {
        id: session_id_for(now),
        fingerprint: fingerprint_of(info),
        public_ip: info.ip,
        isp: info.isp,
        label,
        started_at: now,
        ended_at: None,
    }
}

/// The current session already describes this network, and no new one is asked for.
pub open spec fn keeps_session(
    s: Seq<SessionView>,
    current: Option<Seq<char>>,
    fingerprint: Seq<char>,
    force_new: bool,
) -> bool {
    &&& !force_new
    &&& current is Some
    &&& exists|i: int|
        0 <= i < s.len() && s[i].id == current->0 && s[i].fingerprint == fingerprint
}

/// The sessions after a new one opens at `now`: the current one ends, the new
/// one is appended, and the leading sessions older than 24 hours are dropped.
pub open spec fn sessions_after_open(
    s: Seq<SessionView>,
    current: Option<Seq<char>>,
    opened: SessionView,
    now: i64,
) -> Seq<SessionView> {
    let ended = match current {
        Some(c) => end_session(s, c, now),
        None => s,
    };
    drop_expired(ended.push(opened), now - DAY_US)
}

pub open spec fn opt_session(r: Option<NetworkSession>) -> Option<SessionView> {
    match r {
        Some(s) => Some(s@),
        None => None,
    }
}

/// One call of `ensure_network_session` at `now`, from sessions `sv0`,
/// current session `cur0` and history `hv0` to `sv1`, `cur1`, `hv1`,
/// returning `r`: nothing changes when the current session keeps this
/// network; otherwise the new session is opened and returned.
pub open spec fn session_step(
    sv0: Seq<SessionView>,
    cur0: Option<Seq<char>>,
    hv0: Seq<(Seq<char>, Seq<PingView>)>,
    aliases: Seq<NetworkAlias>,
    info: IpInfoView,
    force_new: bool,
    now: i64,
    r: Option<SessionView>,
    sv1: Seq<SessionView>,
    cur1: Option<Seq<char>>,
    hv1: Seq<(Seq<char>, Seq<PingView>)>,
) -> bool {
    if keeps_session(sv0, cur0, fingerprint_of(info), force_new) {
        &&& r is None
        &&& sv1 == sv0
        &&& cur1 == cur0
        &&& hv1 == hv0
    } else {
        &&& r == Some(new_session(info, alias_of(aliases, fingerprint_of(info)), now))
        &&& sv1 == sessions_after_open(sv0, cur0, r->0, now)
        &&& cur1 == Some(r->0.id)
        &&& hv1 == claim_all(hv0, r->0.id, Some(now - 5 * MINUTE_US))
    }
}

pub(crate) fn find_session(s: &Vec<NetworkSession>, id: &String) -> (r: Option<usize>)
    ensures
        match r {
            Some(i) => session_first(session_views(s@), id@, i as int),
            None => !has_session(session_views(s@), id@),
        },
{
    let mut i: usize = 0;
    while i < s.len()
        invariant
            i <= s.len(),
            forall|j: int| 0 <= j < i ==> s@[j].id@ != id@,
        decreases s.len() - i,
    {
        if s[i].id == *id {
            return Some(i);
        }
        i += 1;
    }
    None
}

fn any_session_with(s: &Vec<NetworkSession>, id: &String, fingerprint: &String) -> (r: bool)
    ensures
        r == exists|i: int|
            0 <= i < s.len() && session_views(s@)[i].id == id@ && session_views(s@)[i].fingerprint
                == fingerprint@,
{
    let mut i: usize = 0;
    while i < s.len()
        invariant
            i <= s.len(),
            forall|j: int|
                0 <= j < i ==> !(session_views(s@)[j].id == id@ && session_views(s@)[j].fingerprint
                    == fingerprint@),
        decreases s.len() - i,
    {
        if s[i].id == *id && s[i].fingerprint == *fingerprint {
            assert(session_views(s@)[i as int].id == id@);
            return true;
        }
        i += 1;
    }
    false
}

/// Ends the first session with id `id` at `now`.
fn end_first_session(s: &mut Vec<NetworkSession>, id: &String, now: i64)
    ensures
        session_views(final(s)@) == end_session(session_views(old(s)@), id@, now),
{
    let ghost sv = session_views(s@);
    match find_session(s, id) {
        Some(i) => {
            s[i].ended_at = Some(now);
            proof {
                lemma_session_first_unique(sv, id@, i as int);
                assert(session_views(s@) =~= sv.update(
                    i as int,
                    SessionView { ended_at: Some(now), ..sv[i as int] },
                ));
            }
        },
        None => {},
    }
}

fn edge_time(s: &NetworkSession) -> (t: i64)
    ensures
        t == session_edge(s@),
{
    match s.ended_at {
        Some(e) => e,
        None => s.started_at,
    }
}

proof fn lemma_drop_expired_step(s: Seq<SessionView>, cutoff: int, i: int)
    requires
        0 <= i < s.len(),
        session_edge(s[i]) < cutoff,
    ensures
        drop_expired(s.subrange(i, s.len() as int), cutoff) == drop_expired(
            s.subrange(i + 1, s.len() as int),
            cutoff,
        ),
{
    let t = s.subrange(i, s.len() as int);
    assert(t.drop_first() =~= s.subrange(i + 1, s.len() as int));
}

/// Drops the leading sessions that ended (or started, when open) before `cutoff`.
fn prune_sessions(s: &mut Vec<NetworkSession>, cutoff: i128)
    ensures
        session_views(final(s)@) == drop_expired(session_views(old(s)@), cutoff as int),
{
    let ghost sv = session_views(s@);
    let n = s.len();
    let mut i: usize = 0;
    proof {
        assert(sv.subrange(0, n as int) =~= sv);
    }
    while i < n && (edge_time(&s[i]) as i128) < cutoff
        invariant
            n == s.len(),
            i <= n,
            sv == session_views(s@),
            drop_expired(sv, cutoff as int) == drop_expired(
                sv.subrange(i as int, n as int),
                cutoff as int,
            ),
        decreases n - i,
    {
        proof {
            lemma_drop_expired_step(sv, cutoff as int, i as int);
        }
        i += 1;
    }
    proof {
        let t = sv.subrange(i as int, n as int);
        if i < n {
            assert(t[0] == sv[i as int]);
        }
        assert(drop_expired(t, cutoff as int) == t);
    }
    let tail = s.split_off(i);
    *s = tail;
    proof {
        assert(session_views(s@) =~= sv.subrange(i as int, n as int));
    }
}

/// The id of a session opened at `now`.
pub fn session_id_at(now: i64) -> (r: String)
    ensures
        r@ == session_id_for(now),
{
    let mut r = text("session-");
    push_signed_decimal(&mut r, now);
    r
}

/// Opens a new network session for `info` at `now` unless the current session
/// already has this fingerprint (and no new one is forced). Opening ends the
/// current session, appends the new one (named after the fingerprint's alias),
/// drops sessions older than 24 hours, makes the new session current, and
/// assigns to it the pings of the last five minutes that have no session.
pub fn ensure_network_session_at(
    sessions: &mut Vec<NetworkSession>,
    current_session_id: &mut Option<String>,
    aliases: &Vec<NetworkAlias>,
    history: &mut Vec<TargetHistory>,
    info: &IpInfo,
    force_new: bool,
    now: i64,
) -> (r: Option<NetworkSession>)
    ensures
        session_step(
            session_views(old(sessions)@),
            opt_view(*old(current_session_id)),
            history_view(old(history)@),
            aliases@,
            info@,
            force_new,
            now,
            opt_session(r),
            session_views(final(sessions)@),
            opt_view(*final(current_session_id)),
            history_view(final(history)@),
        ),
{
    let fingerprint = network_fingerprint(info);
    if !force_new {
        if let Some(cid) = &*current_session_id {
            if any_session_with(sessions, cid, &fingerprint) {
                return None;
            }
        }
    }
    let label = lookup_alias(aliases, &fingerprint);
    let ghost sv0 = session_views(sessions@);
    if let Some(cid) = &*current_session_id {
        end_first_session(sessions, cid, now);
    }
    let id = session_id_at(now);
    let session = NetworkSession {
        id,
        fingerprint,
        public_ip: info.ip.clone(),
        isp: copy_opt(&info.isp),
        label,
        started_at: now,
        ended_at: None,
    };
    let ghost sv1 = session_views(sessions@);
    sessions.push(session.clone());
    assert(session_views(sessions@) =~= sv1.push(session@));
    prune_sessions(sessions, (now as i128) - (DAY_US as i128));
    *current_session_id = Some(session.id.clone());
    claim_unassigned(history, &session.id, Some((now as i128) - 5 * (MINUTE_US as i128)));
    Some(session)
}

/// The error for a network name longer than 80 characters.
pub open spec fn name_too_long_error() -> Seq<char> {
    "Network name must be 80 characters or fewer"@
}

pub open spec fn session_not_found_error() -> Seq<char> {
    "Network session not found"@
}

/// A session relabelled after its fingerprint was (re)named.
pub open spec fn relabel(v: SessionView, fingerprint: Seq<char>, label: Option<Seq<char>>) -> SessionView {
    if v.fingerprint == fingerprint {
        SessionView { label, ..v }
    } else {
        v
    }
}

/// The name stored for a trimmed label: none when it is empty.
pub open spec fn stored_label(t: Seq<char>) -> Option<Seq<char>> {
    if t.len() == 0 {
        None
    } else {
        Some(t)
    }
}

/// Names the network of session `session_id`: the trimmed label (at most 80
/// characters) becomes the alias of the session's fingerprint, or removes it when
/// empty, and every session with that fingerprint takes it as its label.
pub fn rename_network_session(
    sessions: &mut Vec<NetworkSession>,
    aliases: &mut Vec<NetworkAlias>,
    session_id: &String,
    label: &String,
) -> (r: Result<(), String>)
    ensures
        ({
            let t = trim(label@);
            let sv = session_views(old(sessions)@);
            if t.len() > 80 {
                &&& r is Err
                &&& r->Err_0@ == name_too_long_error()
                &&& final(sessions)@ == old(sessions)@
                &&& final(aliases)@ == old(aliases)@
            } else if !has_session(sv, session_id@) {
                &&& r is Err
                &&& r->Err_0@ == session_not_found_error()
                &&& final(sessions)@ == old(sessions)@
                &&& final(aliases)@ == old(aliases)@
            } else {
                let fp = session_by_id(sv, session_id@).fingerprint;
                &&& r is Ok
                &&& alias_of(final(aliases)@, fp) == stored_label(t)
                &&& forall|x: Seq<char>|
                    x != fp ==> #[trigger] alias_of(final(aliases)@, x) == alias_of(
                        old(aliases)@,
                        x,
                    )
                &&& session_views(final(sessions)@) == sv.map_values(
                    |v: SessionView| relabel(v, fp, stored_label(t)),
                )
            }
        }),
{
    let t = trim_text(label.as_str());
    if t.as_str().unicode_len() > 80 {
        return Err(text("Network name must be 80 characters or fewer"));
    }
    let ghost sv = session_views(sessions@);
    let i = match find_session(sessions, session_id) {
        Some(i) => i,
        None => {
            return Err(text("Network session not found"));
        },
    };
    proof {
        lemma_session_first_unique(sv, session_id@, i as int);
    }
    let fingerprint = sessions[i].fingerprint.clone();
    let empty = t.as_str().is_empty();
    if empty {
        remove_alias(aliases, &fingerprint);
    } else {
        set_alias(aliases, fingerprint.clone(), t.clone());
    }
    let n = sessions.len();
    let mut j: usize = 0;
    while j < n
        invariant
            n == sessions.len(),
            j <= n,
            sv.len() == n,
            empty == (t@.len() == 0),
            forall|m: int|
                0 <= m < j ==> #[trigger] session_views(sessions@)[m] == relabel(
                    sv[m],
                    fingerprint@,
                    stored_label(t@),
                ),
            forall|m: int| j <= m < n ==> #[trigger] session_views(sessions@)[m] == sv[m],
        decreases n - j,
    {
        let ghost before = sessions@;
        assert(session_views(sessions@)[j as int] == sv[j as int]);
        assert(before[j as int]@ == sv[j as int]);
        if sessions[j].fingerprint == fingerprint {
            sessions[j].label = if empty {
                None
            } else {
                Some(t.clone())
            };
        }
        proof {
            assert(session_views(sessions@)[j as int] =~= relabel(
                sv[j as int],
                fingerprint@,
                stored_label(t@),
            ));
            assert forall|m: int| 0 <= m < n && m != j implies #[trigger] session_views(sessions@)[m]
                == session_views(before)[m] by {
                assert(sessions@[m] == before[m]);
            }
        }
        j += 1;
    }
    assert(session_views(sessions@) =~= sv.map_values(
        |v: SessionView| relabel(v, fingerprint@, stored_label(t@)),
    ));
    Ok(())
}

} // verus!

verus! {

pub open spec fn alias_views(a: Seq<NetworkAlias>) -> Seq<(Seq<char>, Seq<char>)> {
    a.map_values(|x: NetworkAlias| (x.fingerprint@, x.label@))
}

impl Clone for NetworkAlias {
    fn clone(&self) -> (r: Self)
        ensures
            r.fingerprint@ == self.fingerprint@,
            r.label@ == self.label@,
    {
        NetworkAlias { fingerprint: self.fingerprint.clone(), label: self.label.clone() }
    }
}

/// A copy of the network names.
pub fn copy_aliases(v: &Vec<NetworkAlias>) -> (r: Vec<NetworkAlias>)
    ensures
        alias_views(r@) == alias_views(v@),
{
    let r = v.clone();
    assert forall|i: int| 0 <= i < r.len() implies r@[i].fingerprint@ == v@[i].fingerprint@ && r@[i].label@ == v@[i].label@ by {
        assert(cloned::<NetworkAlias>(v[i], r[i]));
    }
    assert(alias_views(r@) =~= alias_views(v@));
    r
}

} // verus!
