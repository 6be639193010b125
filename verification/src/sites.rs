//! Site monitoring: where a site URL is checked, how a check's outcome
//! updates the site's status, and the short form of a URL for the menu.
use vstd::prelude::*;
use crate::text::{
    strip_prefixes, before_char, has_prefix, parse_i32, decimal, signed_decimal, chars_of, skip_prefixes,
    index_of_char, string_of, starts_at, parse_i32_at, push_char, push_decimal, push_signed_decimal, push_str, text,
};
use crate::types::{SiteMonitor, SiteStatus, StatusView, MonitorView, monitor_views, status_views, opt_view};

verus! {

/// A URL without its scheme and path: "https://example.com/path" gives "example.com".
pub open spec fn shortened(url: Seq<char>) -> Seq<char> {
    before_char(strip_prefixes(strip_prefixes(url, "https://"@), "http://"@), '/')
}

/// Shortens a URL for display in the menu.
pub fn shorten_url(url: &str) -> (r: String)
    ensures
        r@ == shortened(url@),
{
    let v = chars_of(url);
    let https = chars_of("https://");
    let http = chars_of("http://");
    proof {
        reveal_strlit("https://");
        reveal_strlit("http://");
    }
    assert(v@.subrange(0, v.len() as int) =~= v@);
    let a = skip_prefixes(&v, 0, &https);
    let b = skip_prefixes(&v, a, &http);
    let e = index_of_char(&v, b, '/');
    string_of(&v, b, e)
}

/// Host and port a site check connects to. The scheme sets the port (443
/// for https or no scheme, 80 for http) unless the host names one that
/// `i32::from_str` accepts (which may be no valid port: connecting then
/// fails); the path is ignored.
pub open spec fn site_host_port(url: Seq<char>) -> (Seq<char>, int) {
    let host = site_host(url);
    let colon = before_char(host, ':');
    if colon.len() < host.len() {
        (
            colon,
            match parse_i32(host.subrange((colon.len() + 1) as int, host.len() as int)) {
                Some(p) => p as int,
                None => scheme_port(url) as int,
            },
        )
    } else {
        (host, scheme_port(url) as int)
    }
}

/// The port implied by the URL's scheme.
pub open spec fn scheme_port(url: Seq<char>) -> u16 {
    if has_prefix(url, "https://"@) {
        443
    } else if has_prefix(url, "http://"@) {
        80
    } else {
        443
    }
}

/// The URL without its scheme, up to the first '/'.
pub open spec fn site_host(url: Seq<char>) -> Seq<char> {
    if has_prefix(url, "https://"@) {
        before_char(strip_prefixes(url, "https://"@), '/')
    } else if has_prefix(url, "http://"@) {
        before_char(strip_prefixes(url, "http://"@), '/')
    } else {
        before_char(url, '/')
    }
}

/// The address "host:port" a site check connects to.
pub open spec fn site_address_of(url: Seq<char>) -> Seq<char> {
    site_host_port(url).0 + seq![':'] + signed_decimal(site_host_port(url).1)
}

/// Where a site check connects: "host:port".
#[verifier::rlimit(40)]
pub fn site_address(url: &str) -> (r: String)
    ensures
        r@ == site_address_of(url@),
{
    let v = chars_of(url);
    let https = chars_of("https://");
    let http = chars_of("http://");
    proof {
        reveal_strlit("https://");
        reveal_strlit("http://");
    }
    assert(v@.subrange(0, v.len() as int) =~= v@);
    let (start, port): (usize, u16) = if starts_at(&v, 0, &https) {
        (skip_prefixes(&v, 0, &https), 443)
    } else if starts_at(&v, 0, &http) {
        (skip_prefixes(&v, 0, &http), 80)
    } else {
        (0, 443)
    };
    let ghost rest = v@.subrange(start as int, v.len() as int);
    assert(port == scheme_port(url@));
    assert(site_host(url@) == before_char(rest, '/'));
    let end = index_of_char(&v, start, '/');
    let ghost host = v@.subrange(start as int, end as int);
    let colon = index_of_char(&v, start, ':');
    proof {
        assert(rest.subrange(0, (end - start) as int) =~= host);
        assert(rest.subrange(0, (colon - start) as int) =~= v@.subrange(start as int, colon as int));
        lemma_before_colon(rest, (end - start) as int, (colon - start) as int);
        if colon < end {
            assert(host.subrange((colon - start + 1) as int, host.len() as int) =~= v@.subrange(colon + 1, end as int));
        }
    }
    let mut r = String::new();
    if colon < end {
        let host_part = string_of(&v, start, colon);
        let p: i32 = match parse_i32_at_range(&v, colon + 1, end) {
            Some(p) => p,
            None => port as i32,
        };
        push_str(&mut r, host_part.as_str());
        push_char(&mut r, ':');
        push_signed_decimal(&mut r, p as i64);
        assert(r@ =~= site_address_of(url@));
    } else {
        let host_part = string_of(&v, start, end);
        push_str(&mut r, host_part.as_str());
        push_char(&mut r, ':');
        push_signed_decimal(&mut r, port as i64);
        assert(r@ =~= site_address_of(url@));
    }
    r
}

proof fn lemma_before_colon(rest: Seq<char>, e: int, c: int)
    requires
        0 <= e <= rest.len(),
        0 <= c <= rest.len(),
        before_char(rest, '/') == rest.subrange(0, e),
        before_char(rest, ':') == rest.subrange(0, c),
        e < rest.len() ==> rest[e] == '/',
        c < rest.len() ==> rest[c] == ':',
        forall|k: int| 0 <= k < e ==> rest[k] != '/',
        forall|k: int| 0 <= k < c ==> rest[k] != ':',
    ensures
        ({
            let host = rest.subrange(0, e);
            let hc = before_char(host, ':');
            &&& c < e ==> hc == rest.subrange(0, c)
            &&& c >= e ==> hc == host
        }),
{
    let host = rest.subrange(0, e);
    lemma_before_char_prefix(host, ':', if c < e { c } else { e });
}

proof fn lemma_before_char_prefix(s: Seq<char>, ch: char, k: int)
    requires
        0 <= k <= s.len(),
        forall|j: int| 0 <= j < k ==> s[j] != ch,
        k < s.len() ==> s[k] == ch,
    ensures
        before_char(s, ch) == s.subrange(0, k),
    decreases s.len(),
{
    if s.len() == 0 {
    } else if k == 0 {
        assert(s.subrange(0, 0) =~= Seq::<char>::empty());
    } else {
        lemma_before_char_prefix(s.drop_first(), ch, k - 1);
        assert(seq![s[0]] + s.drop_first().subrange(0, k - 1) =~= s.subrange(0, k));
    }
}

/// `i32::from_str` on the characters `v[from..to]`.
fn parse_i32_at_range(v: &Vec<char>, from: usize, to: usize) -> (r: Option<i32>)
    requires
        from <= to <= v.len(),
    ensures
        r == parse_i32(v@.subrange(from as int, to as int)),
{
    let mut w: Vec<char> = Vec::new();
    let mut i = from;
    while i < to
        invariant
            from <= i <= to <= v.len(),
            w@ == v@.subrange(from as int, i as int),
        decreases to - i,
    {
        w.push(v[i]);
        i += 1;
    }
    assert(w@.subrange(0, w.len() as int) =~= w@);
    parse_i32_at(&w, 0)
}

/// The status recorded by a check of `url` at `now`: up with the connect
/// time when it answered, down (since `now`) otherwise.
pub open spec fn checked_status(url: Seq<char>, outcome: Option<u64>, now: i64) -> StatusView {
    match outcome {
        Some(l) => StatusView {
            url,
            is_up: true,
            latency_us: Some(l),
            last_check: now,
            last_down: None,
        },
        None => StatusView {
            url,
            is_up: false,
            latency_us: None,
            last_check: now,
            last_down: Some(now),
        },
    }
}

/// Status of a site checked at `now`; `outcome` is the connect time, if it connected.
pub fn check_site_status(url: &String, outcome: Option<u64>, now: i64) -> (r: SiteStatus)
    ensures
        r@ == checked_status(url@, outcome, now),
{
    match outcome {
        Some(l) => SiteStatus {
            url: url.clone(),
            is_up: true,
            latency_us: Some(l),
            last_check: now,
            last_down: None,
        },
        None => SiteStatus {
            url: url.clone(),
            is_up: false,
            latency_us: None,
            last_check: now,
            last_down: Some(now),
        },
    }
}

pub open spec fn status_first(s: Seq<SiteStatus>, url: Seq<char>, i: int) -> bool {
    &&& 0 <= i < s.len()
    &&& s[i].url@ == url
    &&& forall|j: int| 0 <= j < i ==> s[j].url@ != url
}

pub open spec fn has_status(s: Seq<SiteStatus>, url: Seq<char>) -> bool {
    exists|i: int| 0 <= i < s.len() && s[i].url@ == url
}

/// The recorded status of `url`, if any.
pub open spec fn status_of(s: Seq<SiteStatus>, url: Seq<char>) -> Option<StatusView> {
    if has_status(s, url) {
        Some(s[choose|i: int| status_first(s, url, i)]@)
    } else {
        None
    }
}

proof fn lemma_status_first_exists(s: Seq<SiteStatus>, url: Seq<char>)
    requires
        has_status(s, url),
    ensures
        exists|i: int| status_first(s, url, i),
    decreases s.len(),
{
    if s[0].url@ == url {
        assert(status_first(s, url, 0));
    } else {
        let t = s.drop_first();
        let w = choose|i: int| 0 <= i < s.len() && s[i].url@ == url;
        assert(t[w - 1].url@ == url);
        lemma_status_first_exists(t, url);
        let i = choose|i: int| status_first(t, url, i);
        assert forall|j: int| 0 <= j < i + 1 implies s[j].url@ != url by {
            if j > 0 {
                assert(s[j] == t[j - 1]);
            }
        }
        assert(status_first(s, url, i + 1));
    }
}

proof fn lemma_status_at(s: Seq<SiteStatus>, url: Seq<char>, i: int)
    requires
        status_first(s, url, i),
    ensures
        status_of(s, url) == Some(s[i]@),
{
    assert(has_status(s, url));
    let j = choose|j: int| status_first(s, url, j);
    if j < i {
        assert(s[j].url@ != url);
    } else if i < j {
        assert(s[i].url@ != url);
    }
}

proof fn lemma_status_frame(a: Seq<SiteStatus>, b: Seq<SiteStatus>, url: Seq<char>)
    requires
        a.len() <= b.len(),
        forall|j: int| 0 <= j < a.len() ==> ((#[trigger] a[j].url@ == url) == (b[j].url@ == url)),
        forall|j: int| 0 <= j < a.len() && #[trigger] a[j].url@ == url ==> a[j]@ == b[j]@,
        forall|j: int| a.len() <= j < b.len() ==> #[trigger] b[j].url@ != url,
    ensures
        status_of(a, url) == status_of(b, url),
{
    if has_status(a, url) {
        lemma_status_first_exists(a, url);
        let i = choose|i: int| status_first(a, url, i);
        assert forall|j: int| 0 <= j < i implies b[j].url@ != url by {
            assert(a[j].url@ != url);
        }
        assert(status_first(b, url, i));
        lemma_status_at(a, url, i);
        lemma_status_at(b, url, i);
    } else {
        assert forall|j: int| 0 <= j < b.len() implies b[j].url@ != url by {
            if j < a.len() {
                assert(a[j].url@ != url);
            }
        }
    }
}

fn find_status(s: &Vec<SiteStatus>, url: &String) -> (r: Option<usize>)
    ensures
        match r {
            Some(i) => status_first(s@, url@, i as int),
            None => !has_status(s@, url@),
        },
{
    let mut i: usize = 0;
    while i < s.len()
        invariant
            i <= s.len(),
            forall|j: int| 0 <= j < i ==> s@[j].url@ != url@,
        decreases s.len() - i,
    {
        if s[i].url == *url {
            return Some(i);
        }
        i += 1;
    }
    None
}

/// Records the status of its URL (`HashMap::insert`); other URLs keep theirs.
pub fn set_status(s: &mut Vec<SiteStatus>, status: SiteStatus)
    ensures
        status_of(final(s)@, status.url@) == Some(status@),
        forall|u: Seq<char>| u != status.url@ ==> #[trigger] status_of(final(s)@, u) == status_of(
            old(s)@,
            u,
        ),
{
    let ghost u0 = status.url@;
    let ghost sv = status@;
    match find_status(s, &status.url) {
        Some(i) => {
            s[i] = status;
            proof {
                lemma_status_at(final(s)@, u0, i as int);
                assert forall|u: Seq<char>| u != u0 implies #[trigger] status_of(final(s)@, u)
                    == status_of(old(s)@, u) by {
                    lemma_status_frame(old(s)@, final(s)@, u);
                }
            }
        },
        None => {
            let ghost before = s@;
            s.push(status);
            proof {
                let n = before.len() as int;
                assert(status_first(s@, u0, n));
                lemma_status_at(s@, u0, n);
                assert forall|u: Seq<char>| u != u0 implies #[trigger] status_of(s@, u) == status_of(
                    before,
                    u,
                ) by {
                    lemma_status_frame(before, s@, u);
                }
            }
        },
    }
}

/// Forgets the status of `url` (`HashMap::remove`); other URLs keep theirs.
pub fn remove_status(s: &mut Vec<SiteStatus>, url: &String)
    ensures
        status_of(final(s)@, url@) is None,
        forall|u: Seq<char>| u != url@ ==> #[trigger] status_of(final(s)@, u) == status_of(
            old(s)@,
            u,
        ),
{
    let ghost old_s = s@;
    let n = s.len();
    let mut kept: Vec<SiteStatus> = Vec::new();
    let ghost mut idx: Seq<int> = Seq::empty();
    let mut q: usize = 0;
    while q < n
        invariant
            n == old_s.len(),
            s@ == old_s,
            q <= n,
            idx.len() == kept.len(),
            forall|m: int| 0 <= m < idx.len() ==> 0 <= #[trigger] idx[m] < q,
            forall|m: int| 0 <= m < idx.len() ==> kept@[m]@ == old_s[#[trigger] idx[m]]@,
            forall|m: int, p: int| 0 <= m < p < idx.len() ==> idx[m] < idx[p],
            forall|r: int|
                0 <= r < q && old_s[r].url@ != url@ ==> exists|m: int|
                    0 <= m < idx.len() && #[trigger] idx[m] == r,
            forall|m: int| 0 <= m < kept.len() ==> kept@[m].url@ != url@,
        decreases n - q,
    {
        let ghost idx0 = idx;
        if s[q].url != *url {
            kept.push(s[q].clone());
            proof {
                idx = idx.push(q as int);
                assert(idx[idx.len() - 1] == q);
            }
        }
        proof {
            assert forall|r: int| 0 <= r < q + 1 && old_s[r].url@ != url@ implies exists|m: int|
                0 <= m < idx.len() && #[trigger] idx[m] == r by {
                if r == q {
                    assert(idx[idx.len() - 1] == r);
                } else {
                    let m = choose|m: int| 0 <= m < idx0.len() && #[trigger] idx0[m] == r;
                    assert(idx[m] == r);
                }
            }
        }
        q += 1;
    }
    *s = kept;
    proof {
        let b = s@;
        assert(!has_status(b, url@));
        assert forall|u: Seq<char>| u != url@ implies #[trigger] status_of(b, u) == status_of(
            old_s,
            u,
        ) by {
            if has_status(old_s, u) {
                lemma_status_first_exists(old_s, u);
                let i = choose|i: int| status_first(old_s, u, i);
                let m = choose|m: int| 0 <= m < idx.len() && #[trigger] idx[m] == i;
                assert forall|p: int| 0 <= p < m implies b[p].url@ != u by {
                    assert(idx[p] < idx[m]);
                    assert(b[p]@ == old_s[idx[p]]@);
                }
                assert(status_first(b, u, m));
                lemma_status_at(b, u, m);
                lemma_status_at(old_s, u, i);
            } else {
                assert forall|p: int| 0 <= p < b.len() implies b[p].url@ != u by {
                    assert(b[p]@ == old_s[idx[p]]@);
                }
            }
        }
    }
}

/// The recorded status of `url`, if it was checked.
pub fn status_for(s: &Vec<SiteStatus>, url: &String) -> (r: Option<SiteStatus>)
    ensures
        match r {
            Some(x) => status_of(s@, url@) == Some(x@),
            None => status_of(s@, url@) is None,
        },
{
    match find_status(s, url) {
        Some(i) => {
            proof {
                lemma_status_at(s@, url@, i as int);
            }
            Some(s[i].clone())
        },
        None => None,
    }
}

/// Whether `url` counts as up: its recorded status, or up when never checked.
pub open spec fn was_up(s: Seq<SiteStatus>, url: Seq<char>) -> bool {
    match status_of(s, url) {
        Some(v) => v.is_up,
        None => true,
    }
}

/// The status kept after a check: a site that is up keeps the time it was
/// last seen down.
pub open spec fn kept_status(prev: Option<StatusView>, checked: StatusView) -> StatusView {
    if checked.is_up {
        StatusView {
            last_down: match prev {
                Some(p) => p.last_down,
                None => None,
            },
            ..checked
        }
    } else {
        checked
    }
}

/// The alert text for a site that went down: its name, else its URL.
pub open spec fn site_down_text(url: Seq<char>, name: Option<Seq<char>>) -> Seq<char> {
    let who = match name {
        Some(n) => n,
        None => url,
    };
    who + " is not responding"@
}

/// What one check changed: whether the site's up/down state flipped, and
/// the alert to show when it went down.
pub struct SiteCheckResult {
    pub changed: bool,
    pub alert: Option<String>,
}

/// Records the outcome of checking a monitored site at `now`.
pub fn apply_site_check(
    statuses: &mut Vec<SiteStatus>,
    monitor: &SiteMonitor,
    outcome: Option<u64>,
    now: i64,
) -> (r: SiteCheckResult)
    ensures
        ({
            let url = monitor.url@;
            let up_before = was_up(old(statuses)@, url);
            let checked = checked_status(url, outcome, now);
            &&& r.changed == (up_before != checked.is_up)
            &&& (up_before && !checked.is_up) ==> r.alert is Some && r.alert->0@ == site_down_text(
                url,
                opt_view(monitor.name),
            )
            &&& !(up_before && !checked.is_up) ==> r.alert is None
            &&& status_of(final(statuses)@, url) == Some(
                kept_status(status_of(old(statuses)@, url), checked),
            )
            &&& forall|u: Seq<char>| u != url ==> #[trigger] status_of(final(statuses)@, u)
                == status_of(old(statuses)@, u)
        }),
{
    let prev = match find_status(statuses, &monitor.url) {
        Some(i) => {
            proof {
                lemma_status_at(statuses@, monitor.url@, i as int);
            }
            Some(statuses[i].clone())
        },
        None => None,
    };
    let up_before = match &prev {
        Some(p) => p.is_up,
        None => true,
    };
    let status = check_site_status(&monitor.url, outcome, now);
    let is_up = status.is_up;
    let final_status = if is_up {
        let last_down = match &prev {
            Some(p) => p.last_down,
            None => None,
        };
        SiteStatus { last_down, ..status }
    } else {
        status
    };
    let alert = if up_before && !is_up {
        let mut t = match &monitor.name {
            Some(n) => n.clone(),
            None => monitor.url.clone(),
        };
        push_str(&mut t, " is not responding");
        Some(t)
    } else {
        None
    };
    assert(final_status@ == kept_status(status_of(statuses@, monitor.url@), status@));
    set_status(statuses, final_status);
    SiteCheckResult { changed: up_before != is_up, alert }
}

/// The enabled monitors, in order.
pub open spec fn enabled_views(s: Seq<MonitorView>) -> Seq<MonitorView>
    decreases s.len(),
{
    if s.len() == 0 {
        Seq::empty()
    } else if s.last().enabled {
        enabled_views(s.drop_last()).push(s.last())
    } else {
        enabled_views(s.drop_last())
    }
}

/// The monitors that are checked: the enabled ones, in order, with their
/// URLs, names and flags.
pub fn enabled_monitors(monitors: &Vec<SiteMonitor>) -> (r: Vec<SiteMonitor>)
    ensures
        monitor_views(r@) == enabled_views(monitor_views(monitors@)),
{
    let ghost mv = monitor_views(monitors@);
    let mut r: Vec<SiteMonitor> = Vec::new();
    let mut i: usize = 0;
    while i < monitors.len()
        invariant
            i <= monitors.len(),
            mv == monitor_views(monitors@),
            monitor_views(r@) == enabled_views(mv.subrange(0, i as int)),
        decreases monitors.len() - i,
    {
        assert(mv.subrange(0, i + 1).drop_last() =~= mv.subrange(0, i as int));
        assert(mv.subrange(0, i + 1).last() == monitors@[i as int]@);
        if monitors[i].enabled {
            let ghost before = monitor_views(r@);
            r.push(monitors[i].clone());
            assert(monitor_views(r@) =~= before.push(monitors@[i as int]@));
        }
        i += 1;
    }
    assert(mv.subrange(0, monitors.len() as int) =~= mv);
    r
}

} // verus!
