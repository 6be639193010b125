//! Decisions of the background service: which periodic jobs run on a tick,
//! when a high latency raises an alert, and how speed test results are kept.
use vstd::prelude::*;
use crate::text::{decimal, push_str, push_signed_decimal, signed_decimal, text};
use crate::types::{SpeedTestResult, SpeedTestView, speed_test_views, opt_view, copy_opt, DAY_US, SECOND_US};
use crate::tray::{ms_text, push_ms};

verus! {

/// The jobs that run on one tick of the background service.
pub struct TickPlan {
    pub check_sites: bool,
    pub check_ip: bool,
    pub save_history: bool,
}

/// Tick counting of the background service: one tick per ping round.
pub struct ServiceClock {
    pub tick_count: u64,
    pub last_interval_secs: u64,
}

/// Jobs for tick `tick` after a ping interval of `last_interval_secs`: the
/// public IP is looked up on the first tick; with the 10-second interval
/// sites are checked every 6th tick, the public IP on ticks 3 past that,
/// and history saved every 30th; with any other interval every 2nd tick,
/// odd ticks, and every 10th.
pub open spec fn plan_for(tick: u64, last_interval_secs: u64) -> TickPlan {
    let fast = last_interval_secs == 10;
    let site_every: u64 = if fast { 6 } else { 2 };
    let ip_offset: u64 = if fast { 3 } else { 1 };
    let save_every: u64 = if fast { 30 } else { 10 };
    TickPlan {
        check_sites: tick % site_every == 0,
        check_ip: tick == 1 || tick % site_every == ip_offset,
        save_history: tick % save_every == 0,
    }
}

impl ServiceClock {
    /// A service that has not ticked yet, assuming the 10-second interval.
    pub fn new() -> (r: ServiceClock)
        ensures
            r.tick_count == 0,
            r.last_interval_secs == 10,
    {
        ServiceClock { tick_count: 0, last_interval_secs: 10 }
    }

    /// Counts one tick (wrapping) and returns the jobs it runs.
    pub fn next_tick(&mut self) -> (r: TickPlan)
        ensures
            final(self).tick_count == (if old(self).tick_count == u64::MAX {
                0
            } else {
                old(self).tick_count + 1
            }),
            final(self).last_interval_secs == old(self).last_interval_secs,
            r == plan_for(final(self).tick_count, final(self).last_interval_secs),
    {
        self.tick_count = self.tick_count.wrapping_add(1);
        let fast = self.last_interval_secs == 10;
        let site_every: u64 = if fast {
            6
        } else {
            2
        };
        let ip_offset: u64 = if fast {
            3
        } else {
            1
        };
        let save_every: u64 = if fast {
            30
        } else {
            10
        };
        TickPlan {
            check_sites: self.tick_count % site_every == 0,
            check_ip: self.tick_count == 1 || self.tick_count % site_every == ip_offset,
            save_history: self.tick_count % save_every == 0,
        }
    }

    /// Remembers the interval the service sleeps before the next tick.
    pub fn set_interval(&mut self, interval_secs: u32)
        ensures
            final(self).last_interval_secs == interval_secs,
            final(self).tick_count == old(self).tick_count,
    {
        self.last_interval_secs = interval_secs as u64;
    }
}

/// A latency alert is due when the latency exceeds the threshold and no
/// alert was shown in the last 60 whole seconds.
pub open spec fn latency_alert_due(
    latency_us: u64,
    threshold_ms: u32,
    last: Option<i64>,
    now: i64,
) -> bool {
    latency_us > threshold_ms * 1000 && match last {
        Some(l) => now - l >= 61 * SECOND_US,
        None => true,
    }
}

/// Decides the high-latency alert for a primary-target ping at `now`; when
/// due, the alert time is recorded and its text returned.
pub fn latency_alert(
    latency_us: Option<u64>,
    threshold_ms: u32,
    last_notification: &mut Option<i64>,
    now: i64,
) -> (r: Option<String>)
    ensures
        match latency_us {
            Some(l) if latency_alert_due(l, threshold_ms, *old(last_notification), now) => {
                &&& r is Some
                &&& r->0@ == "High latency detected: "@ + ms_text(l)
                &&& *final(last_notification) == Some(now)
            },
            _ => r is None && *final(last_notification) == *old(last_notification),
        },
{
    match latency_us {
        Some(l) => {
            if (l as u128) > (threshold_ms as u128) * 1000 {
                let due = match *last_notification {
                    Some(last) => (now as i128) - (last as i128) >= 61 * (SECOND_US as i128),
                    None => true,
                };
                if due {
                    *last_notification = Some(now);
                    let mut s = text("High latency detected: ");
                    push_ms(&mut s, l);
                    return Some(s);
                }
            }
            None
        },
        None => None,
    }
}

/// Marks a speed test as running; refused while one runs.
pub fn begin_speed_test(running: &mut bool) -> (r: Result<(), String>)
    ensures
        *old(running) ==> r is Err && r->Err_0@ == "A speed test is already running"@
            && *final(running),
        !*old(running) ==> r is Ok && *final(running),
{
    if *running {
        return Err(text("A speed test is already running"));
    }
    *running = true;
    Ok(())
}

/// The error for a measurement that reports one.
pub fn speed_test_failure(domain: &String, code: i64) -> (r: String)
    ensures
        r@ == "networkQuality failed ("@ + domain@ + ", code "@ + signed_decimal(code as int) + ")"@,
{
    let mut s = text("networkQuality failed (");
    push_str(&mut s, domain.as_str());
    push_str(&mut s, ", code ");
    push_signed_decimal(&mut s, code);
    push_str(&mut s, ")");
    s
}

/// Id of a speed test taken at `now`: "speed-" and the microsecond timestamp.
pub open spec fn speed_test_id(now: i64) -> Seq<char> {
    "speed-"@ + signed_decimal(now as int)
}

/// Drops the leading speed tests taken before `cutoff`.
pub open spec fn drop_old_tests(s: Seq<SpeedTestView>, cutoff: int) -> Seq<SpeedTestView>
    decreases s.len(),
{
    if s.len() > 0 && s[0].timestamp < cutoff {
        drop_old_tests(s.drop_first(), cutoff)
    } else {
        s
    }
}

/// The measurements of one network quality run, in whole units: throughputs
/// in bits per second, latencies in microseconds, responsiveness in round
/// trips per minute.
pub struct Measurements {
    pub download_bps: u64,
    pub upload_bps: u64,
    pub loaded_latency_us: Option<u64>,
    pub idle_latency_us: Option<u64>,
    pub responsiveness_rpm: Option<u64>,
    pub interface_name: Option<String>,
}

/// The measurements of a run, or the error its report names: a report with
/// an error domain is a failure with that domain and its error code (0
/// when it gives none).
pub fn measurements_or_error(
    error_domain: Option<String>,
    error_code: Option<i64>,
    m: Measurements,
) -> (r: Result<Measurements, String>)
    ensures
        match error_domain {
            Some(d) => r is Err && r->Err_0@ == "networkQuality failed ("@ + d@ + ", code "@
                + signed_decimal(
                match error_code {
                    Some(c) => c as int,
                    None => 0,
                },
            ) + ")"@,
            None => r == Ok::<Measurements, String>(m),
        },
{
    match error_domain {
        Some(d) => {
            let code: i64 = match error_code {
                Some(c) => c,
                None => 0,
            };
            Err(speed_test_failure(&d, code))
        },
        None => Ok(m),
    }
}

proof fn lemma_drop_tests_step(s: Seq<SpeedTestView>, cutoff: int, i: int)
    requires
        0 <= i < s.len(),
        s[i].timestamp < cutoff,
    ensures
        drop_old_tests(s.subrange(i, s.len() as int), cutoff) == drop_old_tests(
            s.subrange(i + 1, s.len() as int),
            cutoff,
        ),
{
    let t = s.subrange(i, s.len() as int);
    assert(t.drop_first() =~= s.subrange(i + 1, s.len() as int));
}

/// Records a speed test taken at `now` in session `session_id`, then drops
/// the leading results older than 24 hours.
pub fn record_speed_test(
    tests: &mut Vec<SpeedTestResult>,
    session_id: Option<String>,
    m: Measurements,
    now: i64,
) -> (r: SpeedTestResult)
    ensures
        r@ == (SpeedTestView {
            id: speed_test_id(now),
            timestamp: now,
            session_id: opt_view(session_id),
            download_bps: m.download_bps,
            upload_bps: m.upload_bps,
            loaded_latency_us: m.loaded_latency_us,
            idle_latency_us: m.idle_latency_us,
            responsiveness_rpm: m.responsiveness_rpm,
            interface_name: opt_view(m.interface_name),
        }),
        speed_test_views(final(tests)@) == drop_old_tests(
            speed_test_views(old(tests)@).push(r@),
            now - DAY_US,
        ),
{
    let mut id = text("speed-");
    push_signed_decimal(&mut id, now);
    let result = SpeedTestResult {
        id,
        timestamp: now,
        session_id,
        download_bps: m.download_bps,
        upload_bps: m.upload_bps,
        loaded_latency_us: m.loaded_latency_us,
        idle_latency_us: m.idle_latency_us,
        responsiveness_rpm: m.responsiveness_rpm,
        interface_name: m.interface_name,
    };
    let ghost before = speed_test_views(tests@);
    tests.push(result.clone());
    let ghost sv = speed_test_views(tests@);
    assert(sv =~= before.push(result@));
    let cutoff: i128 = (now as i128) - (DAY_US as i128);
    let n = tests.len();
    let mut i: usize = 0;
    assert(sv.subrange(0, n as int) =~= sv);
    while i < n && (tests[i].timestamp as i128) < cutoff
        invariant
            n == tests.len(),
            i <= n,
            sv == speed_test_views(tests@),
            drop_old_tests(sv, cutoff as int) == drop_old_tests(
                sv.subrange(i as int, n as int),
                cutoff as int,
            ),
        decreases n - i,
    {
        proof {
            lemma_drop_tests_step(sv, cutoff as int, i as int);
        }
        i += 1;
    }
    proof {
        let t = sv.subrange(i as int, n as int);
        if i < n {
            assert(t[0] == sv[i as int]);
        }
        assert(drop_old_tests(t, cutoff as int) == t);
    }
    let tail = tests.split_off(i);
    *tests = tail;
    assert(speed_test_views(tests@) =~= sv.subrange(i as int, n as int));
    result
}

} // verus!
