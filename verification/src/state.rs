//! The monitor's whole state and the steps that touch several parts of it:
//! a public-IP check, a recorded ping, a session opened after wake, and
//! speed test bookkeeping.
use vstd::prelude::*;
use crate::text::text;
use crate::types::{
    DisplayMode, IpInfo, IpInfoView, NetworkChangeEvent, NetworkChangeType, ChangeView,
    NetworkStability, VpnProtectionSettings, TrayState, PingResult, PingMethod, PingView,
    SiteMonitor, SiteStatus, NetworkSession, SessionView, SpeedTestResult, SpeedTestView,
    opt_view, string_views, monitor_views, session_views, speed_test_views, change_views,
    copy_sessions, copy_monitors, copy_speed_tests, copy_strings, SECOND_US, DAY_US,
};
use crate::history::{
    TargetHistory, history_view, pings_of, has_target, record_ping, recorded_pings, day_cutoff,
    copy_history,
};
use crate::sessions::{
    NetworkAlias, alias_views, copy_aliases, ensure_network_session_at, session_step, opt_session,
};
use crate::network::{
    change_kind, change_event, vpn_alert_allowed, vpn_alert_text, detect_network_change_at,
    should_send_vpn_notification_at, vpn_alert_message, Alert,
};
use crate::restore::{SavedData, LoadedData};
use crate::tray::{TrayDraw, icon_for, ping_title, shown, tray_state_for, update_tray_if_changed};
use crate::service::{latency_alert, latency_alert_due, record_speed_test, Measurements, speed_test_id, drop_old_tests};
use crate::tray::ms_text;
use crate::history::{latest_ping, pings_for};
use crate::stats::{chosen_target, window_stats, PingStatistics, get_statistics_at, stats_for, stats_tuple};
use crate::tray::{ping_row, recent_stats_row, status_rows_at};
use crate::sites::{
    SiteCheckResult, apply_site_check, was_up, site_down_text, status_of, kept_status,
    checked_status, remove_status,
};
use crate::settings::{remove_site_monitor, monitors_without};
use crate::types::MINUTE_US;

verus! {

/// Application state shared by the commands and the background service.
pub struct AppState {
    pub ping_history: Vec<TargetHistory>,
    pub targets: Vec<String>,
    pub primary_target: String,
    pub notification_threshold_ms: u32,
    pub last_notification: Option<i64>,
    pub display_mode: DisplayMode,
    pub ip_info: Option<IpInfo>,
    pub ip_info_last_check: Option<i64>,
    pub site_monitors: Vec<SiteMonitor>,
    pub site_statuses: Vec<SiteStatus>,
    pub vpn_settings: VpnProtectionSettings,
    pub network_stability: NetworkStability,
    pub network_change_history: Vec<NetworkChangeEvent>,
    pub last_ip_check_was_manual: bool,
    pub last_vpn_notification: Option<i64>,
    pub last_tray_state: Option<TrayState>,
    pub ping_interval_secs: u32,
    pub speed_test_duration_secs: u32,
    pub network_sessions: Vec<NetworkSession>,
    pub current_session_id: Option<String>,
    pub network_aliases: Vec<NetworkAlias>,
    pub speed_tests: Vec<SpeedTestResult>,
    pub speed_test_running: bool,
}

pub open spec fn ip_view(o: Option<IpInfo>) -> Option<IpInfoView> {
    match o {
        Some(i) => Some(i@),
        None => None,
    }
}

/// `d` holds what `s` saves: its history, targets, settings, monitors,
/// sessions, aliases and speed tests.
pub open spec fn saved_from(d: SavedData, s: AppState) -> bool {
    &&& history_view(d.history@) == history_view(s.ping_history@)
    &&& string_views(d.targets@) == string_views(s.targets@)
    &&& d.primary_target@ == s.primary_target@
    &&& d.notification_threshold_ms == s.notification_threshold_ms
    &&& monitor_views(d.site_monitors@) == monitor_views(s.site_monitors@)
    &&& d.vpn_settings.enabled == s.vpn_settings.enabled
    &&& d.vpn_settings.check_interval_secs == s.vpn_settings.check_interval_secs
    &&& d.vpn_settings.alert_on_country_change == s.vpn_settings.alert_on_country_change
    &&& d.vpn_settings.alert_on_ip_change == s.vpn_settings.alert_on_ip_change
    &&& opt_view(d.vpn_settings.expected_country) == opt_view(s.vpn_settings.expected_country)
    &&& d.ping_interval_secs == s.ping_interval_secs
    &&& d.speed_test_duration_secs == s.speed_test_duration_secs
    &&& session_views(d.network_sessions@) == session_views(s.network_sessions@)
    &&& alias_views(d.network_aliases@) == alias_views(s.network_aliases@)
    &&& speed_test_views(d.speed_tests@) == speed_test_views(s.speed_tests@)
}

impl AppState {
    /// The settings are unchanged.
    pub open spec fn same_config(self, o: AppState) -> bool {
        &&& self.targets == o.targets
        &&& self.primary_target == o.primary_target
        &&& self.notification_threshold_ms == o.notification_threshold_ms
        &&& self.display_mode == o.display_mode
        &&& self.site_monitors == o.site_monitors
        &&& self.vpn_settings == o.vpn_settings
        &&& self.ping_interval_secs == o.ping_interval_secs
        &&& self.speed_test_duration_secs == o.speed_test_duration_secs
        &&& self.network_aliases == o.network_aliases
    }

    /// Site statuses, speed tests and the latency alert state are unchanged.
    pub open spec fn same_monitoring(self, o: AppState) -> bool {
        &&& self.site_statuses == o.site_statuses
        &&& self.speed_tests == o.speed_tests
        &&& self.speed_test_running == o.speed_test_running
        &&& self.last_notification == o.last_notification
        &&& self.last_tray_state == o.last_tray_state
    }

    /// The public-IP tracking is unchanged.
    pub open spec fn same_ip_tracking(self, o: AppState) -> bool {
        &&& self.ip_info == o.ip_info
        &&& self.ip_info_last_check == o.ip_info_last_check
        &&& self.network_stability == o.network_stability
        &&& self.network_change_history == o.network_change_history
        &&& self.last_ip_check_was_manual == o.last_ip_check_was_manual
        &&& self.last_vpn_notification == o.last_vpn_notification
    }

    /// One `ensure_network_session` step at `now` from `self` to `o`.
    pub open spec fn session_step_to(
        self,
        o: AppState,
        info: IpInfoView,
        force_new: bool,
        now: i64,
        r: Option<SessionView>,
    ) -> bool {
        session_step(
            session_views(self.network_sessions@),
            opt_view(self.current_session_id),
            history_view(self.ping_history@),
            self.network_aliases@,
            info,
            force_new,
            now,
            r,
            session_views(o.network_sessions@),
            opt_view(o.current_session_id),
            history_view(o.ping_history@),
        )
    }

    /// State built from loaded data; everything not saved starts empty.
    pub fn from_loaded(l: LoadedData) -> (r: AppState)
        ensures
            r.ping_history == l.history,
            r.targets == l.targets,
            r.primary_target == l.primary_target,
            r.site_monitors == l.site_monitors,
            r.vpn_settings == l.vpn_settings,
            r.ping_interval_secs == l.ping_interval_secs,
            r.network_sessions == l.network_sessions,
            r.network_aliases == l.network_aliases,
            r.speed_tests == l.speed_tests,
            r.speed_test_duration_secs == l.speed_test_duration_secs,
            r.notification_threshold_ms == l.notification_threshold_ms,
            r.display_mode == DisplayMode::IconAndPing,
            r.current_session_id is None,
            r.ip_info is None,
            r.ip_info_last_check is None,
            r.last_notification is None,
            r.site_statuses@.len() == 0,
            r.network_stability.changes_last_hour == 0,
            r.network_stability.last_country_change is None,
            r.network_stability.last_ip_change is None,
            r.network_change_history@.len() == 0,
            !r.last_ip_check_was_manual,
            r.last_vpn_notification is None,
            r.last_tray_state is None,
            !r.speed_test_running,
    {
        AppState {
            ping_history: l.history,
            targets: l.targets,
            primary_target: l.primary_target,
            notification_threshold_ms: l.notification_threshold_ms,
            last_notification: None,
            display_mode: DisplayMode::IconAndPing,
            ip_info: None,
            ip_info_last_check: None,
            site_monitors: l.site_monitors,
            site_statuses: Vec::new(),
            vpn_settings: l.vpn_settings,
            network_stability: NetworkStability::default(),
            network_change_history: Vec::new(),
            last_ip_check_was_manual: false,
            last_vpn_notification: None,
            last_tray_state: None,
            ping_interval_secs: l.ping_interval_secs,
            speed_test_duration_secs: l.speed_test_duration_secs,
            network_sessions: l.network_sessions,
            current_session_id: None,
            network_aliases: l.network_aliases,
            speed_tests: l.speed_tests,
            speed_test_running: false,
        }
    }

    /// The data saved to disk.
    pub fn saved_data(&self) -> (r: SavedData)
        ensures
            saved_from(r, *self),
    {
        SavedData {
            history: copy_history(&self.ping_history),
            targets: copy_strings(&self.targets),
            primary_target: self.primary_target.clone(),
            notification_threshold_ms: self.notification_threshold_ms,
            site_monitors: copy_monitors(&self.site_monitors),
            vpn_settings: self.vpn_settings.clone(),
            ping_interval_secs: self.ping_interval_secs,
            speed_test_duration_secs: self.speed_test_duration_secs,
            network_sessions: copy_sessions(&self.network_sessions),
            network_aliases: copy_aliases(&self.network_aliases),
            speed_tests: copy_speed_tests(&self.speed_tests),
        }
    }

    /// `ensure_network_session` at `now`.
    pub fn ensure_network_session_at(&mut self, info: &IpInfo, force_new: bool, now: i64) -> (r:
        Option<NetworkSession>)
        ensures
            old(self).session_step_to(*final(self), info@, force_new, now, opt_session(r)),
            final(self).same_config(*old(self)),
            final(self).same_monitoring(*old(self)),
            final(self).same_ip_tracking(*old(self)),
    {
        ensure_network_session_at(
            &mut self.network_sessions,
            &mut self.current_session_id,
            &self.network_aliases,
            &mut self.ping_history,
            info,
            force_new,
            now,
        )
    }

}

/// Network stability after a change of kind `k` at `now`: country and IP
/// changes are counted (saturating) and timed; others leave it as it was.
pub open spec fn stability_after(s: NetworkStability, k: NetworkChangeType, now: i64) -> NetworkStability {
    let counted: u32 = if s.changes_last_hour == u32::MAX {
        u32::MAX
    } else {
        (s.changes_last_hour + 1) as u32
    };
    match k {
        NetworkChangeType::CountryChanged => NetworkStability {
            changes_last_hour: counted,
            last_country_change: Some(now),
            ..s
        },
        NetworkChangeType::IpChanged => NetworkStability {
            changes_last_hour: counted,
            last_ip_change: Some(now),
            ..s
        },
        _ => s,
    }
}

/// The change history after recording `e`: the last 100 changes are kept.
pub open spec fn capped_changes(h: Seq<ChangeView>, e: ChangeView) -> Seq<ChangeView> {
    if h.len() + 1 > 100 {
        h.push(e).drop_first()
    } else {
        h.push(e)
    }
}

/// What a public-IP check reported: the change it saw, the VPN alert to
/// show (title and body), and the session it opened.
pub struct IpCheckOutcome {
    pub change: Option<NetworkChangeEvent>,
    pub alert: Option<Alert>,
    pub session: Option<NetworkSession>,
}

impl AppState {
    /// One public-IP check at `now` that found `current`, from `self` to `o`
    /// with outcome `r`.
    ///
    /// Compared with the previous lookup (when there is one), a change is
    /// reported as expected when the user asked for the check; country and
    /// IP changes update the stability record; the change joins the last
    /// 100; a VPN alert is shown when protection is on and the alert policy
    /// allows it. Then the session for `current` is ensured and `current`
    /// becomes the latest lookup.
    pub open spec fn ip_check_step(self, o: AppState, current: IpInfoView, now: i64, r: IpCheckOutcome) -> bool {
        let prev = ip_view(self.ip_info);
        let manual = self.last_ip_check_was_manual;
        let kind = match prev {
            Some(p) => change_kind(p, current),
            None => None,
        };
        let alerted = match (prev, kind) {
            (Some(p), Some(k)) => self.vpn_settings.enabled && vpn_alert_allowed(
                change_event(k, p, current, now, manual),
                self.vpn_settings.alert_on_country_change,
                self.vpn_settings.alert_on_ip_change,
                self.last_vpn_notification,
                now,
            ),
            _ => false,
        };
        &&& match (prev, kind) {
            (Some(p), Some(k)) => {
                &&& r.change is Some
                &&& r.change->0@ == change_event(k, p, current, now, manual)
                &&& o.network_stability == stability_after(
                    self.network_stability,
                    k,
                    now,
                )
                &&& change_views(o.network_change_history@) == capped_changes(
                    change_views(self.network_change_history@),
                    change_event(k, p, current, now, manual),
                )
                &&& alerted ==> r.alert is Some && (r.alert->0.title@, r.alert->0.body@)
                    == vpn_alert_text(
                    k,
                    p.country,
                    current.country,
                    current.ip,
                ) && o.last_vpn_notification == Some(now)
            },
            _ => {
                &&& r.change is None
                &&& o.network_stability == self.network_stability
                &&& o.network_change_history == self.network_change_history
            },
        }
        &&& !alerted ==> r.alert is None && o.last_vpn_notification == self.last_vpn_notification
        &&& !o.last_ip_check_was_manual
        &&& ip_view(o.ip_info) == Some(current)
        &&& o.ip_info_last_check == Some(now)
        &&& self.session_step_to(o, current, false, now, opt_session(r.session))
        &&& o.same_config(self)
        &&& o.same_monitoring(self)
    }

    /// Applies a public-IP check made at `now` that found `current`.
    pub fn apply_ip_check_at(&mut self, current: IpInfo, now: i64) -> (r: IpCheckOutcome)
        ensures
            old(self).ip_check_step(*final(self), current@, now, r),
    {
        let is_manual = self.last_ip_check_was_manual;
        self.last_ip_check_was_manual = false;
        let mut change: Option<NetworkChangeEvent> = None;
        let mut alert: Option<Alert> = None;
        let ghost s0 = *self;
        match &self.ip_info {
            Some(prev) => {
                match detect_network_change_at(prev, &current, is_manual, now) {
                    Some(ev) => {
                        let kind = ev.change_type;
                        match kind {
                            NetworkChangeType::CountryChanged => {
                                self.network_stability.last_country_change = Some(now);
                                self.network_stability.changes_last_hour =
                                    self.network_stability.changes_last_hour.saturating_add(1);
                            },
                            NetworkChangeType::IpChanged => {
                                self.network_stability.last_ip_change = Some(now);
                                self.network_stability.changes_last_hour =
                                    self.network_stability.changes_last_hour.saturating_add(1);
                            },
                            _ => {},
                        }
                        let ghost before = change_views(self.network_change_history@);
                        self.network_change_history.push(ev.clone());
                        assert(change_views(self.network_change_history@) =~= before.push(ev@));
                        if self.network_change_history.len() > 100 {
                            let ghost pushed = change_views(self.network_change_history@);
                            self.network_change_history.remove(0);
                            assert(change_views(self.network_change_history@) =~= pushed.drop_first());
                        }
                        if self.vpn_settings.enabled && should_send_vpn_notification_at(
                            &ev,
                            &self.vpn_settings,
                            self.last_vpn_notification,
                            now,
                        ) {
                            alert = Some(vpn_alert_message(kind, prev, &current));
                            self.last_vpn_notification = Some(now);
                        }
                        change = Some(ev);
                    },
                    None => {},
                }
            },
            None => {},
        }
        let ghost s1 = *self;
        let session = self.ensure_network_session_at(&current, false, now);
        self.ip_info = Some(current);
        self.ip_info_last_check = Some(now);
        assert(s0.session_step_to(*self, current@, false, now, opt_session(session)));
        IpCheckOutcome { change, alert, session }
    }
}

} // verus!

verus! {

/// A lookup younger than five minutes (in whole seconds) is reused.
pub open spec fn lookup_fresh(checked_at: i64, now: i64) -> bool {
    now - checked_at < 300 * SECOND_US
}

/// A reused public-IP lookup and the session it ensured.
pub struct CachedLookup {
    pub info: IpInfo,
    pub session: Option<NetworkSession>,
}

/// What a starting speed test runs with: the current session and the duration.
pub struct SpeedTestStart {
    pub session_id: Option<String>,
    pub duration_secs: u32,
}

/// What recording one ping produced: the stored result, what to redraw in
/// the menu bar, and the high-latency alert to show. Only pings of the
/// primary target redraw or alert.
pub struct PingRecord {
    pub result: PingResult,
    pub is_primary: bool,
    pub tray: Option<TrayDraw>,
    pub alert: Option<String>,
}

impl AppState {
    /// Asking for the cached lookup at `now` from `self` to `o` with answer
    /// `r`: a lookup younger than five minutes is reused, unless a refresh is
    /// forced, and its session ensured; otherwise nothing changes.
    pub open spec fn cache_step(self, o: AppState, force_refresh: bool, now: i64, r: Option<CachedLookup>) -> bool {
        let fresh = !force_refresh && self.ip_info is Some && self.ip_info_last_check is Some
            && lookup_fresh(self.ip_info_last_check->0, now);
        &&& fresh ==> {
            &&& r is Some
            &&& r->0.info@ == self.ip_info->0@
            &&& self.session_step_to(o, self.ip_info->0@, false, now, opt_session(r->0.session))
        }
        &&& !fresh ==> r is None && o == self
        &&& o.same_config(self)
        &&& o.same_monitoring(self)
        &&& o.same_ip_tracking(self)
    }

    /// The cached public-IP lookup, reused when younger than five minutes and
    /// no refresh is forced; reusing it also ensures its session.
    pub fn cached_ip_info_at(&mut self, force_refresh: bool, now: i64) -> (r: Option<CachedLookup>)
        ensures
            old(self).cache_step(*final(self), force_refresh, now, r),
    {
        if force_refresh {
            return None;
        }
        let info = match &self.ip_info {
            Some(i) => i.clone(),
            None => {
                return None;
            },
        };
        let checked_at = match self.ip_info_last_check {
            Some(t) => t,
            None => {
                return None;
            },
        };
        if (now as i128) - (checked_at as i128) >= 300 * (SECOND_US as i128) {
            return None;
        }
        let session = self.ensure_network_session_at(&info, false, now);
        Some(CachedLookup { info, session })
    }

    /// Stores a fresh public-IP lookup made at `now` and ensures its session.
    pub fn store_ip_lookup_at(&mut self, info: IpInfo, now: i64) -> (r: Option<NetworkSession>)
        ensures
            ip_view(final(self).ip_info) == Some(info@),
            final(self).ip_info_last_check == Some(now),
            old(self).session_step_to(*final(self), info@, false, now, opt_session(r)),
            final(self).same_config(*old(self)),
            final(self).same_monitoring(*old(self)),
            final(self).network_stability == old(self).network_stability,
            final(self).network_change_history == old(self).network_change_history,
            final(self).last_ip_check_was_manual == old(self).last_ip_check_was_manual,
            final(self).last_vpn_notification == old(self).last_vpn_notification,
    {
        let session = self.ensure_network_session_at(&info, false, now);
        self.ip_info = Some(info);
        self.ip_info_last_check = Some(now);
        session
    }

    /// After the system wakes, a new session is forced for the last lookup.
    pub fn session_after_wake_at(&mut self, now: i64) -> (r: Option<NetworkSession>)
        ensures
            match ip_view(old(self).ip_info) {
                Some(i) => old(self).session_step_to(*final(self), i, true, now, opt_session(r)),
                None => r is None && *final(self) == *old(self),
            },
            final(self).same_config(*old(self)),
            final(self).same_monitoring(*old(self)),
            final(self).same_ip_tracking(*old(self)),
    {
        match &self.ip_info {
            Some(i) => {
                let info = i.clone();
                self.ensure_network_session_at(&info, true, now)
            },
            None => None,
        }
    }

    /// Recording a ping of `target` at `now` from `self` to `o` with record
    /// `r`: the ping joins the target's last 24 hours in the current session;
    /// for the primary target the menu bar is redrawn when its state changed
    /// and the high-latency alert is decided.
    pub open spec fn ping_step(
        self,
        o: AppState,
        target: Seq<char>,
        latency_us: Option<u64>,
        method: Option<PingMethod>,
        now: i64,
        r: PingRecord,
    ) -> bool {
        &&& r.result@ == (PingView {
            timestamp: now,
            latency_us,
            target,
            method,
            session_id: opt_view(self.current_session_id),
        })
        &&& pings_of(o.ping_history@, target) == recorded_pings(
            pings_of(self.ping_history@, target),
            r.result@,
            day_cutoff(now),
        )
        &&& forall|k: Seq<char>|
            k != target ==> #[trigger] pings_of(o.ping_history@, k) == pings_of(self.ping_history@, k)
        &&& r.is_primary == (target == self.primary_target@)
        &&& !r.is_primary ==> {
            &&& r.tray is None
            &&& r.alert is None
            &&& o.last_tray_state == self.last_tray_state
            &&& o.last_notification == self.last_notification
        }
        &&& r.is_primary ==> {
            let icon = if self.display_mode == DisplayMode::PingOnly {
                crate::types::TrayIconType::Transparent
            } else {
                icon_for(latency_us)
            };
            &&& match self.last_tray_state {
                Some(last) if last.icon_type == icon && last.title@ == ping_title(latency_us) => {
                    r.tray is None && o.last_tray_state == self.last_tray_state
                },
                _ => {
                    &&& r.tray is Some
                    &&& (r.tray->0.icon, r.tray->0.title@) == shown(
                        self.display_mode,
                        icon,
                        ping_title(latency_us),
                    )
                    &&& o.last_tray_state is Some
                    &&& o.last_tray_state->0.icon_type == icon
                    &&& o.last_tray_state->0.title@ == ping_title(latency_us)
                },
            }
            &&& match latency_us {
                Some(l) if latency_alert_due(
                    l,
                    self.notification_threshold_ms,
                    self.last_notification,
                    now,
                ) => r.alert is Some && r.alert->0@ == "High latency detected: "@ + ms_text(l)
                    && o.last_notification == Some(now),
                _ => r.alert is None && o.last_notification == self.last_notification,
            }
        }
        &&& o.same_config(self)
        &&& o.same_ip_tracking(self)
        &&& o.network_sessions == self.network_sessions
        &&& o.current_session_id == self.current_session_id
        &&& o.site_statuses == self.site_statuses
        &&& o.speed_tests == self.speed_tests
        &&& o.speed_test_running == self.speed_test_running
    }

    /// Records a ping of `target` taken at `now` (see `ping_step`).
    pub fn record_ping_at(
        &mut self,
        target: &String,
        latency_us: Option<u64>,
        method: Option<PingMethod>,
        now: i64,
    ) -> (r: PingRecord)
        ensures
            old(self).ping_step(*final(self), target@, latency_us, method, now, r),
    {
        let session_id = crate::types::copy_opt(&self.current_session_id);
        let result = PingResult {
            timestamp: now,
            latency_us,
            target: target.clone(),
            method,
            session_id,
        };
        record_ping(&mut self.ping_history, result.clone(), now);
        let is_primary = *target == self.primary_target;
        if !is_primary {
            return PingRecord { result, is_primary, tray: None, alert: None };
        }
        let new_state = tray_state_for(self.display_mode, latency_us);
        let tray = update_tray_if_changed(&new_state, &mut self.last_tray_state, self.display_mode);
        let alert = latency_alert(
            latency_us,
            self.notification_threshold_ms,
            &mut self.last_notification,
            now,
        );
        PingRecord { result, is_primary, tray, alert }
    }

    /// Starts a speed test unless one is running; gives the current session
    /// and the configured duration.
    pub fn begin_speed_test(&mut self) -> (r: Result<SpeedTestStart, String>)
        ensures
            old(self).speed_test_running ==> r is Err && r->Err_0@
                == "A speed test is already running"@ && *final(self) == *old(self),
            !old(self).speed_test_running ==> {
                &&& r is Ok
                &&& opt_view(r->Ok_0.session_id) == opt_view(old(self).current_session_id)
                &&& r->Ok_0.duration_secs == old(self).speed_test_duration_secs
                &&& final(self).speed_test_running
                &&& *final(self) == (AppState { speed_test_running: true, ..*old(self) })
            },
    {
        if self.speed_test_running {
            return Err(text("A speed test is already running"));
        }
        self.speed_test_running = true;
        Ok(
            SpeedTestStart {
                session_id: crate::types::copy_opt(&self.current_session_id),
                duration_secs: self.speed_test_duration_secs,
            },
        )
    }

    /// Marks the running speed test as finished.
    pub fn end_speed_test(&mut self)
        ensures
            *final(self) == (AppState { speed_test_running: false, ..*old(self) }),
    {
        self.speed_test_running = false;
    }

    /// Keeps the result of a speed test that finished at `now`.
    pub fn finish_speed_test_at(&mut self, session_id: Option<String>, m: Measurements, now: i64) -> (r:
        SpeedTestResult)
        ensures
            r@ == (SpeedTestView {
                id: speed_test_id(now),
                timestamp: now,
                session_id: opt_view(session_id),
                download_bps: m.download_bps,
                upload_bps: m.upload_bps,
                loaded_latency_us: m.loaded_latency_us,
                idle_latency_us: m.idle_latency_us,
                responsiveness_rpm: m.responsiveness_rpm,
                interface_name: opt_view(m.interface_name),
            }),
            speed_test_views(final(self).speed_tests@) == drop_old_tests(
                speed_test_views(old(self).speed_tests@).push(r@),
                now - DAY_US,
            ),
            *final(self) == (AppState { speed_tests: final(self).speed_tests, ..*old(self) }),
    {
        record_speed_test(&mut self.speed_tests, session_id, m, now)
    }

}

} // verus!

verus! {

impl Default for AppState {
    /// The state before anything is loaded: target "1.1.1.1" with no pings,
    /// alert threshold 400 ms, icon-and-ping display, 10-second pings,
    /// 7-second speed tests, default VPN settings, nothing else recorded.
    fn default() -> (r: AppState)
        ensures
            history_view(r.ping_history@) == seq![("1.1.1.1"@, Seq::<PingView>::empty())],
            string_views(r.targets@) == seq!["1.1.1.1"@],
            r.primary_target@ == "1.1.1.1"@,
            r.notification_threshold_ms == 400,
            r.last_notification is None,
            r.display_mode == DisplayMode::IconAndPing,
            r.ip_info is None,
            r.ip_info_last_check is None,
            r.site_monitors@.len() == 0,
            r.site_statuses@.len() == 0,
            r.vpn_settings.enabled && r.vpn_settings.check_interval_secs == 60,
            r.vpn_settings.alert_on_country_change && r.vpn_settings.alert_on_ip_change,
            r.vpn_settings.expected_country is None,
            r.network_stability.changes_last_hour == 0,
            r.network_stability.last_country_change is None,
            r.network_stability.last_ip_change is None,
            r.network_change_history@.len() == 0,
            !r.last_ip_check_was_manual,
            r.last_vpn_notification is None,
            r.last_tray_state is None,
            r.ping_interval_secs == 10,
            r.speed_test_duration_secs == 7,
            r.network_sessions@.len() == 0,
            r.current_session_id is None,
            r.network_aliases@.len() == 0,
            r.speed_tests@.len() == 0,
            !r.speed_test_running,
    {
        let mut history: Vec<TargetHistory> = Vec::new();
        let none: Vec<PingResult> = Vec::new();
        assert(crate::types::ping_views(none@) =~= Seq::<PingView>::empty());
        history.push(TargetHistory { target: text("1.1.1.1"), pings: none });
        assert(history_view(history@)[0] == ("1.1.1.1"@, Seq::<PingView>::empty()));
        assert(history_view(history@) =~= seq![("1.1.1.1"@, Seq::<PingView>::empty())]);
        let mut targets: Vec<String> = Vec::new();
        targets.push(text("1.1.1.1"));
        assert(string_views(targets@) =~= seq!["1.1.1.1"@]);
        AppState {
            ping_history: history,
            targets,
            primary_target: text("1.1.1.1"),
            notification_threshold_ms: 400,
            last_notification: None,
            display_mode: DisplayMode::IconAndPing,
            ip_info: None,
            ip_info_last_check: None,
            site_monitors: Vec::new(),
            site_statuses: Vec::new(),
            vpn_settings: VpnProtectionSettings::default(),
            network_stability: NetworkStability::default(),
            network_change_history: Vec::new(),
            last_ip_check_was_manual: false,
            last_vpn_notification: None,
            last_tray_state: None,
            ping_interval_secs: 10,
            speed_test_duration_secs: 7,
            network_sessions: Vec::new(),
            current_session_id: None,
            network_aliases: Vec::new(),
            speed_tests: Vec::new(),
            speed_test_running: false,
        }
    }
}

impl AppState {
    fn chosen(&self, target: Option<String>) -> (r: String)
        ensures
            r@ == chosen_target(opt_view(target), self.primary_target@),
    {
        match target {
            Some(t) => t,
            None => self.primary_target.clone(),
        }
    }

    /// The latest ping of `target` (default: the primary target), if any.
    pub fn get_current_ping(&self, target: Option<String>) -> (r: Option<PingResult>)
        ensures
            ({
                let ps = pings_of(self.ping_history@, chosen_target(opt_view(target), self.primary_target@));
                match r {
                    Some(p) => ps.len() > 0 && p@ == ps.last(),
                    None => ps.len() == 0,
                }
            }),
    {
        let t = self.chosen(target);
        latest_ping(&self.ping_history, &t)
    }

    /// The recorded pings of `target` (default: the primary target), oldest first.
    pub fn get_ping_history(&self, target: Option<String>) -> (r: Vec<PingResult>)
        ensures
            crate::types::ping_views(r@) == pings_of(
                self.ping_history@,
                chosen_target(opt_view(target), self.primary_target@),
            ),
    {
        let t = self.chosen(target);
        pings_for(&self.ping_history, &t)
    }

    /// Statistics of `target` (default: the primary target) over the last
    /// `minutes` minutes (default 5) before `now`.
    pub fn get_statistics_at(&self, target: Option<String>, minutes: Option<u32>, now: i64) -> (r:
        PingStatistics)
        ensures
            stats_tuple(r) == stats_for(
                self.ping_history@,
                self.primary_target@,
                opt_view(target),
                minutes,
                now,
            ),
    {
        get_statistics_at(&self.ping_history, &self.primary_target, target, minutes, now)
    }

    /// The ping, target and stats rows of the menu at `now`.
    pub fn menu_status_rows_at(&self, now: i64) -> (r: (String, String, String))
        ensures
            ({
                let ps = pings_of(self.ping_history@, self.primary_target@);
                &&& r.0@ == ping_row(if ps.len() > 0 {
                    Some(ps.last())
                } else {
                    None
                })
                &&& r.1@ == "   → "@ + self.primary_target@
                &&& r.2@ == recent_stats_row(ps, now)
            }),
    {
        status_rows_at(&self.ping_history, &self.primary_target, now)
    }

    /// Records the outcome of checking a monitored site at `now`.
    pub fn record_site_check_at(&mut self, monitor: &SiteMonitor, outcome: Option<u64>, now: i64) -> (r:
        SiteCheckResult)
        ensures
            ({
                let url = monitor.url@;
                let up_before = was_up(old(self).site_statuses@, url);
                &&& r.changed == (up_before != outcome is Some)
                &&& (up_before && outcome is None) ==> r.alert is Some && r.alert->0@ == site_down_text(
                    url,
                    opt_view(monitor.name),
                )
                &&& !(up_before && outcome is None) ==> r.alert is None
                &&& status_of(final(self).site_statuses@, url) == Some(
                    kept_status(status_of(old(self).site_statuses@, url), checked_status(url, outcome, now)),
                )
                &&& forall|u: Seq<char>| u != url ==> #[trigger] status_of(final(self).site_statuses@, u)
                    == status_of(old(self).site_statuses@, u)
            }),
            *final(self) == (AppState { site_statuses: final(self).site_statuses, ..*old(self) }),
    {
        apply_site_check(&mut self.site_statuses, monitor, outcome, now)
    }

    /// Stops monitoring a site and forgets its status.
    pub fn remove_site(&mut self, url: &String)
        ensures
            monitor_views(final(self).site_monitors@) == monitors_without(
                monitor_views(old(self).site_monitors@),
                url@,
            ),
            status_of(final(self).site_statuses@, url@) is None,
            forall|u: Seq<char>| u != url@ ==> #[trigger] status_of(final(self).site_statuses@, u)
                == status_of(old(self).site_statuses@, u),
    {
        remove_site_monitor(&mut self.site_monitors, url);
        remove_status(&mut self.site_statuses, url);
    }
}

} // verus!
