//! The monitor's records and their mathematical views.
//!
//! Times are microseconds since the Unix epoch (`i64`); latencies are
//! whole microseconds (`u64`).
use vstd::prelude::*;

verus! {

/// Microseconds in a second, a minute, an hour and a day.
pub const SECOND_US: i64 = 1_000_000;
pub const MINUTE_US: i64 = 60_000_000;
pub const HOUR_US: i64 = 3_600_000_000;
pub const DAY_US: i64 = 86_400_000_000;

/// Method used to measure ping latency.
#[derive(Clone, Copy, Debug, PartialEq, Eq, Structural)]
pub enum PingMethod {
    Icmp,
    TcpDns,
    TcpHttps,
    TcpHttp,
}

/// Menu bar display mode.
#[derive(Clone, Copy, Debug, PartialEq, Eq, Structural)]
pub enum DisplayMode {
    IconOnly,
    IconAndPing,
    PingOnly,
}

/// Kind of change between two public-IP lookups.
#[derive(Clone, Copy, Debug, PartialEq, Eq, Structural)]
pub enum NetworkChangeType {
    IpChanged,
    CountryChanged,
    IspChanged,
    Initial,
}

/// Menu bar icon.
#[derive(Clone, Copy, Debug, PartialEq, Eq, Structural)]
pub enum TrayIconType {
    Happy,
    Angry,
    Sad,
    Dead,
    Transparent,
}

pub open spec fn opt_view(o: Option<String>) -> Option<Seq<char>> {
    match o {
        Some(s) => Some(s@),
        None => None,
    }
}

pub fn copy_opt(o: &Option<String>) -> (r: Option<String>)
    ensures
        opt_view(r) == opt_view(*o),
{
    match o {
        Some(s) => Some(s.clone()),
        None => None,
    }
}

/// Equality of optional strings by their characters.
pub fn opt_eq(a: &Option<String>, b: &Option<String>) -> (r: bool)
    ensures
        r == (opt_view(*a) == opt_view(*b)),
{
    match (a, b) {
        (Some(x), Some(y)) => *x == *y,
        (None, None) => true,
        _ => false,
    }
}

/// Whether an optional string holds exactly the characters of `s`.
pub fn opt_is(a: &Option<String>, s: &String) -> (r: bool)
    ensures
        r == (opt_view(*a) == Some(s@)),
{
    match a {
        Some(x) => *x == *s,
        None => false,
    }
}

/// Public IP information, as the lookup service reports it.
pub struct IpInfo {
    pub ip: String,
    pub country: String,
    pub country_code: String,
    pub city: Option<String>,
    pub isp: Option<String>,
}

pub struct IpInfoView {
    pub ip: Seq<char>,
    pub country: Seq<char>,
    pub country_code: Seq<char>,
    pub city: Option<Seq<char>>,
    pub isp: Option<Seq<char>>,
}

impl View for IpInfo {
    type V = IpInfoView;

    open spec fn view(&self) -> IpInfoView {
        IpInfoView {
            ip: self.ip@,
            country: self.country@,
            country_code: self.country_code@,
            city: opt_view(self.city),
            isp: opt_view(self.isp),
        }
    }
}

impl Clone for IpInfo {
    fn clone(&self) -> (r: Self)
        ensures
            r@ == self@,
    {
        IpInfo {
            ip: self.ip.clone(),
            country: self.country.clone(),
            country_code: self.country_code.clone(),
            city: copy_opt(&self.city),
            isp: copy_opt(&self.isp),
        }
    }
}

/// A single ping measurement.
pub struct PingResult {
    pub timestamp: i64,
    pub latency_us: Option<u64>,
    pub target: String,
    pub method: Option<PingMethod>,
    pub session_id: Option<String>,
}

pub struct PingView {
    pub timestamp: i64,
    pub latency_us: Option<u64>,
    pub target: Seq<char>,
    pub method: Option<PingMethod>,
    pub session_id: Option<Seq<char>>,
}

impl View for PingResult {
    type V = PingView;

    open spec fn view(&self) -> PingView {
        PingView {
            timestamp: self.timestamp,
            latency_us: self.latency_us,
            target: self.target@,
            method: self.method,
            session_id: opt_view(self.session_id),
        }
    }
}

impl Clone for PingResult {
    fn clone(&self) -> (r: Self)
        ensures
            r@ == self@,
    {
        PingResult {
            timestamp: self.timestamp,
            latency_us: self.latency_us,
            target: self.target.clone(),
            method: self.method,
            session_id: copy_opt(&self.session_id),
        }
    }
}

pub open spec fn ping_views(s: Seq<PingResult>) -> Seq<PingView> {
    s.map_values(|p: PingResult| p@)
}

/// A continuous period on one public IP + ISP fingerprint.
pub struct NetworkSession {
    pub id: String,
    pub fingerprint: String,
    pub public_ip: String,
    pub isp: Option<String>,
    pub label: Option<String>,
    pub started_at: i64,
    pub ended_at: Option<i64>,
}

pub struct SessionView {
    pub id: Seq<char>,
    pub fingerprint: Seq<char>,
    pub public_ip: Seq<char>,
    pub isp: Option<Seq<char>>,
    pub label: Option<Seq<char>>,
    pub started_at: i64,
    pub ended_at: Option<i64>,
}

impl View for NetworkSession {
    type V = SessionView;

    open spec fn view(&self) -> SessionView {
        SessionView {
            id: self.id@,
            fingerprint: self.fingerprint@,
            public_ip: self.public_ip@,
            isp: opt_view(self.isp),
            label: opt_view(self.label),
            started_at: self.started_at,
            ended_at: self.ended_at,
        }
    }
}

impl Clone for NetworkSession {
    fn clone(&self) -> (r: Self)
        ensures
            r@ == self@,
    {
        NetworkSession {
            id: self.id.clone(),
            fingerprint: self.fingerprint.clone(),
            public_ip: self.public_ip.clone(),
            isp: copy_opt(&self.isp),
            label: copy_opt(&self.label),
            started_at: self.started_at,
            ended_at: self.ended_at,
        }
    }
}

pub open spec fn session_views(s: Seq<NetworkSession>) -> Seq<SessionView> {
    s.map_values(|x: NetworkSession| x@)
}

/// A user-triggered network quality measurement. Throughputs are in bits per
/// second, latencies in microseconds, responsiveness in round trips per minute.
pub struct SpeedTestResult {
    pub id: String,
    pub timestamp: i64,
    pub session_id: Option<String>,
    pub download_bps: u64,
    pub upload_bps: u64,
    pub loaded_latency_us: Option<u64>,
    pub idle_latency_us: Option<u64>,
    pub responsiveness_rpm: Option<u64>,
    pub interface_name: Option<String>,
}

pub struct SpeedTestView {
    pub id: Seq<char>,
    pub timestamp: i64,
    pub session_id: Option<Seq<char>>,
    pub download_bps: u64,
    pub upload_bps: u64,
    pub loaded_latency_us: Option<u64>,
    pub idle_latency_us: Option<u64>,
    pub responsiveness_rpm: Option<u64>,
    pub interface_name: Option<Seq<char>>,
}

impl View for SpeedTestResult {
    type V = SpeedTestView;

    open spec fn view(&self) -> SpeedTestView {
        SpeedTestView {
            id: self.id@,
            timestamp: self.timestamp,
            session_id: opt_view(self.session_id),
            download_bps: self.download_bps,
            upload_bps: self.upload_bps,
            loaded_latency_us: self.loaded_latency_us,
            idle_latency_us: self.idle_latency_us,
            responsiveness_rpm: self.responsiveness_rpm,
            interface_name: opt_view(self.interface_name),
        }
    }
}

impl Clone for SpeedTestResult {
    fn clone(&self) -> (r: Self)
        ensures
            r@ == self@,
    {
        SpeedTestResult {
            id: self.id.clone(),
            timestamp: self.timestamp,
            session_id: copy_opt(&self.session_id),
            download_bps: self.download_bps,
            upload_bps: self.upload_bps,
            loaded_latency_us: self.loaded_latency_us,
            idle_latency_us: self.idle_latency_us,
            responsiveness_rpm: self.responsiveness_rpm,
            interface_name: copy_opt(&self.interface_name),
        }
    }
}

pub open spec fn speed_test_views(s: Seq<SpeedTestResult>) -> Seq<SpeedTestView> {
    s.map_values(|x: SpeedTestResult| x@)
}

/// Site monitor configuration.
pub struct SiteMonitor {
    pub url: String,
    pub name: Option<String>,
    pub enabled: bool,
}

pub struct MonitorView {
    pub url: Seq<char>,
    pub name: Option<Seq<char>>,
    pub enabled: bool,
}

impl View for SiteMonitor {
    type V = MonitorView;

    open spec fn view(&self) -> MonitorView {
        MonitorView { url: self.url@, name: opt_view(self.name), enabled: self.enabled }
    }
}

impl Clone for SiteMonitor {
    fn clone(&self) -> (r: Self)
        ensures
            r@ == self@,
    {
        SiteMonitor { url: self.url.clone(), name: copy_opt(&self.name), enabled: self.enabled }
    }
}

pub open spec fn monitor_views(s: Seq<SiteMonitor>) -> Seq<MonitorView> {
    s.map_values(|x: SiteMonitor| x@)
}

/// Outcome of the latest availability check of a site.
pub struct SiteStatus {
    pub url: String,
    pub is_up: bool,
    pub latency_us: Option<u64>,
    pub last_check: i64,
    pub last_down: Option<i64>,
}

pub struct StatusView {
    pub url: Seq<char>,
    pub is_up: bool,
    pub latency_us: Option<u64>,
    pub last_check: i64,
    pub last_down: Option<i64>,
}

impl View for SiteStatus {
    type V = StatusView;

    open spec fn view(&self) -> StatusView {
        StatusView {
            url: self.url@,
            is_up: self.is_up,
            latency_us: self.latency_us,
            last_check: self.last_check,
            last_down: self.last_down,
        }
    }
}

impl Clone for SiteStatus {
    fn clone(&self) -> (r: Self)
        ensures
            r@ == self@,
    {
        SiteStatus {
            url: self.url.clone(),
            is_up: self.is_up,
            latency_us: self.latency_us,
            last_check: self.last_check,
            last_down: self.last_down,
        }
    }
}

pub open spec fn status_views(s: Seq<SiteStatus>) -> Seq<StatusView> {
    s.map_values(|x: SiteStatus| x@)
}

/// A change between two public-IP lookups.
pub struct NetworkChangeEvent {
    pub change_type: NetworkChangeType,
    pub previous: Option<IpInfo>,
    pub current: IpInfo,
    pub timestamp: i64,
    pub is_expected: bool,
}

pub struct ChangeView {
    pub change_type: NetworkChangeType,
    pub previous: Option<IpInfoView>,
    pub current: IpInfoView,
    pub timestamp: i64,
    pub is_expected: bool,
}

impl View for NetworkChangeEvent {
    type V = ChangeView;

    open spec fn view(&self) -> ChangeView {
        ChangeView {
            change_type: self.change_type,
            previous: match self.previous {
                Some(p) => Some(p@),
                None => None,
            },
            current: self.current@,
            timestamp: self.timestamp,
            is_expected: self.is_expected,
        }
    }
}

impl Clone for NetworkChangeEvent {
    fn clone(&self) -> (r: Self)
        ensures
            r@ == self@,
    {
        NetworkChangeEvent {
            change_type: self.change_type,
            previous: match &self.previous {
                Some(p) => Some(p.clone()),
                None => None,
            },
            current: self.current.clone(),
            timestamp: self.timestamp,
            is_expected: self.is_expected,
        }
    }
}

pub open spec fn change_views(s: Seq<NetworkChangeEvent>) -> Seq<ChangeView> {
    s.map_values(|x: NetworkChangeEvent| x@)
}

/// Network stability tracking.
#[derive(Clone, Copy, Debug, PartialEq, Eq, Structural)]
pub struct NetworkStability {
    pub changes_last_hour: u32,
    pub last_country_change: Option<i64>,
    pub last_ip_change: Option<i64>,
}

impl Default for NetworkStability {
    fn default() -> (r: Self)
        ensures
            r.changes_last_hour == 0,
            r.last_country_change is None,
            r.last_ip_change is None,
    {
        NetworkStability { changes_last_hour: 0, last_country_change: None, last_ip_change: None }
    }
}

/// VPN protection settings.
pub struct VpnProtectionSettings {
    pub enabled: bool,
    pub check_interval_secs: u32,
    pub alert_on_country_change: bool,
    pub alert_on_ip_change: bool,
    pub expected_country: Option<String>,
}

impl Clone for VpnProtectionSettings {
    fn clone(&self) -> (r: Self)
        ensures
            r.enabled == self.enabled,
            r.check_interval_secs == self.check_interval_secs,
            r.alert_on_country_change == self.alert_on_country_change,
            r.alert_on_ip_change == self.alert_on_ip_change,
            opt_view(r.expected_country) == opt_view(self.expected_country),
    {
        VpnProtectionSettings {
            enabled: self.enabled,
            check_interval_secs: self.check_interval_secs,
            alert_on_country_change: self.alert_on_country_change,
            alert_on_ip_change: self.alert_on_ip_change,
            expected_country: copy_opt(&self.expected_country),
        }
    }
}

impl Default for VpnProtectionSettings {
    fn default() -> (r: Self)
        ensures
            r.enabled,
            r.check_interval_secs == 60,
            r.alert_on_country_change,
            r.alert_on_ip_change,
            r.expected_country is None,
    {
        VpnProtectionSettings {
            enabled: true,
            check_interval_secs: 60,
            alert_on_country_change: true,
            alert_on_ip_change: true,
            expected_country: None,
        }
    }
}

/// What the menu bar shows: an icon and a title.
pub struct TrayState {
    pub icon_type: TrayIconType,
    pub title: String,
}

impl Clone for TrayState {
    fn clone(&self) -> (r: Self)
        ensures
            r.icon_type == self.icon_type,
            r.title@ == self.title@,
    {
        TrayState { icon_type: self.icon_type, title: self.title.clone() }
    }
}

impl TrayState {
    /// Whether two tray states show the same icon and title.
    pub fn same_as(&self, other: &TrayState) -> (r: bool)
        ensures
            r == (self.icon_type == other.icon_type && self.title@ == other.title@),
    {
        self.icon_type == other.icon_type && self.title == other.title
    }
}

} // verus!

verus! {

pub open spec fn string_views(s: Seq<String>) -> Seq<Seq<char>> {
    s.map_values(|x: String| x@)
}

/// Whether `v` holds a string with the characters of `s`.
pub fn contains_string(v: &Vec<String>, s: &String) -> (r: bool)
    ensures
        r == string_views(v@).contains(s@),
{
    let mut i: usize = 0;
    while i < v.len()
        invariant
            i <= v.len(),
            forall|j: int| 0 <= j < i ==> v@[j]@ != s@,
        decreases v.len() - i,
    {
        if v[i] == *s {
            assert(string_views(v@)[i as int] == s@);
            return true;
        }
        i += 1;
    }
    assert forall|j: int| 0 <= j < v.len() implies string_views(v@)[j] != s@ by {
        assert(v@[j]@ != s@);
    }
    false
}

} // verus!

verus! {

/// A copy of a list of sessions.
pub fn copy_sessions(v: &Vec<NetworkSession>) -> (r: Vec<NetworkSession>)
    ensures
        session_views(r@) == session_views(v@),
{
    let r = v.clone();
    assert forall|i: int| 0 <= i < r.len() implies r@[i]@ == v@[i]@ by {
        assert(cloned::<NetworkSession>(v[i], r[i]));
    }
    assert(session_views(r@) =~= session_views(v@));
    r
}

} // verus!

verus! {

/// A copy of a list of site monitors.
pub fn copy_monitors(v: &Vec<SiteMonitor>) -> (r: Vec<SiteMonitor>)
    ensures
        monitor_views(r@) == monitor_views(v@),
{
    let r = v.clone();
    assert forall|i: int| 0 <= i < r.len() implies r@[i]@ == v@[i]@ by {
        assert(cloned::<SiteMonitor>(v[i], r[i]));
    }
    assert(monitor_views(r@) =~= monitor_views(v@));
    r
}

/// A copy of a list of speed test results.
pub fn copy_speed_tests(v: &Vec<SpeedTestResult>) -> (r: Vec<SpeedTestResult>)
    ensures
        speed_test_views(r@) == speed_test_views(v@),
{
    let r = v.clone();
    assert forall|i: int| 0 <= i < r.len() implies r@[i]@ == v@[i]@ by {
        assert(cloned::<SpeedTestResult>(v[i], r[i]));
    }
    assert(speed_test_views(r@) =~= speed_test_views(v@));
    r
}

/// A copy of a list of strings.
pub fn copy_strings(v: &Vec<String>) -> (r: Vec<String>)
    ensures
        string_views(r@) == string_views(v@),
{
    let r = v.clone();
    assert forall|i: int| 0 <= i < r.len() implies r@[i]@ == v@[i]@ by {
        assert(cloned::<String>(v[i], r[i]));
    }
    assert(string_views(r@) =~= string_views(v@));
    r
}

} // verus!
