use pingzilla::history::TargetHistory;
use pingzilla::sessions::{
    ensure_network_session_at, lookup_alias, remove_alias, rename_network_session, session_id_at,
    set_alias, NetworkAlias,
};
use pingzilla::types::{IpInfo, NetworkSession, PingMethod, PingResult, DAY_US, MINUTE_US};

const NOW: i64 = 1_700_000_000_000_000;

fn info(ip: &str, isp: &str) -> IpInfo {
    IpInfo {
        ip: ip.to_string(),
        country: "Germany".to_string(),
        country_code: "DE".to_string(),
        city: None,
        isp: Some(isp.to_string()),
    }
}

fn ping(timestamp: i64, session: Option<&str>) -> PingResult {
    PingResult {
        timestamp,
        latency_us: Some(1_000),
        target: "1.1.1.1".to_string(),
        method: Some(PingMethod::Icmp),
        session_id: session.map(|s| s.to_string()),
    }
}

fn session(id: &str, fp: &str, started_at: i64, ended_at: Option<i64>) -> NetworkSession {
    NetworkSession {
        id: id.to_string(),
        fingerprint: fp.to_string(),
        public_ip: "x".to_string(),
        isp: None,
        label: None,
        started_at,
        ended_at,
    }
}

#[test]
fn session_ids_carry_the_microsecond_time() {
    assert_eq!(session_id_at(1234), "session-1234");
    assert_eq!(session_id_at(-5), "session--5");
}

#[test]
fn aliases_set_replace_and_remove() {
    let mut a: Vec<NetworkAlias> = Vec::new();
    set_alias(&mut a, "fp1".to_string(), "Home".to_string());
    set_alias(&mut a, "fp2".to_string(), "Office".to_string());
    set_alias(&mut a, "fp1".to_string(), "Flat".to_string());
    assert_eq!(lookup_alias(&a, &"fp1".to_string()).as_deref(), Some("Flat"));
    assert_eq!(lookup_alias(&a, &"fp2".to_string()).as_deref(), Some("Office"));
    remove_alias(&mut a, &"fp1".to_string());
    assert_eq!(lookup_alias(&a, &"fp1".to_string()), None);
    assert_eq!(lookup_alias(&a, &"fp2".to_string()).as_deref(), Some("Office"));
}

#[test]
fn a_new_network_ends_the_current_session_and_claims_recent_pings() {
    let mut sessions = vec![
        session("session-old", "9.9.9.9|Far", NOW - 2 * DAY_US, Some(NOW - 2 * DAY_US + 1)),
        session("session-cur", "1.2.3.4|A", NOW - DAY_US, None),
    ];
    let mut current = Some("session-cur".to_string());
    let aliases = vec![NetworkAlias { fingerprint: "5.6.7.8|B".to_string(), label: "Cafe".to_string() }];
    let mut history = vec![TargetHistory {
        target: "1.1.1.1".to_string(),
        pings: vec![
            ping(NOW - 10 * MINUTE_US, None),
            ping(NOW - 5 * MINUTE_US, None),
            ping(NOW - MINUTE_US, Some("session-cur")),
        ],
    }];

    // The same network keeps its session.
    let same = info("1.2.3.4", "A");
    assert!(ensure_network_session_at(&mut sessions, &mut current, &aliases, &mut history, &same, false, NOW).is_none());
    assert_eq!(sessions.len(), 2);

    let other = info("5.6.7.8", "B");
    let s = ensure_network_session_at(&mut sessions, &mut current, &aliases, &mut history, &other, false, NOW)
        .expect("a new session");
    assert_eq!(s.id, format!("session-{}", NOW));
    assert_eq!(s.fingerprint, "5.6.7.8|B");
    assert_eq!(s.label.as_deref(), Some("Cafe"));
    assert_eq!(s.started_at, NOW);
    assert_eq!(s.ended_at, None);
    assert_eq!(current.as_deref(), Some(s.id.as_str()));
    // The session older than a day is dropped, the current one is ended.
    let ids: Vec<&str> = sessions.iter().map(|x| x.id.as_str()).collect();
    assert_eq!(ids, vec!["session-cur", s.id.as_str()]);
    assert_eq!(sessions[0].ended_at, Some(NOW));
    // Only unassigned pings of the last five minutes are claimed.
    let claimed: Vec<Option<&str>> = history[0].pings.iter().map(|p| p.session_id.as_deref()).collect();
    assert_eq!(claimed, vec![None, Some(s.id.as_str()), Some("session-cur")]);

    // A forced session is opened even on the same network.
    let forced = ensure_network_session_at(&mut sessions, &mut current, &aliases, &mut history, &other, true, NOW + 1)
        .expect("a forced session");
    assert_eq!(forced.id, format!("session-{}", NOW + 1));
    assert_eq!(sessions.len(), 3);
}

#[test]
fn renaming_a_session_names_its_network() {
    let mut sessions = vec![
        session("s1", "fp", 0, Some(1)),
        session("s2", "other", 1, Some(2)),
        session("s3", "fp", 2, None),
    ];
    let mut aliases: Vec<NetworkAlias> = Vec::new();
    assert_eq!(rename_network_session(&mut sessions, &mut aliases, &"s3".to_string(), &"  Home  ".to_string()), Ok(()));
    assert_eq!(lookup_alias(&aliases, &"fp".to_string()).as_deref(), Some("Home"));
    assert_eq!(sessions[0].label.as_deref(), Some("Home"));
    assert_eq!(sessions[1].label, None);
    assert_eq!(sessions[2].label.as_deref(), Some("Home"));

    assert_eq!(rename_network_session(&mut sessions, &mut aliases, &"s1".to_string(), &"   ".to_string()), Ok(()));
    assert_eq!(lookup_alias(&aliases, &"fp".to_string()), None);
    assert_eq!(sessions[2].label, None);

    assert_eq!(
        rename_network_session(&mut sessions, &mut aliases, &"zz".to_string(), &"Name".to_string()),
        Err("Network session not found".to_string())
    );
    let long = "x".repeat(81);
    assert_eq!(
        rename_network_session(&mut sessions, &mut aliases, &"s1".to_string(), &long),
        Err("Network name must be 80 characters or fewer".to_string())
    );
    let accented = "é".repeat(41);
    assert_eq!(rename_network_session(&mut sessions, &mut aliases, &"s1".to_string(), &accented), Ok(()));
    assert_eq!(lookup_alias(&aliases, &"fp".to_string()), Some(accented));
    assert_eq!(
        rename_network_session(&mut sessions, &mut aliases, &"s1".to_string(), &"é".repeat(81)),
        Err("Network name must be 80 characters or fewer".to_string())
    );
    let fits = "x".repeat(80);
    assert_eq!(rename_network_session(&mut sessions, &mut aliases, &"s1".to_string(), &fits), Ok(()));
}
