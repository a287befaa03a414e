use antibot::config::{Config, DatabaseConfig, DetectorConfig, ServerConfig};
use antibot::watch::{
    source_plan, watch_start, watch_step, SourcePlan, WatchAction, WatchContext, WatchError,
    WatchEvent, WatchPhase,
};

fn server(name: &str, mode: &str, host: Option<&str>) -> ServerConfig {
    ServerConfig {
        name: name.to_string(),
        host: host.map(|h| h.to_string()),
        log_path: "/var/log/nginx/access.log".to_string(),
        mode: mode.to_string(),
        ssh_user: Some("deploy".to_string()),
    }
}

fn ctx() -> WatchContext {
    WatchContext {
        server_id: 4,
        server_name: "edge".to_string(),
        detector: DetectorConfig { window_seconds: 60, warn_threshold: 50, ban_threshold: 100, ban_ttl_hours: 24 },
    }
}

const LINE: &str = r#"203.0.113.5 - - [27/Jul/2026:12:00:00 +0000] "GET /index.html HTTP/1.1" 200 512 "-" "Mozilla/5.0""#;

#[test]
fn find_server_takes_the_first_of_a_name() {
    let cfg = Config {
        database: DatabaseConfig { url: "postgres://x".to_string() },
        detector: ctx().detector,
        servers: vec![server("a", "local", None), server("b", "remote", Some("h1")), server("b", "local", None)],
    };
    assert_eq!(cfg.find_server("b").unwrap().mode, "remote");
    assert_eq!(cfg.find_server("a").unwrap().mode, "local");
    assert!(cfg.find_server("c").is_none());
}

#[test]
fn source_by_mode() {
    match source_plan(&server("a", "local", None)) {
        Ok(SourcePlan::Local { path }) => assert_eq!(path, "/var/log/nginx/access.log"),
        _ => panic!("expected a local source"),
    }
    match source_plan(&server("b", "remote", Some("edge.example.com"))) {
        Ok(SourcePlan::Remote { host, user, path, interval_secs }) => {
            assert_eq!(host, "edge.example.com");
            assert_eq!(user.as_deref(), Some("deploy"));
            assert_eq!(path, "/var/log/nginx/access.log");
            assert_eq!(interval_secs, 5);
        }
        _ => panic!("expected a remote source"),
    }
    assert!(matches!(source_plan(&server("b", "remote", None)), Err(WatchError::MissingHost { ref server }) if server == "b"));
    assert!(matches!(source_plan(&server("c", "Local", None)), Err(WatchError::InvalidMode { ref mode }) if mode == "Local"));
}

#[test]
fn unparsable_line_is_dropped() {
    let (st, a) = watch_step(&ctx(), watch_start(), WatchEvent::Line("not a log line".to_string()));
    assert_eq!(st.phase, WatchPhase::AwaitingLine);
    assert!(matches!(a, WatchAction::AwaitLine));
}

#[test]
fn heavy_ip_is_banned_and_marked() {
    let c = ctx();
    let (st, a) = watch_step(&c, watch_start(), WatchEvent::Line(LINE.to_string()));
    match a {
        WatchAction::StoreEvent(e) => {
            assert_eq!(e.server_id, 4);
            assert_eq!(e.ip, "203.0.113.5");
            assert_eq!(e.status_code, Some(200));
        }
        _ => panic!("expected the event to be stored"),
    }
    let (st, a) = watch_step(&c, st, WatchEvent::EventStored(true));
    assert!(matches!(a, WatchAction::CountRecent { ref ip, window_seconds: 60 } if ip == "203.0.113.5"));
    let (st, a) = watch_step(&c, st, WatchEvent::Counted(Some(120)));
    match a {
        WatchAction::StoreBan(b) => {
            assert_eq!(b.ip, "203.0.113.5");
            assert_eq!(b.reason, "120 req em 60s");
            assert_eq!(b.ttl_hours, 24);
            assert_eq!(b.source_host, "edge");
        }
        _ => panic!("expected a ban"),
    }
    // the firewall rule is added even when the blacklist write failed
    let (st, a) = watch_step(&c, st, WatchEvent::BanStored(false));
    assert!(matches!(a, WatchAction::ApplyBan { ref ip } if ip == "203.0.113.5"));
    let (st, a) = watch_step(&c, st, WatchEvent::BanApplied(true));
    assert!(matches!(a, WatchAction::MarkApplied { server_id: 4, ref ip } if ip == "203.0.113.5"));
    let (st, a) = watch_step(&c, st, WatchEvent::Marked(true));
    assert!(matches!(a, WatchAction::AwaitLine));
    assert_eq!(st.phase, WatchPhase::AwaitingLine);
}

#[test]
fn failed_firewall_rule_is_not_marked() {
    let c = ctx();
    let (st, _) = watch_step(&c, watch_start(), WatchEvent::Line(LINE.to_string()));
    let (st, _) = watch_step(&c, st, WatchEvent::EventStored(true));
    let (st, _) = watch_step(&c, st, WatchEvent::Counted(Some(100)));
    let (st, _) = watch_step(&c, st, WatchEvent::BanStored(true));
    let (st, a) = watch_step(&c, st, WatchEvent::BanApplied(false));
    assert!(matches!(a, WatchAction::AwaitLine));
    assert_eq!(st.phase, WatchPhase::AwaitingLine);
}

#[test]
fn suspicious_and_normal_traffic() {
    let c = ctx();
    let (st, _) = watch_step(&c, watch_start(), WatchEvent::Line(LINE.to_string()));
    let (st, _) = watch_step(&c, st, WatchEvent::EventStored(true));
    let (st, a) = watch_step(&c, st, WatchEvent::Counted(Some(50)));
    assert!(matches!(a, WatchAction::WarnSuspicious { ref ip, count: 50 } if ip == "203.0.113.5"));
    assert_eq!(st.phase, WatchPhase::AwaitingLine);
    let (st, _) = watch_step(&c, st, WatchEvent::Line(LINE.to_string()));
    let (st, _) = watch_step(&c, st, WatchEvent::EventStored(true));
    let (st, a) = watch_step(&c, st, WatchEvent::Counted(Some(49)));
    assert!(matches!(a, WatchAction::AwaitLine));
    assert_eq!(st.phase, WatchPhase::AwaitingLine);
}

#[test]
fn failures_drop_the_line() {
    let c = ctx();
    let (st, _) = watch_step(&c, watch_start(), WatchEvent::Line(LINE.to_string()));
    let (st, a) = watch_step(&c, st, WatchEvent::EventStored(false));
    assert!(matches!(a, WatchAction::AwaitLine));
    let (st, _) = watch_step(&c, st, WatchEvent::Line(LINE.to_string()));
    let (st, _) = watch_step(&c, st, WatchEvent::EventStored(true));
    let (st, a) = watch_step(&c, st, WatchEvent::Counted(None));
    assert!(matches!(a, WatchAction::AwaitLine));
    // an event that does not fit the phase
    let (st, a) = watch_step(&c, st, WatchEvent::Marked(true));
    assert!(matches!(a, WatchAction::AwaitLine));
    assert_eq!(st.phase, WatchPhase::AwaitingLine);
}
