use antibot::config::{Config, DatabaseConfig, DetectorConfig, ServerConfig};
use antibot::repl::{
    servers_to_start, NoServers,
    maintenance_ban, maintenance_command, repl_command, repl_start, run, MaintenanceCommand,
    ReplAction, ReplCommand, ReplEvent, ReplState,
};

#[test]
fn top_commands() {
    assert!(matches!(repl_command("/start"), ReplCommand::Start));
    assert!(matches!(repl_command("  /start \n"), ReplCommand::Start));
    assert!(matches!(repl_command("/manutein"), ReplCommand::Maintenance));
    assert!(matches!(repl_command("/manutencao"), ReplCommand::Maintenance));
    assert!(matches!(repl_command("/maintenance"), ReplCommand::Maintenance));
    assert!(matches!(repl_command("/logout"), ReplCommand::Logout));
    assert!(matches!(repl_command("   "), ReplCommand::Empty));
    match repl_command(" /stop ") {
        ReplCommand::Unknown(c) => assert_eq!(c, "/stop"),
        _ => panic!("expected an unknown command"),
    }
    assert!(matches!(repl_command("/START"), ReplCommand::Unknown(_)));
}

#[test]
fn start_runs_once() {
    let st = repl_start();
    assert!(!st.started);
    let (st, a) = run(st, ReplEvent::Input(Some("/start".to_string())));
    assert!(matches!(a, ReplAction::StartAll));
    let (st, a) = run(st, ReplEvent::Started(false));
    assert!(matches!(a, ReplAction::Prompt));
    assert!(!st.started);
    let (st, a) = run(st, ReplEvent::Input(Some("/start".to_string())));
    assert!(matches!(a, ReplAction::StartAll));
    let (st, _) = run(st, ReplEvent::Started(true));
    assert_eq!(st, ReplState { started: true });
    let (st, a) = run(st, ReplEvent::Input(Some("/start".to_string())));
    assert!(matches!(a, ReplAction::AlreadyRunning));
    let (st, a) = run(st, ReplEvent::Input(Some("/manutein".to_string())));
    assert!(matches!(a, ReplAction::EnterMaintenance));
    let (st, a) = run(st, ReplEvent::MaintenanceDone);
    assert!(matches!(a, ReplAction::Prompt));
    let (st, a) = run(st, ReplEvent::Input(Some("hello".to_string())));
    assert!(matches!(a, ReplAction::Unknown(ref c) if c == "hello"));
    let (_, a) = run(st, ReplEvent::Input(Some("/logout".to_string())));
    assert!(matches!(a, ReplAction::Logout));
}

#[test]
fn closed_input_leaves() {
    let (_, a) = run(repl_start(), ReplEvent::Input(None));
    assert!(matches!(a, ReplAction::Exit));
}

#[test]
fn maintenance_commands() {
    assert!(matches!(maintenance_command("listar"), MaintenanceCommand::List));
    assert!(matches!(maintenance_command("  banir   1.2.3.4  extra"), MaintenanceCommand::Ban(ref ip) if ip == "1.2.3.4"));
    assert!(matches!(maintenance_command("banir"), MaintenanceCommand::BanUsage));
    assert!(matches!(maintenance_command("desbanir 5.6.7.8"), MaintenanceCommand::Unban(ref ip) if ip == "5.6.7.8"));
    assert!(matches!(maintenance_command("desbanir "), MaintenanceCommand::UnbanUsage));
    assert!(matches!(maintenance_command("voltar"), MaintenanceCommand::Back));
    assert!(matches!(maintenance_command(""), MaintenanceCommand::Empty));
    assert!(matches!(maintenance_command("sair"), MaintenanceCommand::Unknown));
}

#[test]
fn maintenance_ban_record() {
    let b = maintenance_ban("1.2.3.4", 12);
    assert_eq!(b.ip, "1.2.3.4");
    assert_eq!(b.reason, "manual (manutein)");
    assert_eq!(b.ttl_hours, 12);
    assert_eq!(b.source_host, "manutein");
}

#[test]
fn start_needs_servers() {
    let server = |n: &str| ServerConfig {
        name: n.to_string(),
        host: None,
        log_path: "/var/log/x".to_string(),
        mode: "local".to_string(),
        ssh_user: None,
    };
    let mut cfg = Config {
        database: DatabaseConfig { url: "postgres://x".to_string() },
        detector: DetectorConfig { window_seconds: 60, warn_threshold: 50, ban_threshold: 100, ban_ttl_hours: 24 },
        servers: vec![],
    };
    assert_eq!(servers_to_start(&cfg), Err(NoServers));
    cfg.servers = vec![server("prod"), server("edge")];
    assert_eq!(servers_to_start(&cfg), Ok(vec!["prod".to_string(), "edge".to_string()]));
}
