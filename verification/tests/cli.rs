use antibot::cli::{manual_ban, Cli, Commands};

#[test]
fn manual_ban_record() {
    let b = manual_ban("203.0.113.9", "scraper agressivo", 24);
    assert_eq!(b.ip, "203.0.113.9");
    assert_eq!(b.reason, "scraper agressivo");
    assert_eq!(b.ttl_hours, 24);
    assert_eq!(b.source_host, "manual");
}

#[test]
fn cli_holds_the_command() {
    let c = Cli { config: "antibot.toml".to_string(), command: Some(Commands::Sync { server: "edge".to_string() }) };
    assert!(matches!(c.command, Some(Commands::Sync { ref server }) if server == "edge"));
}
