use antibot::ban::{ban_commands, nft_listing_command, rule_handles, unban_commands, Firewall, FirewallCommand};

fn shape(c: &FirewallCommand) -> (String, Vec<String>, bool) {
    (c.program.clone(), c.args.clone(), c.must_succeed)
}

fn strs(v: &[&str]) -> Vec<String> {
    v.iter().map(|s| s.to_string()).collect()
}

#[test]
fn nft_ban_creates_table_chain_and_rule() {
    let cmds = ban_commands(Firewall::Nft, "203.0.113.9");
    assert_eq!(cmds.len(), 3);
    assert_eq!(shape(&cmds[0]), ("nft".to_string(), strs(&["add", "table", "inet", "antibot"]), false));
    assert_eq!(
        shape(&cmds[1]),
        (
            "nft".to_string(),
            strs(&["add", "chain", "inet", "antibot", "input", "{", "type", "filter", "hook", "input", "priority", "0", ";", "}"]),
            false
        )
    );
    assert_eq!(
        shape(&cmds[2]),
        ("nft".to_string(), strs(&["add", "rule", "inet", "antibot", "input", "ip", "saddr", "203.0.113.9", "drop"]), true)
    );
}

#[test]
fn iptables_ban_appends_a_drop_rule() {
    let cmds = ban_commands(Firewall::Iptables, "10.1.2.3");
    assert_eq!(cmds.len(), 1);
    assert_eq!(shape(&cmds[0]), ("iptables".to_string(), strs(&["-A", "INPUT", "-s", "10.1.2.3", "-j", "DROP"]), true));
}

#[test]
fn listing_command_asks_for_handles() {
    assert_eq!(nft_listing_command(), strs(&["-a", "list", "chain", "inet", "antibot", "input"]));
}

#[test]
fn handles_of_the_rules_that_mention_the_ip() {
    let listing = "table inet antibot {\n\tchain input { # handle 1\n\t\ttype filter hook input priority filter; policy accept;\n\t\tip saddr 203.0.113.9 drop # handle 4\n\t\tip saddr 10.0.0.1 drop # handle 5\n\t\tip saddr 203.0.113.9 drop # handle 12\r\n\t}\n}\n";
    assert_eq!(rule_handles(listing, "203.0.113.9"), strs(&["4", "12"]));
    assert_eq!(rule_handles(listing, "10.0.0.1"), strs(&["5"]));
    assert!(rule_handles(listing, "192.0.2.1").is_empty());
    // a substring match counts, as does a line without `handle`
    assert_eq!(rule_handles("ip saddr 11.2.3.45 drop\n", "1.2.3.4"), strs(&["ip saddr 11.2.3.45 drop"]));
    // the last `handle` decides
    assert_eq!(rule_handles("x 1.1.1.1 handle 3 handle  9 \n", "1.1.1.1"), strs(&["9"]));
}

#[test]
fn unban_deletes_by_handle_or_drop_rule() {
    let listing = "ip saddr 203.0.113.9 drop # handle 4\nip saddr 203.0.113.9 drop # handle 7\n";
    let cmds = unban_commands(Firewall::Nft, listing, "203.0.113.9");
    assert_eq!(cmds.len(), 2);
    assert_eq!(shape(&cmds[0]), ("nft".to_string(), strs(&["delete", "rule", "inet", "antibot", "input", "handle", "4"]), false));
    assert_eq!(shape(&cmds[1]), ("nft".to_string(), strs(&["delete", "rule", "inet", "antibot", "input", "handle", "7"]), false));
    let cmds = unban_commands(Firewall::Iptables, "", "203.0.113.9");
    assert_eq!(cmds.len(), 1);
    assert_eq!(shape(&cmds[0]), ("iptables".to_string(), strs(&["-D", "INPUT", "-s", "203.0.113.9", "-j", "DROP"]), false));
}

#[test]
fn unban_finds_the_rule_that_ban_added() {
    let ip = "198.51.100.23";
    let add = &ban_commands(Firewall::Nft, ip)[2];
    let rule_words = add.args[5..].join(" ");
    assert_eq!(rule_words, format!("ip saddr {} drop", ip));
    let listing = format!("\t\t{} # handle 42\n", rule_words);
    assert_eq!(rule_handles(&listing, ip), strs(&["42"]));
    let cmds = unban_commands(Firewall::Nft, &listing, ip);
    assert_eq!(cmds.len(), 1);
    assert_eq!(cmds[0].args.last().map(|s| s.as_str()), Some("42"));
}
