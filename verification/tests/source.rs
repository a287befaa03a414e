use antibot::source::{
    forwarded_lines, line_count_command, parse_line_count, poll_start, poll_step, ssh_destination,
    tail_command, tail_line, PollAction, PollEvent, PollState,
};

#[test]
fn local_lines_lose_trailing_whitespace() {
    assert_eq!(tail_line("GET /x  \r\n"), Some("GET /x".to_string()));
    assert_eq!(tail_line("  a b\n"), Some("  a b".to_string()));
    assert_eq!(tail_line(" \t\r\n"), None);
    assert_eq!(tail_line(""), None);
}

#[test]
fn destination_has_the_user_when_given() {
    assert_eq!(ssh_destination("edge.example.com", Some("deploy")), "deploy@edge.example.com");
    assert_eq!(ssh_destination("edge.example.com", None), "edge.example.com");
}

#[test]
fn line_count_is_the_first_word() {
    assert_eq!(parse_line_count("  42 /var/log/nginx/access.log\n", 0), 42);
    assert_eq!(parse_line_count("+7 x", 3), 7);
    assert_eq!(parse_line_count("-1 x", 3), 3);
    assert_eq!(parse_line_count("12a", 3), 3);
    assert_eq!(parse_line_count("", 3), 3);
    assert_eq!(parse_line_count("+", 3), 3);
    assert_eq!(parse_line_count("18446744073709551615", 3), u64::MAX);
    assert_eq!(parse_line_count("18446744073709551616", 3), 3);
    assert_eq!(parse_line_count("007", 3), 7);
}

#[test]
fn blank_lines_are_not_forwarded() {
    assert_eq!(
        forwarded_lines("a\r\n\n  \nb c \n\r"),
        vec!["a".to_string(), "b c ".to_string()]
    );
    assert!(forwarded_lines("").is_empty());
}

#[test]
fn remote_commands() {
    assert_eq!(line_count_command("/var/log/x"), vec!["wc", "-l", "/var/log/x"]);
    assert_eq!(tail_command(15, "/var/log/x"), vec!["tail", "-n", "15", "/var/log/x"]);
}

#[test]
fn polling_fetches_only_new_lines() {
    let st = poll_start("10 /var/log/x\n");
    assert_eq!(st, PollState { last_line_count: 10, pending: None });
    // no growth: wait
    let (st, act) = poll_step(st, PollEvent::LineCount("10 /var/log/x".to_string()));
    assert!(matches!(act, PollAction::Wait));
    // unreadable count: keeps the last one
    let (st, act) = poll_step(st, PollEvent::LineCount("oops".to_string()));
    assert!(matches!(act, PollAction::Wait));
    assert_eq!(st.last_line_count, 10);
    // growth by 3
    let (st, act) = poll_step(st, PollEvent::LineCount("13 /var/log/x".to_string()));
    assert!(matches!(act, PollAction::FetchTail { new_lines: 3 }));
    assert_eq!(st, PollState { last_line_count: 10, pending: Some(13) });
    let (st, act) = poll_step(st, PollEvent::Tail("l1\n\nl3\n".to_string()));
    match act {
        PollAction::Forward { lines } => assert_eq!(lines, vec!["l1".to_string(), "l3".to_string()]),
        _ => panic!("expected lines to forward"),
    }
    assert_eq!(st, PollState { last_line_count: 13, pending: None });
    // a shrunk file (rotation) is waited out
    let (st, act) = poll_step(st, PollEvent::LineCount("2 /var/log/x".to_string()));
    assert!(matches!(act, PollAction::Wait));
    assert_eq!(st.last_line_count, 13);
}

#[test]
fn polling_starts_from_zero_without_a_count() {
    assert_eq!(poll_start("wc: cannot open"), PollState { last_line_count: 0, pending: None });
}

#[test]
fn polling_rounds_forward_each_appended_line_once() {
    // the remote file grows over four rounds; each round counts, then
    // fetches the last new lines
    let snapshots: Vec<Vec<&str>> = vec![
        vec!["old1", "old2"],
        vec!["old1", "old2", "a", "  "],
        vec!["old1", "old2", "a", "  "],
        vec!["old1", "old2", "a", "  ", "b", "c"],
    ];
    let mut st = poll_start("2 access.log\n");
    let mut forwarded: Vec<String> = Vec::new();
    for snap in snapshots.iter() {
        let (next, act) = poll_step(st, PollEvent::LineCount(format!("{} access.log\n", snap.len())));
        st = next;
        if let PollAction::FetchTail { new_lines } = act {
            let tail: String = snap[snap.len() - new_lines as usize..].iter().map(|l| format!("{}\n", l)).collect();
            let (next, act) = poll_step(st, PollEvent::Tail(tail));
            st = next;
            if let PollAction::Forward { lines } = act {
                forwarded.extend(lines);
            }
        }
    }
    assert_eq!(forwarded, vec!["a".to_string(), "b".to_string(), "c".to_string()]);
    assert_eq!(st, PollState { last_line_count: 6, pending: None });
}

#[test]
fn crlf_lines_are_forwarded_without_the_carriage_return() {
    let st = poll_start("1 f\n");
    let (st, act) = poll_step(st, PollEvent::LineCount("3 f\n".to_string()));
    assert!(matches!(act, PollAction::FetchTail { new_lines: 2 }));
    let (_, act) = poll_step(st, PollEvent::Tail("x\r\n y \r\n".to_string()));
    match act {
        PollAction::Forward { lines } => assert_eq!(lines, vec!["x".to_string(), " y ".to_string()]),
        _ => panic!("expected lines to forward"),
    }
}
