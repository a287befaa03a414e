use antibot::db::{registration, Registration};
use antibot::db::{ban_reason, blacklist_upsert_sql, event_from_parsed, schema_statements};
use antibot::logparse::parse_line;

#[test]
fn upsert_with_a_duration_expires() {
    let sql = blacklist_upsert_sql(24);
    assert_eq!(
        sql,
        "
        INSERT INTO blacklist (ip, reason, hits, expires_at, source_host)
        VALUES ($1::text::inet, $2, 1, now() + interval '24 hours', $3)
        ON CONFLICT (ip) DO UPDATE
            SET hits = blacklist.hits + 1,
                reason = EXCLUDED.reason
        "
    );
}

#[test]
fn upsert_without_a_duration_is_permanent() {
    for ttl in [0, -5, i64::MIN] {
        let sql = blacklist_upsert_sql(ttl);
        assert!(sql.contains("VALUES ($1::text::inet, $2, 1, NULL, $3)"));
        assert!(!sql.contains("interval"));
    }
    assert!(blacklist_upsert_sql(i64::MAX).contains("interval '9223372036854775807 hours'"));
}

#[test]
fn detector_reason_names_count_and_window() {
    assert_eq!(ban_reason(150, 60), "150 req em 60s");
    assert_eq!(ban_reason(0, 1), "0 req em 1s");
    assert_eq!(ban_reason(-3, i64::MIN), "-3 req em -9223372036854775808s");
}

#[test]
fn schema_splits_into_trimmed_statements() {
    let schema = "CREATE TABLE a (x int);\n\n  ;\nCREATE INDEX b ON a (x) ;  \n-- end\n";
    assert_eq!(
        schema_statements(schema),
        vec!["CREATE TABLE a (x int)".to_string(), "CREATE INDEX b ON a (x)".to_string(), "-- end".to_string()]
    );
    assert!(schema_statements("").is_empty());
    assert!(schema_statements(" ; ;\n").is_empty());
}

#[test]
fn event_keeps_the_parsed_fields() {
    let line = r#"203.0.113.5 - - [27/Jul/2026:12:00:00 +0000] "GET /index.html HTTP/1.1" 404 512 "-" "Mozilla/5.0""#;
    let e = event_from_parsed(7, parse_line(line).unwrap());
    assert_eq!(e.server_id, 7);
    assert_eq!(e.ip, "203.0.113.5");
    assert_eq!(e.method.as_deref(), Some("GET"));
    assert_eq!(e.path.as_deref(), Some("/index.html"));
    assert_eq!(e.status_code, Some(404));
    assert_eq!(e.user_agent.as_deref(), Some("Mozilla/5.0"));
}

#[test]
fn only_unknown_servers_are_registered() {
    assert_eq!(registration(Some(9)), Registration::Known(9));
    assert_eq!(registration(None), Registration::Register);
}
