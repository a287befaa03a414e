use antibot::logparse::parse_line;

const PATTERN: &str = r#"^(?P<ip>\S+)\s+\S+\s+\S+\s+\[[^\]]+\]\s+"(?P<method>[A-Z]+)\s+(?P<path>\S+)\s+[^"]*"\s+(?P<status>\d{3})\s+\S+\s+"[^"]*"\s+"(?P<ua>[^"]*)""#;

/// The fields that the combined-format pattern captures, read with the
/// `regex` crate, as (ip, method, path, status, user agent).
fn regex_fields(
    re: &regex::Regex,
    line: &str,
) -> Option<(String, Option<String>, Option<String>, Option<i32>, Option<String>)> {
    let caps = re.captures(line)?;
    Some((
        caps.name("ip")?.as_str().to_string(),
        caps.name("method").map(|m| m.as_str().to_string()),
        caps.name("path").map(|m| m.as_str().to_string()),
        caps.name("status").and_then(|m| m.as_str().parse::<i32>().ok()),
        caps.name("ua").map(|m| m.as_str().to_string()),
    ))
}

fn ours(line: &str) -> Option<(String, Option<String>, Option<String>, Option<i32>, Option<String>)> {
    parse_line(line).map(|p| (p.ip, p.method, p.path, p.status_code, p.user_agent))
}

#[test]
fn parses_combined_log() {
    let line = r#"203.0.113.5 - - [27/Jul/2026:12:00:00 +0000] "GET /index.html HTTP/1.1" 200 512 "-" "Mozilla/5.0""#;
    let p = parse_line(line).unwrap();
    assert_eq!(p.ip, "203.0.113.5");
    assert_eq!(p.method.as_deref(), Some("GET"));
    assert_eq!(p.status_code, Some(200));
}

#[test]
fn parses_all_fields() {
    let line = r#"198.51.100.7 - alice [01/Jan/2026:00:00:01 -0300] "POST /api/login?x=1 HTTP/2.0" 401 17 "https://example.com/" "curl/8.4.0 (x86_64)" extra"#;
    let p = parse_line(line).unwrap();
    assert_eq!(p.ip, "198.51.100.7");
    assert_eq!(p.method.as_deref(), Some("POST"));
    assert_eq!(p.path.as_deref(), Some("/api/login?x=1"));
    assert_eq!(p.status_code, Some(401));
    assert_eq!(p.user_agent.as_deref(), Some("curl/8.4.0 (x86_64)"));
}

#[test]
fn rejects_lines_outside_the_format() {
    assert!(parse_line("").is_none());
    assert!(parse_line("garbage").is_none());
    // lowercase method
    assert!(parse_line(r#"1.2.3.4 - - [t] "get / HTTP/1.1" 200 1 "-" "ua""#).is_none());
    // four-digit status
    assert!(parse_line(r#"1.2.3.4 - - [t] "GET / HTTP/1.1" 2000 1 "-" "ua""#).is_none());
    // empty time brackets
    assert!(parse_line(r#"1.2.3.4 - - [] "GET / HTTP/1.1" 200 1 "-" "ua""#).is_none());
    // missing closing quote of the user agent
    assert!(parse_line(r#"1.2.3.4 - - [t] "GET / HTTP/1.1" 200 1 "-" "ua"#).is_none());
    // leading whitespace: the pattern is anchored
    assert!(parse_line(r#" 1.2.3.4 - - [t] "GET / HTTP/1.1" 200 1 "-" "ua""#).is_none());
}

#[test]
fn status_in_other_digits_matches_without_a_code() {
    // U+0662 ARABIC-INDIC DIGIT TWO is a decimal digit but does not parse.
    let line = "1.2.3.4 - - [t] \"GET / HTTP/1.1\" \u{662}00 1 \"-\" \"ua\"";
    let p = parse_line(line).unwrap();
    assert_eq!(p.ip, "1.2.3.4");
    assert_eq!(p.status_code, None);
}

#[test]
fn unicode_whitespace_separates_fields() {
    let line = "1.2.3.4\u{3000}-\t-  [t]\u{a0}\"GET\u{2003}/x HTTP/1.1\" 304 0 \"-\" \"ua\"";
    let p = parse_line(line).unwrap();
    assert_eq!(p.ip, "1.2.3.4");
    assert_eq!(p.path.as_deref(), Some("/x"));
    assert_eq!(p.status_code, Some(304));
}

#[test]
fn agrees_with_the_regular_expression() {
    let re = regex::Regex::new(PATTERN).unwrap();
    let base = [
        r#"203.0.113.5 - - [27/Jul/2026:12:00:00 +0000] "GET /index.html HTTP/1.1" 200 512 "-" "Mozilla/5.0""#,
        r#"10.0.0.1 - bob [27/Jul/2026:12:00:00 +0000] "DELETE /a"b HTTP/1.1" 500 - "ref" "ua" trailing"#,
        r#"a b c [x] "GET / " 200 1 "" """#,
        r#"::1 - - [d] "HEAD  /p   q r" 099 9 "-" "-""#,
        "1.2.3.4 - - [t] \"GET / HTTP/1.1\" \u{662}00 1 \"-\" \"ua\"",
        "x\u{85}y z [w] \"GET /\u{85}x\" 200 1 \"r\" \"u\"",
    ];
    let mut cases: Vec<String> = Vec::new();
    for b in base.iter() {
        let chars: Vec<char> = b.chars().collect();
        cases.push(b.to_string());
        for i in 0..chars.len() {
            // drop one character
            let mut v = chars.clone();
            v.remove(i);
            cases.push(v.iter().collect());
            // replace one character by a few interesting ones
            for r in [' ', '"', ']', '[', 'A', '7', '\t', 'x', '\u{2000}'] {
                let mut w = chars.clone();
                w[i] = r;
                cases.push(w.iter().collect());
            }
        }
    }
    for c in cases.iter() {
        assert_eq!(ours(c), regex_fields(&re, c), "line: {:?}", c);
    }
}
