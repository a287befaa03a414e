//! Access-log lines in the "combined" format of nginx and apache:
//!
//! `1.2.3.4 - - [27/Jul/2026:12:00:00 +0000] "GET /path HTTP/1.1" 200 1234 "-" "Mozilla/5.0 ..."`
//!
//! The grammar is the pattern
//! `^(?P<ip>\S+)\s+\S+\s+\S+\s+\[[^\]]+\]\s+"(?P<method>[A-Z]+)\s+(?P<path>\S+)\s+[^"]*"\s+(?P<status>\d{3})\s+\S+\s+"[^"]*"\s+"(?P<ua>[^"]*)"`
//! with Unicode classes: `\s` is `White_Space`, `\S` its complement and `\d`
//! the category `Nd`. The pattern is anchored at the start of the line only;
//! whatever follows the closing quote of the user agent is ignored.
use vstd::prelude::*;

use crate::text::{
    all_in, chars_of, in_class, is_ascii_digit, is_decimal_digit_char, lemma_scan,
    lemma_scan_unique, scan, skip, string_of, CharClass,
};

verus! {

/// `s[i..j]` is a nonempty run of class `k` (a `+` repetition).
pub open spec fn some_in(s: Seq<char>, i: int, j: int, k: CharClass) -> bool {
    i < j && all_in(s, i, j, k)
}

/// `s[i]` is `c`.
pub open spec fn char_at(s: Seq<char>, i: int, c: char) -> bool {
    0 <= i < s.len() && s[i] == c
}

/// The positions at which the pieces of the pattern meet in one match.
pub struct Cuts {
    pub ip_end: int,
    pub ident_start: int,
    pub ident_end: int,
    pub user_start: int,
    pub user_end: int,
    pub time_open: int,
    pub time_close: int,
    pub request_open: int,
    pub method_end: int,
    pub path_start: int,
    pub path_end: int,
    pub proto_start: int,
    pub request_close: int,
    pub status_start: int,
    pub bytes_start: int,
    pub bytes_end: int,
    pub referer_open: int,
    pub referer_close: int,
    pub agent_open: int,
    pub agent_close: int,
}

/// `m` cuts a prefix of `s` into the pieces of the combined-format pattern,
/// in order.
pub open spec fn combined_match(s: Seq<char>, m: Cuts) -> bool {
    &&& some_in(s, 0, m.ip_end, CharClass::NonWs)
    &&& some_in(s, m.ip_end, m.ident_start, CharClass::Ws)
    &&& some_in(s, m.ident_start, m.ident_end, CharClass::NonWs)
    &&& some_in(s, m.ident_end, m.user_start, CharClass::Ws)
    &&& some_in(s, m.user_start, m.user_end, CharClass::NonWs)
    &&& some_in(s, m.user_end, m.time_open, CharClass::Ws)
    &&& char_at(s, m.time_open, '[')
    &&& some_in(s, m.time_open + 1, m.time_close, CharClass::NotRBracket)
    &&& char_at(s, m.time_close, ']')
    &&& some_in(s, m.time_close + 1, m.request_open, CharClass::Ws)
    &&& char_at(s, m.request_open, '"')
    &&& some_in(s, m.request_open + 1, m.method_end, CharClass::Upper)
    &&& some_in(s, m.method_end, m.path_start, CharClass::Ws)
    &&& some_in(s, m.path_start, m.path_end, CharClass::NonWs)
    &&& some_in(s, m.path_end, m.proto_start, CharClass::Ws)
    &&& all_in(s, m.proto_start, m.request_close, CharClass::NotQuote)
    &&& char_at(s, m.request_close, '"')
    &&& some_in(s, m.request_close + 1, m.status_start, CharClass::Ws)
    &&& all_in(s, m.status_start, m.status_start + 3, CharClass::Digit)
    &&& some_in(s, m.status_start + 3, m.bytes_start, CharClass::Ws)
    &&& some_in(s, m.bytes_start, m.bytes_end, CharClass::NonWs)
    &&& some_in(s, m.bytes_end, m.referer_open, CharClass::Ws)
    &&& char_at(s, m.referer_open, '"')
    &&& all_in(s, m.referer_open + 1, m.referer_close, CharClass::NotQuote)
    &&& char_at(s, m.referer_close, '"')
    &&& some_in(s, m.referer_close + 1, m.agent_open, CharClass::Ws)
    &&& char_at(s, m.agent_open, '"')
    &&& all_in(s, m.agent_open + 1, m.agent_close, CharClass::NotQuote)
    &&& char_at(s, m.agent_close, '"')
}

/// The status code that the three characters `s[i..i + 3]` spell as a
/// decimal `i32`: a value only when all three are ASCII digits (other
/// decimal digits match the pattern but do not parse).
pub open spec fn status_value(s: Seq<char>, i: int) -> Option<i32> {
    if is_ascii_digit(s[i]) && is_ascii_digit(s[i + 1]) && is_ascii_digit(s[i + 2]) {
        Some(
            (100 * (s[i] as int - '0' as int) + 10 * (s[i + 1] as int - '0' as int) + (s[i + 2] as int
                - '0' as int)) as i32,
        )
    } else {
        None
    }
}

/// The fields of one parsed log line.
#[derive(Debug, Clone)]
pub struct ParsedLine {
    pub ip: String,
    pub method: Option<String>,
    pub path: Option<String>,
    pub status_code: Option<i32>,
    pub user_agent: Option<String>,
}

/// `p` holds the groups that the match `m` captures in `s`.
pub open spec fn captures(p: ParsedLine, s: Seq<char>, m: Cuts) -> bool {
    &&& p.ip@ == s.subrange(0, m.ip_end)
    &&& p.method matches Some(x) && x@ == s.subrange(m.request_open + 1, m.method_end)
    &&& p.path matches Some(x) && x@ == s.subrange(m.path_start, m.path_end)
    &&& p.status_code == status_value(s, m.status_start)
    &&& p.user_agent matches Some(x) && x@ == s.subrange(m.agent_open + 1, m.agent_close)
}

/// Each cut of `m` that ends a repetition is where the greedy scan of that
/// repetition stops.
pub open spec fn greedy_cuts(s: Seq<char>, m: Cuts) -> bool {
    &&& m.ip_end == scan(s, 0, CharClass::NonWs)
    &&& m.ident_start == scan(s, m.ip_end, CharClass::Ws)
    &&& m.ident_end == scan(s, m.ident_start, CharClass::NonWs)
    &&& m.user_start == scan(s, m.ident_end, CharClass::Ws)
    &&& m.user_end == scan(s, m.user_start, CharClass::NonWs)
    &&& m.time_open == scan(s, m.user_end, CharClass::Ws)
    &&& m.time_close == scan(s, m.time_open + 1, CharClass::NotRBracket)
    &&& m.request_open == scan(s, m.time_close + 1, CharClass::Ws)
    &&& m.method_end == scan(s, m.request_open + 1, CharClass::Upper)
    &&& m.path_start == scan(s, m.method_end, CharClass::Ws)
    &&& m.path_end == scan(s, m.path_start, CharClass::NonWs)
    &&& m.request_close == scan(s, m.path_end, CharClass::NotQuote)
    &&& m.status_start == scan(s, m.request_close + 1, CharClass::Ws)
    &&& m.bytes_start == scan(s, m.status_start + 3, CharClass::Ws)
    &&& m.bytes_end == scan(s, m.bytes_start, CharClass::NonWs)
    &&& m.referer_open == scan(s, m.bytes_end, CharClass::Ws)
    &&& m.referer_close == scan(s, m.referer_open + 1, CharClass::NotQuote)
    &&& m.agent_open == scan(s, m.referer_close + 1, CharClass::Ws)
    &&& m.agent_close == scan(s, m.agent_open + 1, CharClass::NotQuote)
}

/// In any match, each cut is where the greedy scan of the preceding piece
/// stops; the cuts that bound a captured group are thereby fixed.
proof fn lemma_match_cuts(s: Seq<char>, m: Cuts)
    requires
        combined_match(s, m),
    ensures
        greedy_cuts(s, m),
{
    lemma_scan_unique(s, 0, m.ip_end, CharClass::NonWs);
    lemma_scan_unique(s, m.ip_end, m.ident_start, CharClass::Ws);
    lemma_scan_unique(s, m.ident_start, m.ident_end, CharClass::NonWs);
    lemma_scan_unique(s, m.ident_end, m.user_start, CharClass::Ws);
    lemma_scan_unique(s, m.user_start, m.user_end, CharClass::NonWs);
    lemma_scan_unique(s, m.user_end, m.time_open, CharClass::Ws);
    lemma_scan_unique(s, m.time_open + 1, m.time_close, CharClass::NotRBracket);
    lemma_scan_unique(s, m.time_close + 1, m.request_open, CharClass::Ws);
    lemma_scan_unique(s, m.request_open + 1, m.method_end, CharClass::Upper);
    lemma_scan_unique(s, m.method_end, m.path_start, CharClass::Ws);
    lemma_scan_unique(s, m.path_start, m.path_end, CharClass::NonWs);
    assert(all_in(s, m.path_end, m.request_close, CharClass::NotQuote)) by {
        assert forall|x: int| m.path_end <= x < m.request_close implies in_class(
            CharClass::NotQuote,
            #[trigger] s[x],
        ) by {
            if x < m.proto_start {
                assert(in_class(CharClass::Ws, s[x]));
            } else {
                assert(in_class(CharClass::NotQuote, s[x]));
            }
        }
    }
    lemma_scan_unique(s, m.path_end, m.request_close, CharClass::NotQuote);
    lemma_scan_unique(s, m.request_close + 1, m.status_start, CharClass::Ws);
    lemma_scan_unique(s, m.status_start + 3, m.bytes_start, CharClass::Ws);
    lemma_scan_unique(s, m.bytes_start, m.bytes_end, CharClass::NonWs);
    lemma_scan_unique(s, m.bytes_end, m.referer_open, CharClass::Ws);
    lemma_scan_unique(s, m.referer_open + 1, m.referer_close, CharClass::NotQuote);
    lemma_scan_unique(s, m.referer_close + 1, m.agent_open, CharClass::Ws);
    lemma_scan_unique(s, m.agent_open + 1, m.agent_close, CharClass::NotQuote);
}

/// The pattern is unambiguous where it captures: two matches of one line
/// agree on the bounds of every captured group, so the parsed fields do not
/// depend on which match is taken.
pub proof fn combined_match_captures_unique(s: Seq<char>, m1: Cuts, m2: Cuts)
    requires
        combined_match(s, m1),
        combined_match(s, m2),
    ensures
        m1.ip_end == m2.ip_end,
        m1.request_open == m2.request_open,
        m1.method_end == m2.method_end,
        m1.path_start == m2.path_start,
        m1.path_end == m2.path_end,
        m1.status_start == m2.status_start,
        m1.agent_open == m2.agent_open,
        m1.agent_close == m2.agent_close,
{
    lemma_match_cuts(s, m1);
    lemma_match_cuts(s, m2);
}

fn status_of(v: &Vec<char>, i: usize) -> (r: Option<i32>)
    requires
        i + 3 <= v.len(),
    ensures
        r == status_value(v@, i as int),
{
    let a = v[i];
    let b = v[i + 1];
    let c = v[i + 2];
    if '0' <= a && a <= '9' && '0' <= b && b <= '9' && '0' <= c && c <= '9' {
        let x = (a as u32 - '0' as u32) as i32;
        let y = (b as u32 - '0' as u32) as i32;
        let z = (c as u32 - '0' as u32) as i32;
        Some(100 * x + 10 * y + z)
    } else {
        None
    }
}

/// Parses one access-log line in the combined format. `None` exactly when
/// the line does not match the pattern; otherwise the captured groups.
#[verifier::rlimit(60)]
#[verifier::spinoff_prover]
pub fn parse_line(line: &str) -> (r: Option<ParsedLine>)
    ensures
        r is Some <==> exists|m: Cuts| combined_match(line@, m),
        forall|m: Cuts| #[trigger] combined_match(line@, m) ==> (r matches Some(p) && captures(p, line@, m)),
{
    let v = chars_of(line);
    let ghost s = v@;
    let n = v.len();
    proof {
        assert forall|m: Cuts| #[trigger] combined_match(s, m) implies greedy_cuts(s, m) by {
            lemma_match_cuts(s, m);
        }
    }
    let e1 = skip(&v, 0, CharClass::NonWs);
    let e2 = skip(&v, e1, CharClass::Ws);
    let e3 = skip(&v, e2, CharClass::NonWs);
    let e4 = skip(&v, e3, CharClass::Ws);
    let e5 = skip(&v, e4, CharClass::NonWs);
    let e6 = skip(&v, e5, CharClass::Ws);
    if e1 == 0 || e2 == e1 || e3 == e2 || e4 == e3 || e5 == e4 || e6 == e5 || e6 >= n || v[e6]
        != '[' {
        return None;
    }
    let e7 = skip(&v, e6 + 1, CharClass::NotRBracket);
    if e7 == e6 + 1 || e7 >= n {
        return None;
    }
    let e8 = skip(&v, e7 + 1, CharClass::Ws);
    if e8 == e7 + 1 || e8 >= n || v[e8] != '"' {
        return None;
    }
    let e9 = skip(&v, e8 + 1, CharClass::Upper);
    let e10 = skip(&v, e9, CharClass::Ws);
    let e11 = skip(&v, e10, CharClass::NonWs);
    if e9 == e8 + 1 || e10 == e9 || e11 == e10 || e11 >= n {
        return None;
    }
    let e12 = skip(&v, e11, CharClass::Ws);
    let e13 = skip(&v, e11, CharClass::NotQuote);
    if e13 >= n {
        return None;
    }
    let e14 = skip(&v, e13 + 1, CharClass::Ws);
    if e14 == e13 + 1 || n - e14 < 4 {
        return None;
    }
    let d1 = is_decimal_digit_char(v[e14]);
    let d2 = is_decimal_digit_char(v[e14 + 1]);
    let d3 = is_decimal_digit_char(v[e14 + 2]);
    let e15 = skip(&v, e14 + 3, CharClass::Ws);
    let e16 = skip(&v, e15, CharClass::NonWs);
    let e17 = skip(&v, e16, CharClass::Ws);
    if !d1 || !d2 || !d3 || e15 == e14 + 3 || e16 == e15 || e17 == e16 || e17 >= n || v[e17]
        != '"' {
        return None;
    }
    let e18 = skip(&v, e17 + 1, CharClass::NotQuote);
    if e18 >= n {
        return None;
    }
    let e19 = skip(&v, e18 + 1, CharClass::Ws);
    if e19 == e18 + 1 || e19 >= n || v[e19] != '"' {
        return None;
    }
    let e20 = skip(&v, e19 + 1, CharClass::NotQuote);
    if e20 >= n {
        return None;
    }
    let ghost m = Cuts {
        ip_end: e1 as int,
        ident_start: e2 as int,
        ident_end: e3 as int,
        user_start: e4 as int,
        user_end: e5 as int,
        time_open: e6 as int,
        time_close: e7 as int,
        request_open: e8 as int,
        method_end: e9 as int,
        path_start: e10 as int,
        path_end: e11 as int,
        proto_start: e12 as int,
        request_close: e13 as int,
        status_start: e14 as int,
        bytes_start: e15 as int,
        bytes_end: e16 as int,
        referer_open: e17 as int,
        referer_close: e18 as int,
        agent_open: e19 as int,
        agent_close: e20 as int,
    };
    proof {
        lemma_scan(s, 0, CharClass::NonWs);
        lemma_scan(s, e1 as int, CharClass::Ws);
        lemma_scan(s, e2 as int, CharClass::NonWs);
        lemma_scan(s, e3 as int, CharClass::Ws);
        lemma_scan(s, e4 as int, CharClass::NonWs);
        lemma_scan(s, e5 as int, CharClass::Ws);
        lemma_scan(s, e6 + 1, CharClass::NotRBracket);
        lemma_scan(s, e7 + 1, CharClass::Ws);
        lemma_scan(s, e8 + 1, CharClass::Upper);
        lemma_scan(s, e9 as int, CharClass::Ws);
        lemma_scan(s, e10 as int, CharClass::NonWs);
        lemma_scan(s, e11 as int, CharClass::Ws);
        lemma_scan(s, e11 as int, CharClass::NotQuote);
        lemma_scan(s, e13 + 1, CharClass::Ws);
        lemma_scan(s, e14 + 3, CharClass::Ws);
        lemma_scan(s, e15 as int, CharClass::NonWs);
        lemma_scan(s, e16 as int, CharClass::Ws);
        lemma_scan(s, e17 + 1, CharClass::NotQuote);
        lemma_scan(s, e18 + 1, CharClass::Ws);
        lemma_scan(s, e19 + 1, CharClass::NotQuote);
        // the greedy whitespace run after the path stops before the quote
        assert(e12 <= e13) by {
            assert forall|x: int| e11 <= x < e12 implies in_class(CharClass::NotQuote, #[trigger] s[x]) by {
                assert(in_class(CharClass::Ws, s[x]));
            }
            if e13 < e12 {
                assert(in_class(CharClass::Ws, s[e13 as int]));
            }
        }
        assert(e12 > e11) by {
            assert(!in_class(CharClass::NonWs, s[e11 as int]));
        }
        assert(all_in(s, e12 as int, e13 as int, CharClass::NotQuote));
        assert(all_in(s, e14 as int, e14 + 3, CharClass::Digit)) by {
            assert forall|x: int| e14 <= x < e14 + 3 implies in_class(CharClass::Digit, #[trigger] s[x]) by {
                if x == e14 { } else if x == e14 + 1 { } else { }
            }
        }
        assert(combined_match(s, m));
    }
    let ip = string_of(&v, 0, e1);
    let method = string_of(&v, e8 + 1, e9);
    let path = string_of(&v, e10, e11);
    let status_code = status_of(&v, e14);
    let user_agent = string_of(&v, e19 + 1, e20);
    let p = ParsedLine {
        ip,
        method: Some(method),
        path: Some(path),
        status_code,
        user_agent: Some(user_agent),
    };
    proof {
        assert forall|m2: Cuts| #[trigger] combined_match(s, m2) implies captures(p, s, m2) by {
            combined_match_captures_unique(s, m, m2);
        }
    }
    Some(p)
}

} // verus!
