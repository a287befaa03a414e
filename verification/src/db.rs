//! The records that the shared database keeps, and the statements that the
//! library composes for it.
use vstd::prelude::*;

use crate::logparse::ParsedLine;
use crate::text::{
    int_decimal, lemma_split_char_first, push_i64, push_str, split_char,
    split_chars, trim, trim_str, views,
};

verus! {

/// One request seen in a server's access log, as `traffic_log` stores it.
#[derive(Debug, Clone)]
pub struct RequestEvent {
    pub server_id: i32,
    pub ip: String,
    pub user_agent: Option<String>,
    pub path: Option<String>,
    pub method: Option<String>,
    pub status_code: Option<i32>,
}

pub open spec fn opt_view(o: Option<String>) -> Option<Seq<char>> {
    match o {
        Some(x) => Some(x@),
        None => None,
    }
}

/// `e` records the request that `p` describes, seen on server `server_id`.
pub open spec fn event_of(e: RequestEvent, server_id: i32, p: ParsedLine) -> bool {
    &&& e.server_id == server_id
    &&& e.ip@ == p.ip@
    &&& opt_view(e.user_agent) == opt_view(p.user_agent)
    &&& opt_view(e.path) == opt_view(p.path)
    &&& opt_view(e.method) == opt_view(p.method)
    &&& e.status_code == p.status_code
}

/// The event that records the parsed line `p` for server `server_id`.
pub fn event_from_parsed(server_id: i32, p: ParsedLine) -> (e: RequestEvent)
    ensures
        event_of(e, server_id, p),
{
    RequestEvent {
        server_id,
        ip: p.ip,
        user_agent: p.user_agent,
        path: p.path,
        method: p.method,
        status_code: p.status_code,
    }
}

/// A point in time in UTC: whole seconds since the Unix epoch and the
/// nanoseconds past them.
#[derive(Debug, Clone, Copy, PartialEq, Eq, Structural)]
pub struct UtcTime {
    pub secs: i64,
    pub nanos: u32,
}

/// One row of the shared blacklist.
#[derive(Debug, Clone)]
pub struct BlacklistEntry {
    pub ip: String,
    pub reason: String,
    pub hits: i32,
    /// When the ban ends; `None` for a permanent ban.
    pub expires_at: Option<UtcTime>,
}

/// A ban to record in the shared blacklist.
#[derive(Debug, Clone)]
pub struct BanRecord {
    pub ip: String,
    pub reason: String,
    pub ttl_hours: i64,
    /// The server, or the manual channel, that decided the ban.
    pub source_host: String,
}

/// The expiry that a ban of `ttl_hours` gets: an interval from now, or
/// `NULL` (no expiry) when the duration is not positive.
pub open spec fn expiry_sql(ttl_hours: i64) -> Seq<char> {
    if ttl_hours > 0 {
        "now() + interval '"@ + int_decimal(ttl_hours as int) + " hours'"@
    } else {
        "NULL"@
    }
}

/// The upsert into `blacklist`: a new IP enters with one hit and the
/// expiry of `ttl_hours`; a known IP gains a hit and takes the new reason.
pub open spec fn blacklist_upsert(ttl_hours: i64) -> Seq<char> {
    "
        INSERT INTO blacklist (ip, reason, hits, expires_at, source_host)
        VALUES ($1::text::inet, $2, 1, "@ + expiry_sql(ttl_hours) + ", $3)
        ON CONFLICT (ip) DO UPDATE
            SET hits = blacklist.hits + 1,
                reason = EXCLUDED.reason
        "@
}

/// The statement that records a ban lasting `ttl_hours` (bound parameters:
/// IP, reason, source).
pub fn blacklist_upsert_sql(ttl_hours: i64) -> (r: String)
    ensures
        r@ == blacklist_upsert(ttl_hours),
{
    let mut r = String::new();
    push_str(
        &mut r,
        "
        INSERT INTO blacklist (ip, reason, hits, expires_at, source_host)
        VALUES ($1::text::inet, $2, 1, ",
    );
    if ttl_hours > 0 {
        push_str(&mut r, "now() + interval '");
        push_i64(&mut r, ttl_hours);
        push_str(&mut r, " hours'");
    } else {
        push_str(&mut r, "NULL");
    }
    push_str(
        &mut r,
        ", $3)
        ON CONFLICT (ip) DO UPDATE
            SET hits = blacklist.hits + 1,
                reason = EXCLUDED.reason
        ",
    );
    assert(r@ =~= blacklist_upsert(ttl_hours));
    r
}

/// Whatever the duration, a ban is recorded by the same statement: only the
/// expiry expression depends on it. Every upsert opens with the insert of a
/// new IP with one hit and closes with the conflict clause under which a
/// known IP gains a hit and takes the new reason; two durations give texts
/// that agree outside their expiry expressions.
pub proof fn upsert_varies_only_in_expiry(t: i64, u: i64)
    ensures
        ({
            let head = "
        INSERT INTO blacklist (ip, reason, hits, expires_at, source_host)
        VALUES ($1::text::inet, $2, 1, "@;
            let conflict = "ON CONFLICT (ip) DO UPDATE
            SET hits = blacklist.hits + 1,
                reason = EXCLUDED.reason
        "@;
            let a = blacklist_upsert(t);
            let b = blacklist_upsert(u);
            let h = head.len() as int;
            let at = h + expiry_sql(t).len();
            let bt = h + expiry_sql(u).len();
            &&& a.subrange(0, h) == head
            &&& a.subrange(h, at) == expiry_sql(t)
            &&& a.subrange(0, h) == b.subrange(0, h)
            &&& a.len() - at == b.len() - bt
            &&& a.subrange(at, a.len() as int) == b.subrange(bt, b.len() as int)
            &&& a.subrange(a.len() - conflict.len(), a.len() as int) == conflict
        }),
{
    let head = "
        INSERT INTO blacklist (ip, reason, hits, expires_at, source_host)
        VALUES ($1::text::inet, $2, 1, "@;
    let tail = ", $3)
        ON CONFLICT (ip) DO UPDATE
            SET hits = blacklist.hits + 1,
                reason = EXCLUDED.reason
        "@;
    let conflict = "ON CONFLICT (ip) DO UPDATE
            SET hits = blacklist.hits + 1,
                reason = EXCLUDED.reason
        "@;
    reveal_strlit("
        INSERT INTO blacklist (ip, reason, hits, expires_at, source_host)
        VALUES ($1::text::inet, $2, 1, ");
    reveal_strlit(", $3)
        ON CONFLICT (ip) DO UPDATE
            SET hits = blacklist.hits + 1,
                reason = EXCLUDED.reason
        ");
    reveal_strlit("ON CONFLICT (ip) DO UPDATE
            SET hits = blacklist.hits + 1,
                reason = EXCLUDED.reason
        ");
    let h = head.len() as int;
    assert(tail.subrange(tail.len() - conflict.len(), tail.len() as int) =~= conflict);
    let a = blacklist_upsert(t);
    let b = blacklist_upsert(u);
    assert(a == head + expiry_sql(t) + tail);
    assert(b == head + expiry_sql(u) + tail);
    let at = h + expiry_sql(t).len();
    let bt = h + expiry_sql(u).len();
    assert(a.subrange(0, h) =~= head);
    assert(b.subrange(0, h) =~= head);
    assert(a.subrange(h, at) =~= expiry_sql(t));
    assert(a.subrange(at, a.len() as int) =~= tail);
    assert(b.subrange(bt, b.len() as int) =~= tail);
    assert(a.subrange(a.len() - conflict.len(), a.len() as int) =~= tail.subrange(
        tail.len() - conflict.len(),
        tail.len() as int,
    ));
}

/// The reason recorded for a ban that the detector decided:
/// `"<count> req em <window>s"`.
pub open spec fn detector_reason(count: i64, window_seconds: i64) -> Seq<char> {
    int_decimal(count as int) + " req em "@ + int_decimal(window_seconds as int) + "s"@
}

pub fn ban_reason(count: i64, window_seconds: i64) -> (r: String)
    ensures
        r@ == detector_reason(count, window_seconds),
{
    let mut r = String::new();
    push_i64(&mut r, count);
    push_str(&mut r, " req em ");
    push_i64(&mut r, window_seconds);
    push_str(&mut r, "s");
    assert(r@ =~= detector_reason(count, window_seconds));
    r
}

/// The statements of a schema script: the pieces between `;`, trimmed,
/// without the empty ones, in order.
pub open spec fn statements(schema: Seq<char>) -> Seq<Seq<char>> {
    split_char(schema, ';').map_values(|x: Seq<char>| trim(x)).filter(
        |x: Seq<char>| x.len() > 0,
    )
}

pub fn schema_statements(schema: &str) -> (r: Vec<String>)
    ensures
        views(r@) == statements(schema@),
{
    let v = crate::text::chars_of(schema);
    let pieces = split_chars(&v, ';');
    let ghost trimmed = split_char(schema@, ';').map_values(|x: Seq<char>| trim(x));
    let mut r: Vec<String> = Vec::new();
    let mut i: usize = 0;
    while i < pieces.len()
        invariant
            i <= pieces.len(),
            views(pieces@) == split_char(schema@, ';'),
            trimmed == split_char(schema@, ';').map_values(|x: Seq<char>| trim(x)),
            views(r@) == trimmed.take(i as int).filter(|x: Seq<char>| x.len() > 0),
        decreases pieces.len() - i,
    {
        let t = trim_str(pieces[i].as_str());
        assert(views(pieces@)[i as int] == pieces@[i as int]@);
        assert(t@ == trimmed[i as int]);
        let ghost before = r@;
        proof {
            reveal_with_fuel(Seq::<_>::filter, 1);
            assert(trimmed.take(i + 1).drop_last() =~= trimmed.take(i as int));
        }
        if t.unicode_len() > 0 {
            r.push(t);
            assert(views(r@) =~= views(before).push(t@));
        }
        i = i + 1;
    }
    assert(trimmed.take(pieces.len() as int) =~= trimmed);
    r
}

/// A schema script splits at `;` and nowhere else: when `t` holds no `;`,
/// the statements of `t`, `;` and `rest` are `t` trimmed (if anything is
/// left of it, line breaks inside kept) followed by the statements of `rest`.
pub proof fn statement_ends_at_semicolon(t: Seq<char>, rest: Seq<char>)
    requires
        forall|x: int| 0 <= x < t.len() ==> #[trigger] t[x] != ';',
    ensures
        statements(t + seq![';'] + rest) == (if trim(t).len() > 0 {
            seq![trim(t)]
        } else {
            Seq::<Seq<char>>::empty()
        }) + statements(rest),
{
    lemma_split_char_first(t, rest, ';');
    let f = |x: Seq<char>| trim(x);
    let pred = |x: Seq<char>| x.len() > 0;
    let tail = split_char(rest, ';');
    assert((seq![t] + tail).map_values(f) =~= seq![trim(t)] + tail.map_values(f));
    Seq::filter_distributes_over_add(seq![trim(t)], tail.map_values(f), pred);
    reveal_with_fuel(Seq::<_>::filter, 2);
    if trim(t).len() > 0 {
        assert(seq![trim(t)].filter(pred) =~= seq![trim(t)]);
    } else {
        assert(seq![trim(t)].filter(pred) =~= Seq::<Seq<char>>::empty());
    }
}

/// A script that is one statement closed by `;` gives exactly that
/// statement, trimmed, with its line breaks.
pub proof fn single_statement_kept_whole(t: Seq<char>)
    requires
        forall|x: int| 0 <= x < t.len() ==> #[trigger] t[x] != ';',
        trim(t).len() > 0,
    ensures
        statements(t + seq![';']) == seq![trim(t)],
{
    statement_ends_at_semicolon(t, Seq::empty());
    assert(t + seq![';'] + Seq::<char>::empty() =~= t + seq![';']);
    let e = Seq::<char>::empty();
    assert(crate::text::find_from(e, 0, ';') == 0);
    assert(e.subrange(0, 0) =~= e);
    assert(split_char(e, ';') == seq![e]);
    assert(trim(e) =~= e);
    reveal_with_fuel(Seq::<_>::filter, 2);
    assert(split_char(e, ';').map_values(|x: Seq<char>| trim(x)) =~= seq![e]);
    assert(statements(e) =~= Seq::<Seq<char>>::empty());
    assert(seq![trim(t)] + Seq::<Seq<char>>::empty() =~= seq![trim(t)]);
}

/// Whether a server still has to be registered.
#[derive(Debug, Clone, Copy, PartialEq, Eq, Structural)]
pub enum Registration {
    /// The server is known under this id.
    Known(i32),
    /// The server is unknown: register it.
    Register,
}

/// A server already in the database keeps its id; only an unknown one is
/// registered.
pub fn registration(found: Option<i32>) -> (r: Registration)
    ensures
        match found {
            Some(id) => r == Registration::Known(id),
            None => r == Registration::Register,
        },
{
    match found {
        Some(id) => Registration::Known(id),
        None => Registration::Register,
    }
}

} // verus!
