//! The shared blacklist as the operator sees it, and the propagation of its
//! bans to one server.
use vstd::prelude::*;

use crate::db::{BlacklistEntry, UtcTime};
use crate::text::{int_decimal, pad_right, push_i64, push_padded, push_str, views};

verus! {

/// What `chrono` writes for the UTC instant `secs` seconds and `nanos`
/// nanoseconds after the Unix epoch in RFC 3339 (`None` when `chrono`
/// cannot represent that instant).
pub uninterp spec fn chrono_rfc3339(secs: i64, nanos: u32) -> Option<Seq<char>>;

/// `chrono::DateTime::<Utc>::from_timestamp(secs, nanos)` and, when it
/// gives an instant, `DateTime::to_rfc3339`. The contract claims only that
/// the result is a function of the two numbers; which instants `chrono`
/// represents, and the exact text, are left to `chrono`.
#[verifier::external_body]
fn rfc3339(secs: i64, nanos: u32) -> (r: Option<String>)
    ensures
        match r {
            Some(x) => chrono_rfc3339(secs, nanos) == Some(x@),
            None => chrono_rfc3339(secs, nanos) is None,
        },
{
    match chrono::DateTime::<chrono::Utc>::from_timestamp(secs, nanos) {
        Some(d) => Some(d.to_rfc3339()),
        None => None,
    }
}

/// How the end of a ban reads: `permanente` without an end, else the end
/// in RFC 3339.
pub open spec fn expiry_text(expires_at: Option<UtcTime>) -> Option<Seq<char>> {
    match expires_at {
        None => Some("permanente"@),
        Some(t) => chrono_rfc3339(t.secs, t.nanos),
    }
}

/// The line that shows an entry: IP in 20 columns, hits in 5, reason in 15,
/// then the end of the ban.
pub open spec fn entry_line(e: BlacklistEntry, expiry: Seq<char>) -> Seq<char> {
    pad_right(e.ip@, 20) + " hits="@ + pad_right(int_decimal(e.hits as int), 5) + " motivo="@
        + pad_right(e.reason@, 15) + " expira="@ + expiry
}

pub fn blacklist_line(e: &BlacklistEntry) -> (r: Option<String>)
    ensures
        match r {
            Some(x) => expiry_text(e.expires_at) matches Some(exp) && x@ == entry_line(*e, exp),
            None => expiry_text(e.expires_at) is None,
        },
{
    let exp = match e.expires_at {
        None => String::from_str("permanente"),
        Some(t) => match rfc3339(t.secs, t.nanos) {
            Some(x) => x,
            None => {
                return None;
            },
        },
    };
    let mut hits = String::new();
    push_i64(&mut hits, e.hits as i64);
    let mut line = String::new();
    push_padded(&mut line, e.ip.as_str(), 20);
    push_str(&mut line, " hits=");
    push_padded(&mut line, hits.as_str(), 5);
    push_str(&mut line, " motivo=");
    push_padded(&mut line, e.reason.as_str(), 15);
    push_str(&mut line, " expira=");
    push_str(&mut line, exp.as_str());
    assert(line@ =~= entry_line(*e, exp@));
    Some(line)
}

/// What listing the blacklist shows: `blacklist vazia` when it is empty,
/// else one line per entry, in order.
pub open spec fn report_lines(entries: Seq<BlacklistEntry>, lines: Seq<Seq<char>>) -> bool {
    if entries.len() == 0 {
        lines == seq!["blacklist vazia"@]
    } else {
        &&& lines.len() == entries.len()
        &&& forall|i: int|
            0 <= i < entries.len() ==> (expiry_text(#[trigger] entries[i].expires_at) matches Some(exp)
                && lines[i] == entry_line(entries[i], exp))
    }
}

/// The lines that list the blacklist; `None` when the end of some ban
/// cannot be written.
pub fn blacklist_report(entries: &Vec<BlacklistEntry>) -> (r: Option<Vec<String>>)
    ensures
        match r {
            Some(ls) => report_lines(entries@, views(ls@)),
            None => exists|i: int| 0 <= i < entries.len() && expiry_text(#[trigger] entries@[i].expires_at) is None,
        },
{
    let mut out: Vec<String> = Vec::new();
    if entries.len() == 0 {
        out.push(String::from_str("blacklist vazia"));
        assert(views(out@) =~= seq!["blacklist vazia"@]);
        return Some(out);
    }
    let mut i: usize = 0;
    while i < entries.len()
        invariant
            i <= entries.len(),
            out.len() == i,
            forall|k: int|
                0 <= k < i ==> (expiry_text(#[trigger] entries@[k].expires_at) matches Some(exp)
                    && out@[k]@ == entry_line(entries@[k], exp)),
        decreases entries.len() - i,
    {
        match blacklist_line(&entries[i]) {
            Some(l) => out.push(l),
            None => {
                return None;
            },
        }
        i = i + 1;
    }
    Some(out)
}

/// Where the propagation of pending bans to a server stands: the index of
/// the entry at hand, how many bans it applied, and whether it is recording
/// the application of the entry at hand.
#[derive(Debug, Clone, Copy, PartialEq, Eq, Structural)]
pub struct SyncState {
    pub next: usize,
    pub applied: usize,
    pub marking: bool,
}

/// What happened outside.
#[derive(Debug, Clone, Copy, PartialEq, Eq, Structural)]
pub enum SyncEvent {
    /// Whether the firewall rule for the entry at hand was added.
    BanApplied(bool),
    /// Its application on this server was recorded.
    Marked,
    /// Its application on this server could not be recorded.
    MarkFailed,
}

/// What to do next.
#[derive(Debug, Clone, Copy, PartialEq, Eq, Structural)]
pub enum SyncAction {
    /// Add the firewall rule for pending entry `index`.
    ApplyBan { index: usize },
    /// Record that pending entry `index` is applied on this server.
    MarkApplied { index: usize },
    /// Done: `applied` bans were applied.
    Finish { applied: usize },
    /// Stop with an error: the application of pending entry `index` could
    /// not be recorded.
    Fail { index: usize },
}

/// Go on with entry `next`, or finish.
pub open spec fn sync_continue(next: usize, applied: usize, pending: usize) -> SyncAction {
    if next < pending {
        SyncAction::ApplyBan { index: next }
    } else {
        SyncAction::Finish { applied }
    }
}

/// How the propagation of `pending` bans starts.
pub fn sync_start(pending: usize) -> (r: (SyncState, SyncAction))
    ensures
        r.0 == (SyncState { next: 0, applied: 0, marking: false }),
        r.1 == sync_continue(0, 0, pending),
{
    let st = SyncState { next: 0, applied: 0, marking: false };
    if 0 < pending {
        (st, SyncAction::ApplyBan { index: 0 })
    } else {
        (st, SyncAction::Finish { applied: 0 })
    }
}

/// A state of the propagation of `pending` bans that its steps keep.
pub open spec fn sync_valid(st: SyncState, pending: usize) -> bool {
    &&& st.applied <= st.next
    &&& st.next <= pending
    &&& st.marking ==> st.next < pending
}

/// The state after `ev`. An entry whose rule could not be added is skipped
/// and not counted; an entry is counted once its application is recorded.
pub open spec fn sync_next(st: SyncState, pending: usize, ev: SyncEvent) -> SyncState {
    if st.next >= pending {
        st
    } else {
        match (st.marking, ev) {
        (false, SyncEvent::BanApplied(true)) => SyncState { marking: true, ..st },
        (false, SyncEvent::BanApplied(false)) => SyncState { next: (st.next + 1) as usize, ..st },
        (true, SyncEvent::Marked) => SyncState {
            next: (st.next + 1) as usize,
            applied: (st.applied + 1) as usize,
            marking: false,
        },
        _ => st,
        }
    }
}

/// One step of the propagation of `pending` bans to a server. A ban whose
/// rule could not be added is skipped; one whose application could not be
/// recorded ends the propagation with an error.
pub fn sync_step(st: SyncState, pending: usize, ev: SyncEvent) -> (r: (SyncState, SyncAction))
    requires
        sync_valid(st, pending),
    ensures
        st.next >= pending ==> r.0 == st && r.1 == (SyncAction::Finish { applied: st.applied }),
        st.next < pending ==> match (st.marking, ev) {
            (false, SyncEvent::BanApplied(true)) => r.0 == sync_next(st, pending, ev) && r.1
                == (SyncAction::MarkApplied { index: st.next }),
            (false, SyncEvent::BanApplied(false)) | (true, SyncEvent::Marked) => r.0 == sync_next(st, pending, ev) && r.1 == sync_continue(r.0.next, r.0.applied, pending),
            (true, SyncEvent::MarkFailed) => r.0 == st && r.1 == (SyncAction::Fail { index: st.next }),
            _ => r.0 == st && r.1 == (SyncAction::Finish { applied: st.applied }),
        },
        sync_valid(r.0, pending),
{
    if st.next >= pending {
        return (st, SyncAction::Finish { applied: st.applied });
    }
    match (st.marking, ev) {
        (false, SyncEvent::BanApplied(true)) => (
            SyncState { marking: true, ..st },
            SyncAction::MarkApplied { index: st.next },
        ),
        (false, SyncEvent::BanApplied(false)) => {
            let n = SyncState { next: st.next + 1, ..st };
            if n.next < pending {
                (n, SyncAction::ApplyBan { index: n.next })
            } else {
                (n, SyncAction::Finish { applied: n.applied })
            }
        },
        (true, SyncEvent::Marked) => {
            let n = SyncState { next: st.next + 1, applied: st.applied + 1, marking: false };
            if n.next < pending {
                (n, SyncAction::ApplyBan { index: n.next })
            } else {
                (n, SyncAction::Finish { applied: n.applied })
            }
        },
        (true, SyncEvent::MarkFailed) => (st, SyncAction::Fail { index: st.next }),
        _ => (st, SyncAction::Finish { applied: st.applied }),
    }
}

/// A sync with nothing pending (as a second sync finds when the first one
/// applied and recorded every ban) adds no rule and applies nothing.
pub proof fn sync_nothing_pending_applies_nothing()
    ensures
        sync_continue(0, 0, 0) == (SyncAction::Finish { applied: 0 }),
{
}

/// No more bans are counted than entries were handled, and a ban is counted
/// only when its application was recorded after its rule was added.
pub proof fn sync_counts_only_marked(st: SyncState, pending: usize, ev: SyncEvent)
    requires
        sync_valid(st, pending),
    ensures
        sync_next(st, pending, ev).applied <= sync_next(st, pending, ev).next,
        sync_next(st, pending, ev).applied == st.applied + 1 <==> (st.marking && ev == SyncEvent::Marked),
        sync_next(st, pending, ev).applied == st.applied || sync_next(st, pending, ev).applied == st.applied + 1,
{
}

/// The seconds between two rounds of the automatic sync.
pub const SYNC_INTERVAL_SECS: u64 = 60;

/// Where the automatic sync stands: the index of the server being synced in
/// the current round.
#[derive(Debug, Clone, Copy, PartialEq, Eq, Structural)]
pub struct SyncLoopState {
    pub current: usize,
}

/// What happened.
#[derive(Debug, Clone, Copy, PartialEq, Eq, Structural)]
pub enum SyncLoopEvent {
    /// The interval has passed.
    Woke,
    /// The sync of the current server ended, well or not.
    ServerSynced,
}

/// What to do next.
#[derive(Debug, Clone, Copy, PartialEq, Eq, Structural)]
pub enum SyncLoopAction {
    /// Wait this many seconds.
    Sleep { secs: u64 },
    /// Sync the server at this index of the configuration.
    SyncServer { index: usize },
}

/// The automatic sync starts by waiting one interval.
pub fn sync_loop_start() -> (r: (SyncLoopState, SyncLoopAction))
    ensures
        r.0 == (SyncLoopState { current: 0 }),
        r.1 == (SyncLoopAction::Sleep { secs: SYNC_INTERVAL_SECS }),
{
    (SyncLoopState { current: 0 }, SyncLoopAction::Sleep { secs: SYNC_INTERVAL_SECS })
}

/// One step of the automatic sync over `servers` servers: after each
/// interval, every server in configuration order, each once, whatever the
/// outcome of the others; then the next interval.
pub fn sync_loop_step(st: SyncLoopState, servers: usize, ev: SyncLoopEvent) -> (r: (SyncLoopState, SyncLoopAction))
    ensures
        match ev {
            SyncLoopEvent::Woke => if servers > 0 {
                r.0 == (SyncLoopState { current: 0 }) && r.1 == (SyncLoopAction::SyncServer { index: 0 })
            } else {
                r.0 == (SyncLoopState { current: 0 }) && r.1 == (SyncLoopAction::Sleep { secs: SYNC_INTERVAL_SECS })
            },
            SyncLoopEvent::ServerSynced => if st.current + 1 < servers {
                r.0 == (SyncLoopState { current: (st.current + 1) as usize }) && r.1 == (SyncLoopAction::SyncServer {
                    index: (st.current + 1) as usize,
                })
            } else {
                r.0 == (SyncLoopState { current: 0 }) && r.1 == (SyncLoopAction::Sleep { secs: SYNC_INTERVAL_SECS })
            },
        },
{
    match ev {
        SyncLoopEvent::Woke => if servers > 0 {
            (SyncLoopState { current: 0 }, SyncLoopAction::SyncServer { index: 0 })
        } else {
            (SyncLoopState { current: 0 }, SyncLoopAction::Sleep { secs: SYNC_INTERVAL_SECS })
        },
        SyncLoopEvent::ServerSynced => if st.current < servers && st.current + 1 < servers {
            (SyncLoopState { current: st.current + 1 }, SyncLoopAction::SyncServer { index: st.current + 1 })
        } else {
            (SyncLoopState { current: 0 }, SyncLoopAction::Sleep { secs: SYNC_INTERVAL_SECS })
        },
    }
}

/// How far a propagation of `pending` bans is from its end: two moves per
/// entry left (add the rule, record it), one fewer while recording.
pub open spec fn sync_distance(st: SyncState, pending: usize) -> int {
    2 * (pending - st.next) - (if st.marking { 1int } else { 0int })
}

/// Each pending entry is handled once, in order: a failed rule skips the
/// entry at hand (the next entry comes up, nothing is counted), and every
/// expected event brings the propagation strictly closer to its end.
pub proof fn sync_each_entry_once(st: SyncState, pending: usize, ok: bool)
    requires
        sync_valid(st, pending),
        st.next < pending,
    ensures
        !st.marking ==> sync_next(st, pending, SyncEvent::BanApplied(false)) == (SyncState {
            next: (st.next + 1) as usize,
            applied: st.applied,
            marking: false,
        }),
        !st.marking ==> sync_distance(sync_next(st, pending, SyncEvent::BanApplied(ok)), pending)
            < sync_distance(st, pending),
        st.marking ==> sync_next(st, pending, SyncEvent::Marked).next == st.next + 1,
        st.marking ==> sync_distance(sync_next(st, pending, SyncEvent::Marked), pending)
            < sync_distance(st, pending),
        sync_distance(st, pending) > 0,
{
}

/// The listed line of an entry begins with the entry's whole IP, followed
/// only by spaces up to the 20th column, then ` hits=`: padding never drops
/// a character of the IP.
pub proof fn entry_line_starts_with_ip(e: BlacklistEntry, expiry: Seq<char>)
    ensures
        entry_line(e, expiry).subrange(0, e.ip@.len() as int) == e.ip@,
        ({
            let w = if e.ip@.len() >= 20 { e.ip@.len() as int } else { 20int };
            &&& forall|i: int| e.ip@.len() <= i < w ==> #[trigger] entry_line(e, expiry)[i] == ' '
            &&& entry_line(e, expiry).subrange(w, w + 6) == " hits="@
        }),
{
    let ip = e.ip@;
    let line = entry_line(e, expiry);
    let w = if ip.len() >= 20 { ip.len() as int } else { 20int };
    let field = pad_right(ip, 20);
    assert(field.len() == w);
    assert(line == field + (" hits="@ + pad_right(int_decimal(e.hits as int), 5) + " motivo="@
        + pad_right(e.reason@, 15) + " expira="@ + expiry));
    assert(line.subrange(0, ip.len() as int) =~= ip);
    assert forall|i: int| ip.len() <= i < w implies #[trigger] line[i] == ' ' by {
        assert(line[i] == field[i]);
    }
    reveal_strlit(" hits=");
    assert(line.subrange(w, w + 6) =~= " hits="@);
}

} // verus!
