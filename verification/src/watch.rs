//! Watching one server: where its log lines come from, and what each line
//! leads to (record the request, count the IP's recent requests, ban it
//! when the detector says so).
use vstd::prelude::*;

use crate::config::{DetectorConfig, ServerConfig};
use crate::db::{event_of, opt_view, ban_reason, detector_reason, event_from_parsed, BanRecord, RequestEvent};
use crate::detector::{evaluate, verdict_for, Verdict};
use crate::logparse::{captures, combined_match, parse_line, status_value, Cuts, ParsedLine};
use crate::text::same_text;

verus! {

/// Where the lines of a server's log come from.
#[derive(Debug, Clone)]
pub enum SourcePlan {
    /// Follow a local file.
    Local { path: String },
    /// Poll a remote file over SSH every `interval_secs` seconds.
    Remote { host: String, user: Option<String>, path: String, interval_secs: u64 },
}

/// Why a server cannot be watched.
#[derive(Debug, Clone)]
pub enum WatchError {
    /// No server of the configuration bears this name.
    UnknownServer { name: String },
    /// A remote server without a host.
    MissingHost { server: String },
    /// A mode other than `local` and `remote`.
    InvalidMode { mode: String },
}

/// The interval, in seconds, at which remote logs are polled.
pub const REMOTE_POLL_SECS: u64 = 5;

/// How the log of `sc` is read: a local file in mode `local`, a remote one
/// polled every 5 seconds in mode `remote` (which needs a host), and an
/// error for any other mode.
pub fn source_plan(sc: &ServerConfig) -> (r: Result<SourcePlan, WatchError>)
    ensures
        sc.mode@ == "local"@ ==> (r matches Ok(SourcePlan::Local { path }) && path@ == sc.log_path@),
        sc.mode@ == "remote"@ ==> match sc.host {
            Some(h) => r matches Ok(SourcePlan::Remote { host, user, path, interval_secs }) && host@ == h@
                && path@ == sc.log_path@ && interval_secs == REMOTE_POLL_SECS && opt_view(user) == opt_view(sc.ssh_user),
            None => r matches Err(WatchError::MissingHost { server }) && server@ == sc.name@,
        },
        sc.mode@ != "local"@ && sc.mode@ != "remote"@ ==> (r matches Err(WatchError::InvalidMode { mode }) && mode@ == sc.mode@),
{
    proof {
        reveal_strlit("local");
        reveal_strlit("remote");
        assert("local"@ != "remote"@) by {
            assert("local"@.len() != "remote"@.len());
        }
    }
    if same_text(sc.mode.as_str(), "local") {
        Ok(SourcePlan::Local { path: sc.log_path.clone() })
    } else if same_text(sc.mode.as_str(), "remote") {
        match &sc.host {
            Some(h) => Ok(
                SourcePlan::Remote {
                    host: h.clone(),
                    user: match &sc.ssh_user {
                        Some(u) => Some(u.clone()),
                        None => None,
                    },
                    path: sc.log_path.clone(),
                    interval_secs: REMOTE_POLL_SECS,
                },
            ),
            None => Err(WatchError::MissingHost { server: sc.name.clone() }),
        }
    } else {
        Err(WatchError::InvalidMode { mode: sc.mode.clone() })
    }
}

/// What the watch of one server knows throughout.
#[derive(Debug, Clone)]
pub struct WatchContext {
    pub server_id: i32,
    pub server_name: String,
    pub detector: DetectorConfig,
}

/// Where the handling of the current line stands.
#[derive(Debug, Clone, Copy, PartialEq, Eq, Structural)]
pub enum WatchPhase {
    AwaitingLine,
    StoringEvent,
    Counting,
    StoringBan,
    ApplyingBan,
    MarkingApplied,
}

/// The phase, and the IP of the line being handled.
#[derive(Debug, Clone)]
pub struct WatchState {
    pub phase: WatchPhase,
    pub ip: String,
}

/// What happened outside.
#[derive(Debug, Clone)]
pub enum WatchEvent {
    /// A new raw line of the log.
    Line(String),
    /// Whether the request was recorded.
    EventStored(bool),
    /// The IP's requests in the window; `None` when they could not be
    /// counted.
    Counted(Option<i64>),
    /// The ban was written to the shared blacklist, or failed to be.
    BanStored(bool),
    /// Whether the firewall rule was added.
    BanApplied(bool),
    /// The local application of the ban was recorded, or failed to be.
    Marked(bool),
}

/// What to do next.
#[derive(Debug, Clone)]
pub enum WatchAction {
    /// Wait for the next line.
    AwaitLine,
    /// Record this request.
    StoreEvent(RequestEvent),
    /// Count the requests of `ip` in the last `window_seconds` seconds.
    CountRecent { ip: String, window_seconds: i64 },
    /// Report `ip` as suspicious, then wait for the next line.
    WarnSuspicious { ip: String, count: i64 },
    /// Record this ban in the shared blacklist.
    StoreBan(BanRecord),
    /// Add the firewall rule that drops `ip`.
    ApplyBan { ip: String },
    /// Record that the ban of `ip` is applied on this server.
    MarkApplied { server_id: i32, ip: String },
}

/// `e` records, for server `server_id`, the request whose groups the
/// match `m` captures in `s`.
pub open spec fn event_captures(e: RequestEvent, server_id: i32, s: Seq<char>, m: Cuts) -> bool {
    &&& e.server_id == server_id
    &&& e.ip@ == s.subrange(0, m.ip_end)
    &&& e.method matches Some(x) && x@ == s.subrange(m.request_open + 1, m.method_end)
    &&& e.path matches Some(x) && x@ == s.subrange(m.path_start, m.path_end)
    &&& e.status_code == status_value(s, m.status_start)
    &&& e.user_agent matches Some(x) && x@ == s.subrange(m.agent_open + 1, m.agent_close)
}

/// `next` and `act` are the outcome of `ev` in state `st`.
///
/// A line that does not match the log format is dropped; a matching one is
/// recorded. A request that could not be recorded is not counted. From the
/// number of recent requests follows the detector's judgement. A ban goes
/// to the blacklist with the reason `"<n> req em <window>s"`, the
/// configured duration and the server's name as source; whether or not that
/// store succeeds, the firewall rule is added; only when the rule was added
/// is the ban marked applied on this server. Any event that does not fit the phase drops the
/// line under way.
pub open spec fn watch_transition(
    ctx: WatchContext,
    st: WatchState,
    ev: WatchEvent,
    next: WatchState,
    act: WatchAction,
) -> bool {
    match (st.phase, ev) {
        (WatchPhase::AwaitingLine, WatchEvent::Line(raw)) => {
            &&& (forall|m: Cuts| !combined_match(raw@, m)) ==> (next.phase == WatchPhase::AwaitingLine
                && act is AwaitLine)
            &&& forall|m: Cuts|
                #[trigger] combined_match(raw@, m) ==> {
                    &&& next.phase == WatchPhase::StoringEvent
                    &&& next.ip@ == raw@.subrange(0, m.ip_end)
                    &&& act matches WatchAction::StoreEvent(e) && event_captures(
                        e,
                        ctx.server_id,
                        raw@,
                        m,
                    )
                }
        },
        (WatchPhase::StoringEvent, WatchEvent::EventStored(ok)) => if ok {
            &&& next.phase == WatchPhase::Counting
            &&& next.ip@ == st.ip@
            &&& act matches WatchAction::CountRecent { ip, window_seconds } && ip@ == st.ip@
                && window_seconds == ctx.detector.window_seconds
        } else {
            next.phase == WatchPhase::AwaitingLine && act is AwaitLine
        },
        (WatchPhase::Counting, WatchEvent::Counted(res)) => match res {
            None => next.phase == WatchPhase::AwaitingLine && act is AwaitLine,
            Some(count) => match verdict_for(ctx.detector, count) {
                Verdict::Ban { .. } => {
                    &&& next.phase == WatchPhase::StoringBan
                    &&& next.ip@ == st.ip@
                    &&& act matches WatchAction::StoreBan(b) && b.ip@ == st.ip@ && b.reason@
                        == detector_reason(count, ctx.detector.window_seconds) && b.ttl_hours
                        == ctx.detector.ban_ttl_hours && b.source_host@ == ctx.server_name@
                },
                Verdict::Suspicious { .. } => {
                    &&& next.phase == WatchPhase::AwaitingLine
                    &&& act matches WatchAction::WarnSuspicious { ip, count: c } && ip@ == st.ip@ && c
                        == count
                },
                Verdict::Normal => next.phase == WatchPhase::AwaitingLine && act is AwaitLine,
            },
        },
        (WatchPhase::StoringBan, WatchEvent::BanStored(_)) => {
            &&& next.phase == WatchPhase::ApplyingBan
            &&& next.ip@ == st.ip@
            &&& act matches WatchAction::ApplyBan { ip } && ip@ == st.ip@
        },
        (WatchPhase::ApplyingBan, WatchEvent::BanApplied(ok)) => if ok {
            &&& next.phase == WatchPhase::MarkingApplied
            &&& next.ip@ == st.ip@
            &&& act matches WatchAction::MarkApplied { server_id, ip } && server_id == ctx.server_id
                && ip@ == st.ip@
        } else {
            next.phase == WatchPhase::AwaitingLine && act is AwaitLine
        },
        (WatchPhase::MarkingApplied, WatchEvent::Marked(_)) => next.phase == WatchPhase::AwaitingLine
            && act is AwaitLine,
        _ => next.phase == WatchPhase::AwaitingLine && act is AwaitLine,
    }
}

/// The state in which a watch starts.
pub fn watch_start() -> (st: WatchState)
    ensures
        st.phase == WatchPhase::AwaitingLine,
{
    WatchState { phase: WatchPhase::AwaitingLine, ip: String::new() }
}

fn idle() -> (r: (WatchState, WatchAction))
    ensures
        r.0.phase == WatchPhase::AwaitingLine,
        r.1 is AwaitLine,
{
    (WatchState { phase: WatchPhase::AwaitingLine, ip: String::new() }, WatchAction::AwaitLine)
}

/// One step of the watch of a server.
pub fn watch_step(ctx: &WatchContext, st: WatchState, ev: WatchEvent) -> (r: (WatchState, WatchAction))
    ensures
        watch_transition(*ctx, st, ev, r.0, r.1),
{
    match (st.phase, ev) {
        (WatchPhase::AwaitingLine, WatchEvent::Line(raw)) => match parse_line(raw.as_str()) {
            None => idle(),
            Some(p) => {
                let ip = p.ip.clone();
                let ghost pv = p;
                let e = event_from_parsed(ctx.server_id, p);
                assert(ip@ == pv.ip@);
                (WatchState { phase: WatchPhase::StoringEvent, ip }, WatchAction::StoreEvent(e))
            },
        },
        (WatchPhase::StoringEvent, WatchEvent::EventStored(ok)) => if ok {
            let ip = st.ip.clone();
            (
                WatchState { phase: WatchPhase::Counting, ip: st.ip },
                WatchAction::CountRecent { ip, window_seconds: ctx.detector.window_seconds },
            )
        } else {
            idle()
        },
        (WatchPhase::Counting, WatchEvent::Counted(res)) => match res {
            None => idle(),
            Some(count) => match evaluate(&ctx.detector, count) {
                Verdict::Ban { .. } => {
                    let b = BanRecord {
                        ip: st.ip.clone(),
                        reason: ban_reason(count, ctx.detector.window_seconds),
                        ttl_hours: ctx.detector.ban_ttl_hours,
                        source_host: ctx.server_name.clone(),
                    };
                    (WatchState { phase: WatchPhase::StoringBan, ip: st.ip }, WatchAction::StoreBan(b))
                },
                Verdict::Suspicious { .. } => (
                    WatchState { phase: WatchPhase::AwaitingLine, ip: String::new() },
                    WatchAction::WarnSuspicious { ip: st.ip, count },
                ),
                Verdict::Normal => idle(),
            },
        },
        (WatchPhase::StoringBan, WatchEvent::BanStored(_)) => {
            let ip = st.ip.clone();
            (WatchState { phase: WatchPhase::ApplyingBan, ip: st.ip }, WatchAction::ApplyBan { ip })
        },
        (WatchPhase::ApplyingBan, WatchEvent::BanApplied(ok)) => if ok {
            let ip = st.ip.clone();
            (
                WatchState { phase: WatchPhase::MarkingApplied, ip: st.ip },
                WatchAction::MarkApplied { server_id: ctx.server_id, ip },
            )
        } else {
            idle()
        },
        (WatchPhase::MarkingApplied, WatchEvent::Marked(_)) => idle(),
        _ => idle(),
    }
}

/// The request recorded for a line of the log is the one that parsing the
/// line gives: its IP, method, path, status and user agent are the groups
/// that the match captures (method from the request's first word, path from
/// its second), on the server being watched.
pub proof fn watched_line_records_parsed_request(
    ctx: WatchContext,
    st: WatchState,
    raw: String,
    next: WatchState,
    act: WatchAction,
    m: Cuts,
    p: ParsedLine,
)
    requires
        st.phase == WatchPhase::AwaitingLine,
        watch_transition(ctx, st, WatchEvent::Line(raw), next, act),
        combined_match(raw@, m),
        captures(p, raw@, m),
    ensures
        act matches WatchAction::StoreEvent(e) && event_of(e, ctx.server_id, p),
        act matches WatchAction::StoreEvent(e) && (e.method matches Some(x) && x@ == raw@.subrange(
            m.request_open + 1,
            m.method_end,
        )) && (e.path matches Some(x) && x@ == raw@.subrange(m.path_start, m.path_end)),
        next.phase == WatchPhase::StoringEvent,
{
    let s = raw@;
    let ev = WatchEvent::Line(raw);
    assert(ev matches WatchEvent::Line(r2) && r2 == raw);
    assert(watch_transition(ctx, st, ev, next, act));
    assert(forall|m2: Cuts|
        #[trigger] combined_match(s, m2) ==> {
            &&& next.phase == WatchPhase::StoringEvent
            &&& next.ip@ == s.subrange(0, m2.ip_end)
            &&& act matches WatchAction::StoreEvent(e) && event_captures(e, ctx.server_id, s, m2)
        });
    assert(combined_match(s, m));
    let e = act->StoreEvent_0;
    assert(event_captures(e, ctx.server_id, s, m));
    assert(opt_view(e.user_agent) == opt_view(p.user_agent));
    assert(opt_view(e.path) == opt_view(p.path));
    assert(opt_view(e.method) == opt_view(p.method));
}

} // verus!
