use antibot::blacklist::{sync_loop_start, sync_loop_step, SyncLoopAction, SyncLoopEvent};
use antibot::blacklist::{
    blacklist_line, blacklist_report, sync_start, sync_step, SyncAction, SyncEvent, SyncState,
};
use antibot::db::{BlacklistEntry, UtcTime};

fn entry(ip: &str, hits: i32, reason: &str, expires_at: Option<UtcTime>) -> BlacklistEntry {
    BlacklistEntry { ip: ip.to_string(), reason: reason.to_string(), hits, expires_at }
}

#[test]
fn permanent_entry_line() {
    let e = entry("203.0.113.9", 3, "manual", None);
    assert_eq!(
        blacklist_line(&e).unwrap(),
        format!("{:<20} hits={:<5} motivo={:<15} expira={}", "203.0.113.9", 3, "manual", "permanente")
    );
}

#[test]
fn expiring_entry_line() {
    let e = entry("10.0.0.1", -2, "150 req em 60s and more", Some(UtcTime { secs: 1785153600, nanos: 0 }));
    assert_eq!(
        blacklist_line(&e).unwrap(),
        "10.0.0.1             hits=-2    motivo=150 req em 60s and more expira=2026-07-27T12:00:00+00:00"
    );
    let e = entry("10.0.0.1", 1, "r", Some(UtcTime { secs: 0, nanos: 500_000_000 }));
    assert!(blacklist_line(&e).unwrap().ends_with("expira=1970-01-01T00:00:00.500+00:00"));
}

#[test]
fn unrepresentable_instant_has_no_line() {
    let e = entry("10.0.0.1", 1, "r", Some(UtcTime { secs: i64::MAX, nanos: 0 }));
    assert_eq!(blacklist_line(&e), None);
    assert!(blacklist_report(&vec![entry("a", 1, "r", None), e]).is_none());
}

#[test]
fn empty_report() {
    assert_eq!(blacklist_report(&vec![]).unwrap(), vec!["blacklist vazia".to_string()]);
}

#[test]
fn report_has_one_line_per_entry() {
    let r = blacklist_report(&vec![entry("a", 1, "x", None), entry("b", 2, "y", None)]).unwrap();
    assert_eq!(r.len(), 2);
    assert!(r[0].starts_with("a "));
    assert!(r[1].starts_with("b "));
}

#[test]
fn sync_counts_applied_bans() {
    // three pending bans: the second cannot be applied
    let (st, a) = sync_start(3);
    assert_eq!(a, SyncAction::ApplyBan { index: 0 });
    let (st, a) = sync_step(st, 3, SyncEvent::BanApplied(true));
    assert_eq!(a, SyncAction::MarkApplied { index: 0 });
    let (st, a) = sync_step(st, 3, SyncEvent::Marked);
    assert_eq!(a, SyncAction::ApplyBan { index: 1 });
    let (st, a) = sync_step(st, 3, SyncEvent::BanApplied(false));
    assert_eq!(a, SyncAction::ApplyBan { index: 2 });
    let (st, a) = sync_step(st, 3, SyncEvent::BanApplied(true));
    assert_eq!(a, SyncAction::MarkApplied { index: 2 });
    let (st, a) = sync_step(st, 3, SyncEvent::Marked);
    assert_eq!(a, SyncAction::Finish { applied: 2 });
    assert_eq!(st, SyncState { next: 3, applied: 2, marking: false });
}

#[test]
fn sync_with_nothing_pending() {
    let (_, a) = sync_start(0);
    assert_eq!(a, SyncAction::Finish { applied: 0 });
}

#[test]
fn automatic_sync_visits_every_server_each_round() {
    let (st, a) = sync_loop_start();
    assert_eq!(a, SyncLoopAction::Sleep { secs: 60 });
    let (st, a) = sync_loop_step(st, 2, SyncLoopEvent::Woke);
    assert_eq!(a, SyncLoopAction::SyncServer { index: 0 });
    let (st, a) = sync_loop_step(st, 2, SyncLoopEvent::ServerSynced);
    assert_eq!(a, SyncLoopAction::SyncServer { index: 1 });
    let (st, a) = sync_loop_step(st, 2, SyncLoopEvent::ServerSynced);
    assert_eq!(a, SyncLoopAction::Sleep { secs: 60 });
    let (_, a) = sync_loop_step(st, 2, SyncLoopEvent::Woke);
    assert_eq!(a, SyncLoopAction::SyncServer { index: 0 });
    let (_, a) = sync_loop_step(sync_loop_start().0, 0, SyncLoopEvent::Woke);
    assert_eq!(a, SyncLoopAction::Sleep { secs: 60 });
}

#[test]
fn failed_record_ends_the_sync() {
    let (st, _) = sync_start(2);
    let (st, a) = sync_step(st, 2, SyncEvent::BanApplied(true));
    assert_eq!(a, SyncAction::MarkApplied { index: 0 });
    let (st, a) = sync_step(st, 2, SyncEvent::MarkFailed);
    assert_eq!(a, SyncAction::Fail { index: 0 });
    assert_eq!(st, SyncState { next: 0, applied: 0, marking: true });
}
