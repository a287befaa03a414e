//! The volume detector: from the number of recent requests of one IP to a
//! verdict.
use vstd::prelude::*;

use crate::config::DetectorConfig;

verus! {

#[derive(Debug, Clone, Copy, PartialEq, Eq, Structural)]
pub enum Verdict {
    /// Nothing to report.
    Normal,
    Suspicious { count: i64 },
    Ban { count: i64 },
}

/// The verdict on `count` requests in the window: a ban from the ban
/// threshold on, else suspicion from the warning threshold on.
pub open spec fn verdict_for(cfg: DetectorConfig, count: i64) -> Verdict {
    if count >= cfg.ban_threshold {
        Verdict::Ban { count }
    } else if count >= cfg.warn_threshold {
        Verdict::Suspicious { count }
    } else {
        Verdict::Normal
    }
}

/// Decides the verdict on an IP that made `count` requests in the window.
pub fn evaluate(cfg: &DetectorConfig, count: i64) -> (v: Verdict)
    ensures
        v == verdict_for(*cfg, count),
{
    if count >= cfg.ban_threshold {
        Verdict::Ban { count }
    } else if count >= cfg.warn_threshold {
        Verdict::Suspicious { count }
    } else {
        Verdict::Normal
    }
}

/// How severe a verdict is: 0 for none, 1 for suspicion, 2 for a ban.
pub open spec fn severity(v: Verdict) -> int {
    match v {
        Verdict::Normal => 0,
        Verdict::Suspicious { .. } => 1,
        Verdict::Ban { .. } => 2,
    }
}

/// More traffic never earns a milder verdict.
pub proof fn verdict_monotone(cfg: DetectorConfig, c1: i64, c2: i64)
    requires
        c1 <= c2,
    ensures
        severity(verdict_for(cfg, c1)) <= severity(verdict_for(cfg, c2)),
{
}

/// An IP is banned exactly when it reached the ban threshold, whatever the
/// warning threshold is.
pub proof fn verdict_ban_iff_threshold(cfg: DetectorConfig, count: i64)
    ensures
        verdict_for(cfg, count) is Ban <==> count >= cfg.ban_threshold,
        verdict_for(cfg, count) is Suspicious <==> cfg.warn_threshold <= count
            < cfg.ban_threshold,
{
}

} // verus!
