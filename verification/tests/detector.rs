use antibot::config::DetectorConfig;
use antibot::detector::{evaluate, Verdict};

fn cfg(warn: i64, ban: i64) -> DetectorConfig {
    DetectorConfig { window_seconds: 60, warn_threshold: warn, ban_threshold: ban, ban_ttl_hours: 24 }
}

#[test]
fn verdict_follows_the_thresholds() {
    let c = cfg(50, 100);
    assert_eq!(evaluate(&c, 0), Verdict::Normal);
    assert_eq!(evaluate(&c, 49), Verdict::Normal);
    assert_eq!(evaluate(&c, 50), Verdict::Suspicious { count: 50 });
    assert_eq!(evaluate(&c, 99), Verdict::Suspicious { count: 99 });
    assert_eq!(evaluate(&c, 100), Verdict::Ban { count: 100 });
    assert_eq!(evaluate(&c, 5000), Verdict::Ban { count: 5000 });
}

#[test]
fn ban_threshold_wins_when_below_the_warning_one() {
    let c = cfg(100, 10);
    assert_eq!(evaluate(&c, 10), Verdict::Ban { count: 10 });
    assert_eq!(evaluate(&c, 150), Verdict::Ban { count: 150 });
    assert_eq!(evaluate(&c, 9), Verdict::Normal);
}

#[test]
fn more_traffic_never_gets_a_milder_verdict() {
    fn severity(v: Verdict) -> u8 {
        match v {
            Verdict::Normal => 0,
            Verdict::Suspicious { .. } => 1,
            Verdict::Ban { .. } => 2,
        }
    }
    let c = cfg(3, 7);
    let mut last = 0;
    for n in 0..20 {
        let s = severity(evaluate(&c, n));
        assert!(s >= last);
        last = s;
    }
}
