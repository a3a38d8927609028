use discord_bot::daily::{claim_daily, DailyClaim};

#[test]
fn claims_after_a_day() {
    match claim_daily(1_000, 1_000 + 86_401) {
        DailyClaim::Claimed { amount, claimed_at, message } => {
            assert_eq!(amount, 3000);
            assert_eq!(claimed_at, 87_401);
            assert_eq!(message, "claiming daily 3000$");
        }
        _ => panic!("a day has passed"),
    }
}

#[test]
fn refuses_within_a_day() {
    match claim_daily(1_000, 1_000 + 86_400) {
        DailyClaim::TooSoon { wait, message } => {
            assert_eq!(wait, 0);
            assert_eq!(message, "claimed daily in last 24hours\nwait for 0 seconds to claim again");
        }
        _ => panic!("exactly a day is not enough"),
    }
    match claim_daily(5_000, 6_000) {
        DailyClaim::TooSoon { wait, .. } => assert_eq!(wait, 85_400),
        _ => panic!("too soon"),
    }
}

#[test]
fn a_claim_starts_a_new_day() {
    let now = 2_000_000u64;
    let claimed_at = match claim_daily(0, now) {
        DailyClaim::Claimed { claimed_at, .. } => claimed_at,
        _ => panic!("first claim"),
    };
    assert!(matches!(claim_daily(claimed_at, now), DailyClaim::TooSoon { wait: 86_400, .. }));
    assert!(matches!(claim_daily(claimed_at, now + 86_400), DailyClaim::TooSoon { .. }));
    assert!(matches!(claim_daily(claimed_at, now + 86_401), DailyClaim::Claimed { .. }));
}

#[test]
fn one_credit_per_day() {
    let t = 10_000_000u64;
    assert!(matches!(claim_daily(0, t), DailyClaim::Claimed { claimed_at: 10_000_000, .. }));
    for t2 in [t, t + 1, t + 43_200, t + 86_400] {
        assert!(matches!(claim_daily(t, t2), DailyClaim::TooSoon { .. }));
    }
}
