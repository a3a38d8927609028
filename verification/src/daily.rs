use crate::text::{decimal, push_i64, push_u64};
use vstd::prelude::*;
use vstd::string::StringExecFns;

verus! {

/// What the daily claim pays.
pub const DAILY_AMOUNT: i32 = 3000;

/// How long a player waits between two daily claims, in seconds.
pub const DAY_SECONDS: u64 = 86400;

/// Whether a player whose last claim was at `last_daily` may claim at `now`
/// (both in seconds since the Unix epoch): strictly more than a day has passed.
pub open spec fn may_claim(last_daily: int, now: int) -> bool {
    last_daily + DAY_SECONDS < now
}

/// The answer to a daily claim.
pub enum DailyClaim {
    /// Pay `amount`, record `claimed_at` as the player's last claim, and say `message`.
    Claimed { amount: i32, claimed_at: u64, message: String },
    /// Too soon: say `message`, which names the `wait` in seconds.
    TooSoon { wait: u64, message: String },
}

/// Whether a claim can be decided for a player who last claimed at
/// `last_daily`: the end of that day, `last_daily + DAY_SECONDS`, fits in a
/// `u64` (beyond it the addition overflows).
pub open spec fn claim_decidable(last_daily: u64) -> bool {
    last_daily + DAY_SECONDS <= u64::MAX
}

/// Decides a daily claim at `now` for a player who last claimed at `last_daily`.
pub fn claim_daily(last_daily: u64, now: u64) -> (r: DailyClaim)
    requires
        claim_decidable(last_daily),
    ensures
        may_claim(last_daily as int, now as int) ==> (r matches DailyClaim::Claimed {
            amount,
            claimed_at,
            message,
        } && amount == DAILY_AMOUNT && claimed_at == now && message@ == "claiming daily "@
            + decimal(DAILY_AMOUNT as int) + "$"@),
        !may_claim(last_daily as int, now as int) ==> (r matches DailyClaim::TooSoon {
            wait,
            message,
        } && wait == last_daily + DAY_SECONDS - now && message@
            == "claimed daily in last 24hours\nwait for "@ + decimal(wait as int)
            + " seconds to claim again"@),
{
    let due = last_daily + DAY_SECONDS;
    if due < now {
        let mut message = String::new();
        message.append("claiming daily ");
        push_i64(&mut message, DAILY_AMOUNT as i64);
        message.append("$");
        DailyClaim::Claimed { amount: DAILY_AMOUNT, claimed_at: now, message }
    } else {
        let wait = due - now;
        let mut message = String::new();
        message.append("claimed daily in last 24hours\nwait for ");
        push_u64(&mut message, wait);
        message.append(" seconds to claim again");
        DailyClaim::TooSoon { wait, message }
    }
}

/// A claim starts a fresh day: once a player claims at `t`, every claim up to
/// and including `t + DAY_SECONDS` is refused, and every later one is paid.
pub proof fn law_claim_starts_a_day(t: int, later: int)
    ensures
        later <= t + DAY_SECONDS ==> !may_claim(t, later),
        later > t + DAY_SECONDS ==> may_claim(t, later),
{
}

/// At most one credit per day: after a claim paid at `t` (which records `t`
/// as the last claim), a claim at any `t2` up to `t + DAY_SECONDS` is either
/// refused, owing the rest of the day and leaving the record at `t`, or cannot
/// be decided at all because the end of the day overflows a `u64`.
pub proof fn law_one_credit_per_day(last: u64, t: u64, t2: u64)
    requires
        claim_decidable(last),
        may_claim(last as int, t as int),
        t2 <= t + DAY_SECONDS,
    ensures
        claim_decidable(t) ==> !may_claim(t as int, t2 as int),
{
}

} // verus!
