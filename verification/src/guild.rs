//! The guild trial staircase: one dungeon attempt per guild level, from the
//! first level up by a fixed step, until the party wipes, an attempt does not
//! resolve, the level cap is passed or the simulated time budget is spent.
use vstd::prelude::*;

verus! {

pub const GUILD_START_LEVEL: i32 = 100;
pub const GUILD_LEVEL_STEP: i32 = 10;
pub const GUILD_MAX_LEVEL: i32 = 300;
/// One simulated hour, in nanoseconds.
pub const GUILD_TIME_BUDGET: i64 = 3_600_000_000_000;

/// Where the staircase stands: the level to attempt next, the simulated time
/// spent so far and the highest level cleared.
#[derive(Clone, Copy, Debug)]
pub struct Staircase {
    pub level: i32,
    pub time_used: i64,
    pub highest_cleared: Option<i32>,
}

/// Why the staircase stopped.
#[derive(Clone, Copy, Debug)]
pub enum StaircaseEnd {
    /// Every level up to the cap was cleared.
    LevelCap,
    /// No simulated time was left for the next attempt.
    BudgetSpent,
    /// The party wiped.
    Wiped,
    /// The attempt did not resolve within the time left.
    Unresolved,
}

/// What to do next: attempt a level within a time limit, or stop.
#[derive(Clone, Copy, Debug)]
pub enum StaircaseAction {
    Attempt { level: i32, time_limit: i64 },
    Stop(StaircaseEnd),
}

/// The action for a staircase that has not stopped: stop past the cap or once
/// the budget is spent, else attempt the level with the time that is left.
pub open spec fn attempt_or_stop(s: Staircase) -> StaircaseAction {
    if s.level > GUILD_MAX_LEVEL {
        StaircaseAction::Stop(StaircaseEnd::LevelCap)
    } else if s.time_used >= GUILD_TIME_BUDGET {
        StaircaseAction::Stop(StaircaseEnd::BudgetSpent)
    } else {
        StaircaseAction::Attempt { level: s.level, time_limit: (GUILD_TIME_BUDGET - s.time_used) as i64 }
    }
}

/// The staircase after an attempt at its level that took `simulated_time`
/// and was won (`Some(true)`), lost (`Some(false)`) or did not resolve (`None`).
pub open spec fn after_attempt(s: Staircase, won: Option<bool>, simulated_time: i64) -> Staircase {
    let t = (s.time_used + simulated_time) as i64;
    if won == Some(true) {
        Staircase { level: (s.level + GUILD_LEVEL_STEP) as i32, time_used: t, highest_cleared: Some(s.level) }
    } else {
        Staircase { time_used: t, ..s }
    }
}

/// The action after an attempt with the given result.
pub open spec fn action_after(s: Staircase, won: Option<bool>, simulated_time: i64) -> StaircaseAction {
    match won {
        Some(true) => attempt_or_stop(after_attempt(s, won, simulated_time)),
        Some(false) => StaircaseAction::Stop(StaircaseEnd::Wiped),
        None => StaircaseAction::Stop(StaircaseEnd::Unresolved),
    }
}

fn decide(s: Staircase) -> (r: StaircaseAction)
    requires
        s.time_used >= 0,
    ensures
        r == attempt_or_stop(s),
{
    if s.level > GUILD_MAX_LEVEL {
        StaircaseAction::Stop(StaircaseEnd::LevelCap)
    } else if s.time_used >= GUILD_TIME_BUDGET {
        StaircaseAction::Stop(StaircaseEnd::BudgetSpent)
    } else {
        StaircaseAction::Attempt { level: s.level, time_limit: GUILD_TIME_BUDGET - s.time_used }
    }
}

/// The staircase before its first attempt, and that attempt.
pub fn staircase_start() -> (r: (Staircase, StaircaseAction))
    ensures
        r.0 == (Staircase { level: GUILD_START_LEVEL, time_used: 0, highest_cleared: None }),
        r.1 == attempt_or_stop(r.0),
{
    let s = Staircase { level: GUILD_START_LEVEL, time_used: 0, highest_cleared: None };
    (s, decide(s))
}

/// Records an attempt at the staircase's level that took `simulated_time` and
/// was won, lost or left unresolved, and says what to do next.
pub fn staircase_step(s: Staircase, won: Option<bool>, simulated_time: i64) -> (r: (Staircase, StaircaseAction))
    requires
        s.level <= GUILD_MAX_LEVEL,
        s.time_used >= 0,
        simulated_time >= 0,
        s.time_used + simulated_time <= i64::MAX,
    ensures
        r.0 == after_attempt(s, won, simulated_time),
        r.1 == action_after(s, won, simulated_time),
        r.0.time_used == s.time_used + simulated_time,
        won == Some(true) ==> r.0.level == s.level + GUILD_LEVEL_STEP && r.0.highest_cleared == Some(s.level),
        won != Some(true) ==> r.0.level == s.level && r.0.highest_cleared == s.highest_cleared,
        won == Some(false) ==> r.1 == StaircaseAction::Stop(StaircaseEnd::Wiped),
        won is None ==> r.1 == StaircaseAction::Stop(StaircaseEnd::Unresolved),
{
    let time_used = s.time_used + simulated_time;
    match won {
        Some(true) => {
            let next = Staircase { level: s.level + GUILD_LEVEL_STEP, time_used, highest_cleared: Some(s.level) };
            (next, decide(next))
        },
        Some(false) => (Staircase { time_used, ..s }, StaircaseAction::Stop(StaircaseEnd::Wiped)),
        None => (Staircase { time_used, ..s }, StaircaseAction::Stop(StaircaseEnd::Unresolved)),
    }
}

/// Every attempt is at a level no higher than the cap, and is given exactly the
/// simulated time left in the budget, which is more than none.
pub proof fn lemma_attempts_fit_budget(s: Staircase)
    requires
        s.time_used >= 0,
    ensures
        attempt_or_stop(s) matches StaircaseAction::Attempt { level, time_limit } ==> level == s.level
            && level <= GUILD_MAX_LEVEL && time_limit > 0 && s.time_used + time_limit == GUILD_TIME_BUDGET,
{
}

/// A cleared attempt moves the staircase one step up and records that level as
/// the highest cleared; any other result ends it. No step spends less time than
/// the attempt took.
pub proof fn lemma_step_climbs_or_stops(s: Staircase, won: Option<bool>, simulated_time: i64)
    requires
        s.level <= GUILD_MAX_LEVEL,
        s.time_used >= 0,
        simulated_time >= 0,
        s.time_used + simulated_time <= i64::MAX,
    ensures
        won == Some(true) ==> after_attempt(s, won, simulated_time).level == s.level + GUILD_LEVEL_STEP
            && after_attempt(s, won, simulated_time).highest_cleared == Some(s.level),
        won != Some(true) ==> action_after(s, won, simulated_time) is Stop,
        won != Some(true) ==> after_attempt(s, won, simulated_time).level == s.level
            && after_attempt(s, won, simulated_time).highest_cleared == s.highest_cleared,
        after_attempt(s, won, simulated_time).time_used == s.time_used + simulated_time,
{
}

/// The highest level cleared stays one step below the level to attempt next,
/// or is none while the staircase is still at its first level: every step keeps
/// this.
pub proof fn lemma_highest_cleared_is_last_won(s: Staircase, won: Option<bool>, simulated_time: i64)
    requires
        s.level <= GUILD_MAX_LEVEL,
        s.time_used >= 0,
        simulated_time >= 0,
        s.time_used + simulated_time <= i64::MAX,
        s.highest_cleared matches Some(h) ==> h == s.level - GUILD_LEVEL_STEP,
        s.highest_cleared is None ==> s.level == GUILD_START_LEVEL,
    ensures
        after_attempt(s, won, simulated_time).highest_cleared matches Some(h) ==> h == after_attempt(
            s,
            won,
            simulated_time,
        ).level - GUILD_LEVEL_STEP,
        after_attempt(s, won, simulated_time).highest_cleared is None ==> after_attempt(s, won, simulated_time).level
            == GUILD_START_LEVEL,
{
}

} // verus!
