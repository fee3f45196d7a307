//! Rules on a unit's hitpoint and manapoint pools and on the enrage of monsters.
use vstd::prelude::*;
use crate::combat_utilities::trunc_div;

verus! {

/// The value of a pool after adding `amount` when below `maximum`: the sum,
/// capped at the maximum. A pool at or above its maximum stays as it is.
pub open spec fn restored(current: int, maximum: int, amount: int) -> int {
    if current >= maximum {
        current
    } else if current + amount < maximum {
        current + amount
    } else {
        maximum
    }
}

/// Raises a pool (hitpoints or manapoints) by `amount`, never past its maximum.
/// Returns the new value and how much it rose.
pub fn restore_points(current: i64, maximum: i64, amount: i64) -> (r: (i64, i64))
    requires
        current < maximum ==> i64::MIN <= current + amount <= i64::MAX,
    ensures
        r.0 == restored(current as int, maximum as int, amount as int),
        r.1 == r.0 - current,
{
    if current >= maximum {
        return (current, 0);
    }
    let sum = current + amount;
    let new_value = if sum < maximum { sum } else { maximum };
    (new_value, new_value - current)
}

/// `x` clamped to the range of `i64`, as a saturating addition yields it.
pub open spec fn saturate_i64(x: int) -> int {
    if x > i64::MAX {
        i64::MAX as int
    } else if x < i64::MIN {
        i64::MIN as int
    } else {
        x
    }
}

/// A pool never rises past its maximum, and a non-negative amount adds between
/// nothing and the full amount.
pub proof fn lemma_restore_bounded(current: int, maximum: int, amount: int)
    ensures
        current < maximum ==> restored(current, maximum, amount) <= maximum,
        amount >= 0 ==> current <= restored(current, maximum, amount) <= current + amount,
{
}

/// The most enrage stacks a monster can have.
pub const MAX_ENRAGE_STACK: i64 = 10;

/// The enrage stacks of a monster `encounter_time` into an encounter: one per
/// full `enrage_time` (the quotient rounded toward zero), at most
/// `MAX_ENRAGE_STACK`, taken as an `i32`.
pub open spec fn enrage_stack_at(encounter_time: int, enrage_time: int) -> i32 {
    let q = trunc_div(encounter_time, enrage_time);
    (if q < MAX_ENRAGE_STACK { q } else { MAX_ENRAGE_STACK as int }) as i32
}

pub fn enrage_stack(encounter_time: i64, enrage_time: i64) -> (r: i32)
    requires
        enrage_time > 0,
    ensures
        r == enrage_stack_at(encounter_time as int, enrage_time as int),
        encounter_time >= 0 ==> 0 <= r <= MAX_ENRAGE_STACK,
{
    let q = encounter_time / enrage_time;
    assert(q == trunc_div(encounter_time as int, enrage_time as int));
    proof {
        if encounter_time >= 0 {
            assert(q >= 0);
        }
    }
    let capped = if q < MAX_ENRAGE_STACK { q } else { MAX_ENRAGE_STACK };
    capped as i32
}

} // verus!
