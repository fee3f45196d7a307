//! Integer helpers of the combat rules: target choice and the split of a
//! total over periodic ticks.
use vstd::prelude::*;
use vstd::arithmetic::div_mod::{
    lemma_div_multiples_vanish, lemma_div_is_ordered, lemma_fundamental_div_mod, lemma_fundamental_div_mod_converse,
};

verus! {

/// Outcome of one attack, as whole amounts.
#[derive(Clone, Debug)]
pub struct AttackResult {
    pub damage_done: i64,
    pub did_hit: bool,
    pub thorn_damage_done: i64,
    pub thorn_type: String,
    pub retaliation_damage_done: i64,
    pub life_steal_heal: i64,
    pub hp_drain: i64,
    pub mana_leech_mana: i64,
    pub is_crit: bool,
    /// Part of `damage_done` owed to the target's damage-taken debuff.
    pub debuff_damage: i64,
    /// Per resistance debuff (by its unique hrid), the damage that it added.
    pub resist_debuff_damage: Vec<(String, i64)>,
    /// Damage before the target's mitigation and the overkill clamp.
    pub raw_damage: i64,
    pub raw_thorn_damage: i64,
    pub raw_retaliation_damage: i64,
}

/// Integer division rounded toward zero, as machine division does it.
pub open spec fn trunc_div(a: int, b: int) -> int {
    if a >= 0 {
        if b > 0 { a / b } else { -(a / (-b)) }
    } else {
        if b > 0 { -((-a) / b) } else { (-a) / (-b) }
    }
}

/// The part of `total_value` that falls on tick `current_tick` of `total_ticks`:
/// the running share after this tick less the running share after the one before.
pub open spec fn tick_value(total_value: int, total_ticks: int, current_tick: int) -> int {
    trunc_div(current_tick * total_value, total_ticks) - trunc_div((current_tick - 1) * total_value, total_ticks)
}

/// The sum of the ticks `1..=m`.
pub open spec fn ticks_sum(total_value: int, total_ticks: int, m: int) -> int
    decreases m,
{
    if m <= 0 {
        0
    } else {
        ticks_sum(total_value, total_ticks, m - 1) + tick_value(total_value, total_ticks, m)
    }
}

/// Whether the tick value of `total_value` over `total_ticks` on tick
/// `current_tick` is computed within `i64` and divides by a non-zero count.
pub open spec fn tick_value_ok(total_value: int, total_ticks: int, current_tick: int) -> bool {
    &&& i64::MIN <= current_tick * total_value <= i64::MAX
    &&& i64::MIN <= (current_tick - 1) * total_value <= i64::MAX
    &&& i64_div_ok(current_tick * total_value, total_ticks)
    &&& i64_div_ok((current_tick - 1) * total_value, total_ticks)
    &&& i64::MIN <= tick_value(total_value, total_ticks, current_tick) <= i64::MAX
}

/// Whether a machine division of `a` by `b` is defined and does not overflow.
pub open spec fn i64_div_ok(a: int, b: int) -> bool {
    b != 0 && !(a == i64::MIN && b == -1)
}

/// A quotient by a divisor of at least two is strictly smaller than a positive dividend.
proof fn lemma_div_shrinks(a: int, d: int)
    requires
        0 < a,
        2 <= d,
    ensures
        0 <= a / d < a,
{
    assert(0 <= a / d < a) by (nonlinear_arith)
        requires
            0 < a,
            2 <= d,
    {
        assert(a == d * (a / d) + a % d);
        assert(0 <= a % d < d);
    }
}

proof fn lemma_ticks_sum_prefix(total_value: int, total_ticks: int, m: int)
    requires
        total_ticks > 0,
        m >= 0,
    ensures
        ticks_sum(total_value, total_ticks, m) == trunc_div(m * total_value, total_ticks),
    decreases m,
{
    if m > 0 {
        lemma_ticks_sum_prefix(total_value, total_ticks, m - 1);
        assert((m - 1) * total_value == m * total_value - total_value) by (nonlinear_arith);
    } else {
        assert(m * total_value == 0) by (nonlinear_arith)
            requires
                m == 0,
        ;
    }
}

/// The ticks of a periodic effect add up to its total: over `total_ticks` ticks,
/// nothing of `total_value` is lost or added by the rounding of each tick.
pub proof fn lemma_ticks_add_up_to_total(total_value: int, total_ticks: int)
    requires
        total_ticks > 0,
    ensures
        ticks_sum(total_value, total_ticks, total_ticks) == total_value,
{
    lemma_ticks_sum_prefix(total_value, total_ticks, total_ticks);
    let n = total_ticks;
    let t = total_value;
    if t >= 0 {
        assert(n * t >= 0) by (nonlinear_arith)
            requires
                n > 0,
                t >= 0,
        ;
        lemma_div_multiples_vanish(t, n);
    } else {
        assert(n * t < 0 && -(n * t) == n * (-t)) by (nonlinear_arith)
            requires
                n > 0,
                t < 0,
        ;
        lemma_div_multiples_vanish(-t, n);
    }
}

/// No tick of a non-negative total is negative.
pub proof fn lemma_tick_value_nonnegative(total_value: int, total_ticks: int, current_tick: int)
    requires
        total_value >= 0,
        total_ticks > 0,
        current_tick >= 1,
    ensures
        tick_value(total_value, total_ticks, current_tick) >= 0,
{
    let t = total_value;
    let k = current_tick;
    assert(0 <= (k - 1) * t <= k * t) by (nonlinear_arith)
        requires
            t >= 0,
            k >= 1,
    ;
    lemma_div_is_ordered((k - 1) * t, k * t, total_ticks);
}

/// Each tick of a non-negative total is the total over the tick count,
/// rounded down, or one more: the rounding never moves a whole unit more.
pub proof fn lemma_tick_value_is_even_share(total_value: int, total_ticks: int, current_tick: int)
    requires
        total_value >= 0,
        total_ticks > 0,
        current_tick >= 1,
    ensures
        tick_value(total_value, total_ticks, current_tick) == total_value / total_ticks
            || tick_value(total_value, total_ticks, current_tick) == total_value / total_ticks + 1,
{
    let v = total_value;
    let n = total_ticks;
    let k = current_tick;
    let a = (k - 1) * v;
    assert(0 <= a && k * v == a + v) by (nonlinear_arith)
        requires
            v >= 0,
            k >= 1,
            a == (k - 1) * v,
    ;
    lemma_fundamental_div_mod(a, n);
    lemma_fundamental_div_mod(v, n);
    let qa = a / n;
    let ra = a % n;
    let qv = v / n;
    let rv = v % n;
    assert(a == qa * n + ra && v == qv * n + rv) by (nonlinear_arith)
        requires
            a == n * qa + ra,
            v == n * qv + rv,
    ;
    if ra + rv < n {
        assert(a + v == (qa + qv) * n + (ra + rv)) by (nonlinear_arith)
            requires
                a == qa * n + ra,
                v == qv * n + rv,
        ;
        lemma_fundamental_div_mod_converse(a + v, n, qa + qv, ra + rv);
    } else {
        assert(a + v == (qa + qv + 1) * n + (ra + rv - n)) by (nonlinear_arith)
            requires
                a == qa * n + ra,
                v == qv * n + rv,
        ;
        lemma_fundamental_div_mod_converse(a + v, n, qa + qv + 1, ra + rv - n);
    }
}

pub struct CombatUtilities;

impl CombatUtilities {
    /// Index of the first unit, by current hitpoints, that is still alive.
    pub fn get_target(current_hitpoints: &[i64]) -> (r: Option<usize>)
        ensures
            r is None ==> forall|i: int| 0 <= i < current_hitpoints@.len() ==> current_hitpoints@[i] <= 0,
            r matches Some(k) ==> k < current_hitpoints@.len() && current_hitpoints@[k as int] > 0
                && forall|i: int| 0 <= i < k ==> current_hitpoints@[i] <= 0,
    {
        let mut i: usize = 0;
        while i < current_hitpoints.len()
            invariant
                i <= current_hitpoints@.len(),
                forall|j: int| 0 <= j < i ==> current_hitpoints@[j] <= 0,
            decreases current_hitpoints@.len() - i,
        {
            if current_hitpoints[i] > 0 {
                return Some(i);
            }
            i += 1;
        }
        None
    }

    pub fn calculate_tick_value(total_value: i64, total_ticks: i32, current_tick: i32) -> (r: i64)
        requires
            tick_value_ok(total_value as int, total_ticks as int, current_tick as int),
        ensures
            r == tick_value(total_value as int, total_ticks as int, current_tick as int),
    {
        let ticks = total_ticks as i64;
        let current_sum = trunc_quotient(current_tick as i64 * total_value, ticks);
        let previous_sum = trunc_quotient((current_tick as i64 - 1) * total_value, ticks);
        current_sum - previous_sum
    }

    /// The tick value where its arithmetic stays within `i64` and divides by a
    /// tick count that is not zero, and `None` where it would not.
    pub fn checked_tick_value(total_value: i64, total_ticks: i32, current_tick: i32) -> (r: Option<i64>)
        ensures
            r == (if tick_value_ok(total_value as int, total_ticks as int, current_tick as int) {
                Some(tick_value(total_value as int, total_ticks as int, current_tick as int) as i64)
            } else {
                None
            }),
    {
        let ticks = total_ticks as i64;
        let current_product = match (current_tick as i64).checked_mul(total_value) {
            Some(x) => x,
            None => return None,
        };
        let previous_product = match (current_tick as i64 - 1).checked_mul(total_value) {
            Some(x) => x,
            None => return None,
        };
        if ticks == 0 || (ticks == -1 && (current_product == i64::MIN || previous_product == i64::MIN)) {
            return None;
        }
        let current_sum = trunc_quotient(current_product, ticks);
        let previous_sum = trunc_quotient(previous_product, ticks);
        current_sum.checked_sub(previous_sum)
    }
}

/// Machine division of `a` by `b`, rounded toward zero.
fn trunc_quotient(a: i64, b: i64) -> (q: i64)
    requires
        i64_div_ok(a as int, b as int),
        b >= i32::MIN,
    ensures
        q == trunc_div(a as int, b as int),
{
    proof {
        if b < -1 && a < 0 {
            lemma_div_shrinks(-(a as int), -(b as int));
        }
    }
    // division toward zero, taken by the divisor's sign
    if b > 0 { a / b } else { -(a / -b) }

}

} // verus!
