//! Abilities and consumables of a unit: their costs and timings, the triggers
//! that decide when they are used, and when they may be used.
use vstd::prelude::*;
use crate::text::{contains_text, text_contains};
use crate::unit_rules::saturate_i64;

verus! {

/// What the game data says of an ability, with its effects (`E`) already worked
/// out for the ability's level and its default triggers (`T`).
pub struct AbilityInfo<E, T> {
    pub mana_cost: i64,
    pub cooldown_duration: i64,
    pub cast_duration: i64,
    pub is_special_ability: bool,
    pub ability_effects: Vec<E>,
    pub default_triggers: Vec<T>,
}

/// An ability at a level; `E` is the kind of its effects, `T` of its triggers.
#[derive(Clone, Debug)]
pub struct Ability<E, T> {
    pub hrid: String,
    pub level: i32,
    pub mana_cost: i64,
    pub cooldown_duration: i64,
    pub cast_duration: i64,
    pub is_special_ability: bool,
    pub ability_effects: Vec<E>,
    pub triggers: Vec<T>,
    pub last_used: i64,
}

/// The triggers given, or else the defaults of the game data.
pub open spec fn chosen_triggers<T>(given: Option<Vec<T>>, defaults: Vec<T>) -> Vec<T> {
    match given {
        Some(t) => t,
        None => defaults,
    }
}

impl<E, T> Ability<E, T> {
    /// An ability that has never been used, with the given triggers or else the defaults.
    pub fn new(hrid: String, level: i32, info: AbilityInfo<E, T>, triggers_opt: Option<Vec<T>>) -> (a: Self)
        ensures
            a.hrid == hrid,
            a.level == level,
            a.mana_cost == info.mana_cost,
            a.cooldown_duration == info.cooldown_duration,
            a.cast_duration == info.cast_duration,
            a.is_special_ability == info.is_special_ability,
            a.ability_effects == info.ability_effects,
            a.triggers == chosen_triggers(triggers_opt, info.default_triggers),
            a.last_used == i64::MIN,
    {
        let triggers = match triggers_opt {
            Some(t) => t,
            None => info.default_triggers,
        };
        Ability {
            hrid,
            level,
            mana_cost: info.mana_cost,
            cooldown_duration: info.cooldown_duration,
            cast_duration: info.cast_duration,
            is_special_ability: info.is_special_ability,
            ability_effects: info.ability_effects,
            triggers,
            last_used: i64::MIN,
        }
    }

    /// Whether the ability may be used at `current_time`: not while stunned or
    /// silenced, and only once its cooldown since the last use (the sum
    /// saturating at the bounds of `i64`) has run out. Haste is left to the caller.
    pub fn can_be_used(&self, current_time: i64, is_stunned: bool, is_silenced: bool) -> (r: bool)
        ensures
            r == (!is_stunned && !is_silenced && saturate_i64(self.last_used + self.cooldown_duration)
                <= current_time),
    {
        if is_stunned || is_silenced {
            return false;
        }
        let ready_at = match self.last_used.checked_add(self.cooldown_duration) {
            Some(v) => v,
            None => if self.cooldown_duration > 0 { i64::MAX } else { i64::MIN },
        };
        ready_at <= current_time
    }
}

/// What the game data says of a consumable, with its buffs (`B`) and default triggers (`T`).
pub struct ConsumableInfo<B, T> {
    pub cooldown_duration: i64,
    pub hitpoint_restore: i64,
    pub manapoint_restore: i64,
    pub recovery_duration: i64,
    pub category_hrid: String,
    pub buffs: Vec<B>,
    pub default_triggers: Vec<T>,
}

/// A food or drink; `B` is the kind of its buffs, `T` of its triggers.
#[derive(Clone, Debug)]
pub struct Consumable<B, T> {
    pub hrid: String,
    pub cooldown_duration: i64,
    pub hitpoint_restore: i64,
    pub manapoint_restore: i64,
    pub recovery_duration: i64,
    pub category_hrid: String,
    pub buffs: Vec<B>,
    pub triggers: Vec<T>,
    pub last_used: i64,
}

impl<B, T> Consumable<B, T> {
    /// A consumable that has never been used, with the given triggers or else the defaults.
    pub fn new(hrid: String, info: ConsumableInfo<B, T>, triggers_opt: Option<Vec<T>>) -> (c: Self)
        ensures
            c.hrid == hrid,
            c.cooldown_duration == info.cooldown_duration,
            c.hitpoint_restore == info.hitpoint_restore,
            c.manapoint_restore == info.manapoint_restore,
            c.recovery_duration == info.recovery_duration,
            c.category_hrid == info.category_hrid,
            c.buffs == info.buffs,
            c.triggers == chosen_triggers(triggers_opt, info.default_triggers),
            c.last_used == i64::MIN,
    {
        let triggers = match triggers_opt {
            Some(t) => t,
            None => info.default_triggers,
        };
        Consumable {
            hrid,
            cooldown_duration: info.cooldown_duration,
            hitpoint_restore: info.hitpoint_restore,
            manapoint_restore: info.manapoint_restore,
            recovery_duration: info.recovery_duration,
            category_hrid: info.category_hrid,
            buffs: info.buffs,
            triggers,
            last_used: i64::MIN,
        }
    }

    pub fn is_food(&self) -> (r: bool)
        ensures
            r == contains_text(self.category_hrid@, "food"@),
    {
        text_contains(self.category_hrid.as_str(), "food")
    }

    pub fn is_drink(&self) -> (r: bool)
        ensures
            r == contains_text(self.category_hrid@, "drink"@),
    {
        text_contains(self.category_hrid.as_str(), "drink")
    }
}

} // verus!
