//! Events of the combat simulation and their type tags.
use vstd::prelude::*;

verus! {

pub const COMBAT_START: &'static str = "combatStart";
pub const PLAYER_RESPAWN: &'static str = "playerRespawn";
pub const ENEMY_RESPAWN: &'static str = "enemyRespawn";
pub const AUTO_ATTACK: &'static str = "autoAttack";
pub const CONSUMABLE_TICK: &'static str = "consumableTick";
pub const DAMAGE_OVER_TIME: &'static str = "damageOverTime";
pub const CHECK_BUFF_EXPIRATION: &'static str = "checkBuffExpiration";
pub const REGEN_TICK: &'static str = "regenTick";
pub const STUN_EXPIRATION: &'static str = "stunExpiration";
pub const BLIND_EXPIRATION: &'static str = "blindExpiration";
pub const SILENCE_EXPIRATION: &'static str = "silenceExpiration";
pub const CURSE_EXPIRATION: &'static str = "curseExpiration";
pub const WEAKEN_EXPIRATION: &'static str = "weakenExpiration";
pub const FURY_EXPIRATION: &'static str = "furyExpiration";
pub const ENRAGE_TICK: &'static str = "enrageTick";
pub const ABILITY_CAST_END: &'static str = "abilityCastEndEvent";
pub const AWAIT_COOLDOWN: &'static str = "awaitCooldownEvent";
pub const COOLDOWN_READY: &'static str = "cooldownReady";

/// Index of a unit in the simulator's unit list.
pub type UnitIdx = usize;

/// A scheduled event: when it fires (in nanoseconds of simulated time) and what it is.
#[derive(Clone, Debug)]
pub struct CombatEvent {
    pub time: i64,
    pub kind: EventKind,
}

/// The kinds of events. Real-valued payloads (the damage of a damage-over-time
/// effect and the amount of a fury stack) are carried as the bit pattern of
/// their IEEE-754 double; nothing in this crate reads them.
#[derive(Clone, Debug)]
pub enum EventKind {
    CombatStart,
    PlayerRespawn { hrid: String },
    EnemyRespawn,
    AutoAttack { source: UnitIdx },
    ConsumableTick { source: UnitIdx, consumable_hrid: String, total_ticks: i32, current_tick: i32 },
    DamageOverTime {
        source_ref: UnitIdx,
        target: UnitIdx,
        damage_bits: u64,
        total_ticks: i32,
        current_tick: i32,
        combat_style_hrid: String,
    },
    CheckBuffExpiration { source: UnitIdx },
    RegenTick,
    StunExpiration { source: UnitIdx },
    BlindExpiration { source: UnitIdx },
    SilenceExpiration { source: UnitIdx },
    CurseExpiration { source: UnitIdx, curse_amount: i32 },
    WeakenExpiration { source: UnitIdx, weaken_amount: i32 },
    FuryExpiration { source: UnitIdx, fury_amount_bits: u64 },
    EnrageTick { encounter_time: i64 },
    AbilityCastEnd { source: UnitIdx, ability_idx: usize },
    AwaitCooldown { source: UnitIdx },
    CooldownReady,
}

/// The type tag of an event kind.
pub open spec fn type_tag(kind: EventKind) -> Seq<char> {
    match kind {
        EventKind::CombatStart => COMBAT_START@,
        EventKind::PlayerRespawn { .. } => PLAYER_RESPAWN@,
        EventKind::EnemyRespawn => ENEMY_RESPAWN@,
        EventKind::AutoAttack { .. } => AUTO_ATTACK@,
        EventKind::ConsumableTick { .. } => CONSUMABLE_TICK@,
        EventKind::DamageOverTime { .. } => DAMAGE_OVER_TIME@,
        EventKind::CheckBuffExpiration { .. } => CHECK_BUFF_EXPIRATION@,
        EventKind::RegenTick => REGEN_TICK@,
        EventKind::StunExpiration { .. } => STUN_EXPIRATION@,
        EventKind::BlindExpiration { .. } => BLIND_EXPIRATION@,
        EventKind::SilenceExpiration { .. } => SILENCE_EXPIRATION@,
        EventKind::CurseExpiration { .. } => CURSE_EXPIRATION@,
        EventKind::WeakenExpiration { .. } => WEAKEN_EXPIRATION@,
        EventKind::FuryExpiration { .. } => FURY_EXPIRATION@,
        EventKind::EnrageTick { .. } => ENRAGE_TICK@,
        EventKind::AbilityCastEnd { .. } => ABILITY_CAST_END@,
        EventKind::AwaitCooldown { .. } => AWAIT_COOLDOWN@,
        EventKind::CooldownReady => COOLDOWN_READY@,
    }
}

/// The unit that an event acts for, where it has one.
pub open spec fn source_of(kind: EventKind) -> Option<UnitIdx> {
    match kind {
        EventKind::AutoAttack { source } => Some(source),
        EventKind::ConsumableTick { source, .. } => Some(source),
        EventKind::CheckBuffExpiration { source } => Some(source),
        EventKind::StunExpiration { source } => Some(source),
        EventKind::BlindExpiration { source } => Some(source),
        EventKind::SilenceExpiration { source } => Some(source),
        EventKind::CurseExpiration { source, .. } => Some(source),
        EventKind::WeakenExpiration { source, .. } => Some(source),
        EventKind::FuryExpiration { source, .. } => Some(source),
        EventKind::AbilityCastEnd { source, .. } => Some(source),
        EventKind::AwaitCooldown { source } => Some(source),
        EventKind::DamageOverTime { source_ref, .. } => Some(source_ref),
        _ => None,
    }
}

/// The unit that an event is aimed at, where it has one.
pub open spec fn target_of(kind: EventKind) -> Option<UnitIdx> {
    match kind {
        EventKind::DamageOverTime { target, .. } => Some(target),
        _ => None,
    }
}

impl CombatEvent {
    pub fn type_str(&self) -> (s: &'static str)
        ensures
            s@ == type_tag(self.kind),
    {
        match &self.kind {
            EventKind::CombatStart => COMBAT_START,
            EventKind::PlayerRespawn { .. } => PLAYER_RESPAWN,
            EventKind::EnemyRespawn => ENEMY_RESPAWN,
            EventKind::AutoAttack { .. } => AUTO_ATTACK,
            EventKind::ConsumableTick { .. } => CONSUMABLE_TICK,
            EventKind::DamageOverTime { .. } => DAMAGE_OVER_TIME,
            EventKind::CheckBuffExpiration { .. } => CHECK_BUFF_EXPIRATION,
            EventKind::RegenTick => REGEN_TICK,
            EventKind::StunExpiration { .. } => STUN_EXPIRATION,
            EventKind::BlindExpiration { .. } => BLIND_EXPIRATION,
            EventKind::SilenceExpiration { .. } => SILENCE_EXPIRATION,
            EventKind::CurseExpiration { .. } => CURSE_EXPIRATION,
            EventKind::WeakenExpiration { .. } => WEAKEN_EXPIRATION,
            EventKind::FuryExpiration { .. } => FURY_EXPIRATION,
            EventKind::EnrageTick { .. } => ENRAGE_TICK,
            EventKind::AbilityCastEnd { .. } => ABILITY_CAST_END,
            EventKind::AwaitCooldown { .. } => AWAIT_COOLDOWN,
            EventKind::CooldownReady => COOLDOWN_READY,
        }
    }

    pub fn source_idx(&self) -> (r: Option<UnitIdx>)
        ensures
            r == source_of(self.kind),
    {
        match &self.kind {
            EventKind::AutoAttack { source }
            | EventKind::ConsumableTick { source, .. }
            | EventKind::CheckBuffExpiration { source }
            | EventKind::StunExpiration { source }
            | EventKind::BlindExpiration { source }
            | EventKind::SilenceExpiration { source }
            | EventKind::CurseExpiration { source, .. }
            | EventKind::WeakenExpiration { source, .. }
            | EventKind::FuryExpiration { source, .. }
            | EventKind::AbilityCastEnd { source, .. }
            | EventKind::AwaitCooldown { source } => Some(*source),
            EventKind::DamageOverTime { source_ref, .. } => Some(*source_ref),
            _ => None,
        }
    }

    pub fn target_idx(&self) -> (r: Option<UnitIdx>)
        ensures
            r == target_of(self.kind),
    {
        match &self.kind {
            EventKind::DamageOverTime { target, .. } => Some(*target),
            _ => None,
        }
    }
}

} // verus!
