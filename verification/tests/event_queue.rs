use combatsim::event_queue::EventQueue;
use combatsim::events::{CombatEvent, EventKind, AUTO_ATTACK, PLAYER_RESPAWN, REGEN_TICK};

fn ev(time: i64, kind: EventKind) -> CombatEvent {
    CombatEvent { time, kind }
}

fn drain_times(q: &mut EventQueue) -> Vec<i64> {
    let mut out = Vec::new();
    while let Some(e) = q.get_next_event() {
        out.push(e.time);
    }
    out
}

#[test]
fn events_leave_in_time_order() {
    let mut q = EventQueue::new();
    q.add_event(ev(30, EventKind::RegenTick));
    q.add_event(ev(10, EventKind::CombatStart));
    q.add_event(ev(20, EventKind::EnemyRespawn));
    q.add_event(ev(5, EventKind::CooldownReady));
    assert_eq!(drain_times(&mut q), vec![5, 10, 20, 30]);
    assert!(q.get_next_event().is_none());
}

#[test]
fn same_time_events_added_in_a_row_leave_in_order() {
    let mut q = EventQueue::new();
    q.add_event(ev(7, EventKind::AutoAttack { source: 1 }));
    q.add_event(ev(7, EventKind::AutoAttack { source: 2 }));
    q.add_event(ev(7, EventKind::AutoAttack { source: 3 }));
    let mut sources = Vec::new();
    while let Some(e) = q.get_next_event() {
        sources.push(e.source_idx().unwrap());
    }
    assert_eq!(sources, vec![1, 2, 3]);
}

#[test]
fn equal_times_leave_in_insertion_order_after_removals() {
    let mut q = EventQueue::new();
    assert!(q.add_event(ev(1, EventKind::RegenTick)));
    assert!(q.add_event(ev(1, EventKind::CooldownReady)));
    assert!(q.add_event(ev(9, EventKind::EnemyRespawn)));
    assert_eq!(q.get_next_event().unwrap().type_str(), "regenTick");
    assert_eq!(q.get_next_event().unwrap().type_str(), "cooldownReady");
    assert!(q.add_event(ev(9, EventKind::CombatStart)));
    assert_eq!(q.get_next_event().unwrap().type_str(), "enemyRespawn");
    assert_eq!(q.get_next_event().unwrap().type_str(), "combatStart");
    assert!(q.get_next_event().is_none());
}

#[test]
fn clear_removes_everything() {
    let mut q = EventQueue::new();
    q.add_event(ev(1, EventKind::RegenTick));
    q.add_event(ev(2, EventKind::RegenTick));
    q.clear();
    assert!(q.get_next_event().is_none());
}

#[test]
fn clear_events_for_unit_drops_source_and_target() {
    let mut q = EventQueue::new();
    q.add_event(ev(1, EventKind::AutoAttack { source: 3 }));
    q.add_event(ev(2, EventKind::DamageOverTime {
        source_ref: 0,
        target: 3,
        damage_bits: 0,
        total_ticks: 3,
        current_tick: 1,
        combat_style_hrid: "/combat_styles/magic".to_string(),
    }));
    q.add_event(ev(3, EventKind::AutoAttack { source: 4 }));
    q.add_event(ev(4, EventKind::RegenTick));
    q.clear_events_for_unit(3);
    let remaining: Vec<&'static str> = {
        let mut v = Vec::new();
        while let Some(e) = q.get_next_event() {
            v.push(e.type_str());
        }
        v
    };
    assert_eq!(remaining, vec![AUTO_ATTACK, REGEN_TICK]);
}

#[test]
fn clear_events_of_type_and_contains() {
    let mut q = EventQueue::new();
    q.add_event(ev(1, EventKind::AutoAttack { source: 0 }));
    q.add_event(ev(2, EventKind::RegenTick));
    q.add_event(ev(3, EventKind::AutoAttack { source: 1 }));
    assert!(q.contains_event_of_type("autoAttack"));
    q.clear_events_of_type(AUTO_ATTACK);
    assert!(!q.contains_event_of_type("autoAttack"));
    assert!(q.contains_event_of_type("regenTick"));
    assert_eq!(drain_times(&mut q), vec![2]);
}

#[test]
fn contains_respawn_of_a_player() {
    let mut q = EventQueue::new();
    q.add_event(ev(150, EventKind::PlayerRespawn { hrid: "player1".to_string() }));
    assert!(q.contains_event_of_type_and_hrid(PLAYER_RESPAWN, "player1"));
    assert!(!q.contains_event_of_type_and_hrid(PLAYER_RESPAWN, "player2"));
    assert!(!q.contains_event_of_type_and_hrid(AUTO_ATTACK, "player1"));
}

#[test]
fn clear_matching_reports_whether_anything_went() {
    let mut q = EventQueue::new();
    q.add_event(ev(1, EventKind::AutoAttack { source: 5 }));
    q.add_event(ev(2, EventKind::AutoAttack { source: 1 }));
    let removed = q.clear_matching(|e| e.source_idx().map_or(false, |s| s >= 3));
    assert!(removed);
    let removed_again = q.clear_matching(|e| e.source_idx().map_or(false, |s| s >= 3));
    assert!(!removed_again);
    assert_eq!(drain_times(&mut q), vec![2]);
}

#[test]
fn get_matching_finds_first_match() {
    let mut q = EventQueue::new();
    q.add_event(ev(9, EventKind::AutoAttack { source: 2 }));
    q.add_event(ev(4, EventKind::AbilityCastEnd { source: 2, ability_idx: 1 }));
    let found = q.get_matching(|e| e.source_idx() == Some(2));
    assert_eq!(found.map(|e| e.time), Some(9));
    assert!(q.get_matching(|e| e.source_idx() == Some(7)).is_none());
}

#[test]
fn type_tags_and_units_of_events() {
    let dot = ev(0, EventKind::DamageOverTime {
        source_ref: 1,
        target: 2,
        damage_bits: 12.5f64.to_bits(),
        total_ticks: 3,
        current_tick: 1,
        combat_style_hrid: String::new(),
    });
    assert_eq!(dot.type_str(), "damageOverTime");
    assert_eq!(dot.source_idx(), Some(1));
    assert_eq!(dot.target_idx(), Some(2));
    let enrage = ev(0, EventKind::EnrageTick { encounter_time: 60 });
    assert_eq!(enrage.type_str(), "enrageTick");
    assert_eq!(enrage.source_idx(), None);
    assert_eq!(enrage.target_idx(), None);
    let cast = ev(0, EventKind::AbilityCastEnd { source: 4, ability_idx: 0 });
    assert_eq!(cast.type_str(), "abilityCastEndEvent");
    assert_eq!(cast.source_idx(), Some(4));
    assert_eq!(ev(0, EventKind::AwaitCooldown { source: 1 }).type_str(), "awaitCooldownEvent");
}
