use combatsim::combat_utilities::CombatUtilities;
use combatsim::equipment::{Equipment, ItemCatalog};
use combatsim::guild::{
    staircase_start, staircase_step, StaircaseAction, StaircaseEnd, GUILD_START_LEVEL, GUILD_TIME_BUDGET,
};
use combatsim::run_merge::{add_counts, join_flags, merge_run_counters, RunCounters};
use combatsim::trigger_dependency::trigger_dependency_map_from_json;

#[test]
fn each_tick_is_an_even_share() {
    for (total, n) in [(10i64, 3i32), (100, 7), (5, 5), (0, 4), (7, 1)] {
        let mut sum = 0;
        for k in 1..=n {
            let t = CombatUtilities::calculate_tick_value(total, n, k);
            assert!(t == total / n as i64 || t == total / n as i64 + 1);
            sum += t;
        }
        assert_eq!(sum, total);
    }
}

#[test]
fn checked_tick_values() {
    assert_eq!(CombatUtilities::checked_tick_value(10, 3, 3), Some(4));
    assert_eq!(CombatUtilities::checked_tick_value(10, 0, 1), None);
    assert_eq!(CombatUtilities::checked_tick_value(i64::MAX, 3, 2), None);
    assert_eq!(CombatUtilities::checked_tick_value(i64::MIN, -1, 1), None);
}

#[test]
fn trigger_dependencies_from_game_data_text() {
    let text = "{
        \"/combat_trigger_dependencies/self\": {\"hrid\": \"/combat_trigger_dependencies/self\", \"isSingleTarget\": true},
        \"/combat_trigger_dependencies/all_allies\": {\"isSingleTarget\": false},
        \"/combat_trigger_dependencies/unflagged\": {}
    }";
    let m = trigger_dependency_map_from_json(text);
    assert!(m.is_single_target("/combat_trigger_dependencies/self"));
    assert!(!m.is_single_target("/combat_trigger_dependencies/all_allies"));
    assert_eq!(m.get("/combat_trigger_dependencies/unflagged"), Some(false));
    assert_eq!(m.get("/combat_trigger_dependencies/other"), None);
    let broken = trigger_dependency_map_from_json("not json");
    assert_eq!(broken.get("/combat_trigger_dependencies/self"), None);
}

#[test]
fn item_catalog_from_game_data_text() {
    let text = "{
        \"/items/bow\": {\"equipmentDetail\": {\"combatStats\": {
            \"combatStyleHrids\": [\"/combat_styles/ranged\"], \"damageType\": \"/damage_types/physical\",
            \"primaryTraining\": \"/skills/ranged\"}}},
        \"/items/cheese\": {\"name\": \"Cheese\"}
    }";
    let catalog = ItemCatalog::from_json(text);
    assert_eq!(catalog.items.len(), 2);
    let bow = Equipment::new("/items/bow".to_string(), 0, &catalog);
    assert_eq!(bow.get_combat_style(&catalog), "/combat_styles/ranged");
    assert_eq!(bow.get_primary_training(&catalog), "/skills/ranged");
    assert_eq!(bow.get_focus_training(&catalog), "");
    let cheese = Equipment::new("/items/cheese".to_string(), 0, &catalog);
    assert_eq!(cheese.get_combat_style(&catalog), "/combat_styles/smash");
    assert!(!ItemCatalog::from_json("[1, 2]").contains("/items/bow"));
}

fn run(encounters: i32, finish: i64, wave: i32) -> RunCounters {
    RunCounters {
        encounters,
        dungeons_completed: 1,
        dungeons_failed: 0,
        laby_attempt_count: 0,
        simulated_time: 100,
        last_encounter_finish_time: finish,
        last_dungeon_finish_time: finish,
        min_dungeon_time: finish,
        max_dungeon_time: finish,
        max_wave_reached: wave,
        max_enrage_stack: wave,
    }
}

#[test]
fn runs_merge_into_sums_maxima_and_averages() {
    let m = merge_run_counters(&vec![run(3, 10, 2), run(4, 15, 5), run(5, 20, 1)]).unwrap();
    assert_eq!(m.encounters, 12);
    assert_eq!(m.dungeons_completed, 3);
    assert_eq!(m.simulated_time, 300);
    assert_eq!(m.last_encounter_finish_time, 15);
    assert_eq!(m.min_dungeon_time, 15);
    assert_eq!(m.max_wave_reached, 5);
    assert_eq!(m.max_enrage_stack, 5);
    let odd = merge_run_counters(&vec![run(1, -7, 0), run(1, 0, 0)]).unwrap();
    assert_eq!(odd.last_encounter_finish_time, -3);
    assert!(merge_run_counters(&vec![run(i32::MAX, 0, 0), run(1, 0, 0)]).is_none());
}

#[test]
fn counts_and_flags_merge_per_key() {
    let mut counts = vec![("a".to_string(), 2i64), ("b".to_string(), 3)];
    assert!(add_counts(&mut counts, &vec![("b".to_string(), 4), ("c".to_string(), 1)]));
    assert_eq!(counts, vec![("a".to_string(), 2), ("b".to_string(), 7), ("c".to_string(), 1)]);
    assert!(!add_counts(&mut counts, &vec![("a".to_string(), i64::MAX)]));
    let mut flags = vec![("player1".to_string(), false), ("player2".to_string(), true)];
    join_flags(&mut flags, &vec![("player1".to_string(), true), ("player3".to_string(), false)]);
    assert_eq!(
        flags,
        vec![("player1".to_string(), true), ("player2".to_string(), true), ("player3".to_string(), false)]
    );
}

#[test]
fn guild_staircase_climbs_until_a_wipe() {
    let (s, a) = staircase_start();
    assert_eq!(s.level, GUILD_START_LEVEL);
    assert!(matches!(a, StaircaseAction::Attempt { level: 100, time_limit: GUILD_TIME_BUDGET }));
    let (s, a) = staircase_step(s, Some(true), 1_000);
    assert_eq!(s.highest_cleared, Some(100));
    assert!(matches!(a, StaircaseAction::Attempt { level: 110, time_limit } if time_limit == GUILD_TIME_BUDGET - 1_000));
    let (s, a) = staircase_step(s, Some(false), 2_000);
    assert_eq!(s.time_used, 3_000);
    assert_eq!(s.highest_cleared, Some(100));
    assert!(matches!(a, StaircaseAction::Stop(StaircaseEnd::Wiped)));
}

#[test]
fn guild_staircase_stops_at_the_cap_and_on_the_budget() {
    let (mut s, mut a) = staircase_start();
    let mut cleared = 0;
    while let StaircaseAction::Attempt { .. } = a {
        let r = staircase_step(s, Some(true), 1);
        s = r.0;
        a = r.1;
        cleared += 1;
    }
    assert_eq!(cleared, 21);
    assert!(matches!(a, StaircaseAction::Stop(StaircaseEnd::LevelCap)));
    assert_eq!(s.highest_cleared, Some(300));
    let (s, _) = staircase_start();
    let (_, a) = staircase_step(s, Some(true), GUILD_TIME_BUDGET);
    assert!(matches!(a, StaircaseAction::Stop(StaircaseEnd::BudgetSpent)));
    let (_, a) = staircase_step(s, None, 5);
    assert!(matches!(a, StaircaseAction::Stop(StaircaseEnd::Unresolved)));
}
