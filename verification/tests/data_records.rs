use combatsim::ability::{Ability, AbilityInfo, Consumable, ConsumableInfo};
use combatsim::achievement::{Achievement, AchievementInfo, AchievementTier};
use combatsim::equipment::{Equipment, ItemCatalog, ItemInfo};
use combatsim::records::{
    merge_time_spent_alive, update_dungeon_finish, update_time_spent_alive, ManaTimeEntry, PlayerVitals,
    TimeSeriesData, TimeSpentAliveEntry,
};
use combatsim::text::{same_text, text_contains};
use combatsim::trigger_dependency::{combat_trigger_dependency_map, TriggerDependency};

fn catalog() -> ItemCatalog {
    ItemCatalog::new(vec![
        ItemInfo {
            hrid: "/items/gobo_shooter".to_string(),
            combat_style: Some("/combat_styles/ranged".to_string()),
            damage_type: Some("/damage_types/physical".to_string()),
            primary_training: Some("/skills/ranged".to_string()),
            focus_training: None,
        },
        ItemInfo {
            hrid: "/items/cheese_helmet".to_string(),
            combat_style: None,
            damage_type: None,
            primary_training: None,
            focus_training: None,
        },
    ])
}

#[test]
fn equipment_reads_its_item() {
    let c = catalog();
    let bow = Equipment::new("/items/gobo_shooter".to_string(), 5, &c);
    assert_eq!(bow.enhancement_level, 5);
    assert_eq!(bow.get_combat_style(&c), "/combat_styles/ranged");
    assert_eq!(bow.get_damage_type(&c), "/damage_types/physical");
    assert_eq!(bow.get_primary_training(&c), "/skills/ranged");
    assert_eq!(bow.get_focus_training(&c), "");
}

#[test]
fn equipment_defaults_where_the_item_says_nothing() {
    let c = catalog();
    let helm = Equipment::new("/items/cheese_helmet".to_string(), 0, &c);
    assert_eq!(helm.get_combat_style(&c), "/combat_styles/smash");
    assert_eq!(helm.get_damage_type(&c), "/damage_types/physical");
    assert_eq!(helm.get_primary_training(&c), "");
    assert!(c.contains("/items/cheese_helmet"));
    assert!(!c.contains("/items/nothing"));
    assert_eq!(c.position("/items/cheese_helmet"), Some(1));
}

#[test]
fn trigger_dependencies_default_to_group() {
    let m = combat_trigger_dependency_map(vec![
        TriggerDependency { hrid: "/combat_trigger_dependencies/self".to_string(), is_single_target: Some(true) },
        TriggerDependency { hrid: "/combat_trigger_dependencies/all_enemies".to_string(), is_single_target: Some(false) },
        TriggerDependency { hrid: "/combat_trigger_dependencies/odd".to_string(), is_single_target: None },
    ]);
    assert!(m.is_single_target("/combat_trigger_dependencies/self"));
    assert!(!m.is_single_target("/combat_trigger_dependencies/all_enemies"));
    assert!(!m.is_single_target("/combat_trigger_dependencies/odd"));
    assert_eq!(m.get("/combat_trigger_dependencies/odd"), Some(false));
    assert_eq!(m.get("/combat_trigger_dependencies/missing"), None);
    assert!(!m.is_single_target("/combat_trigger_dependencies/missing"));
}

fn ach(hrid: &str, tier: &str) -> AchievementInfo {
    AchievementInfo { hrid: Some(hrid.to_string()), tier_hrid: Some(tier.to_string()) }
}

#[test]
fn achievement_buffs_need_every_achievement_of_the_tier() {
    let tiers = vec![
        AchievementTier { hrid: "/t/beginner".to_string(), usable_in_combat: true, buff: Some("b1") },
        AchievementTier { hrid: "/t/novice".to_string(), usable_in_combat: true, buff: Some("b2") },
        AchievementTier { hrid: "/t/gathering".to_string(), usable_in_combat: false, buff: Some("b3") },
        AchievementTier { hrid: "/t/empty".to_string(), usable_in_combat: true, buff: Some("b4") },
        AchievementTier { hrid: "/t/nobuff".to_string(), usable_in_combat: true, buff: None },
    ];
    let achievements = vec![
        ach("/a/1", "/t/beginner"),
        ach("/a/2", "/t/beginner"),
        ach("/a/3", "/t/novice"),
        ach("/a/4", "/t/novice"),
        ach("/a/5", "/t/gathering"),
        ach("/a/6", "/t/nobuff"),
        AchievementInfo { hrid: None, tier_hrid: Some("/t/beginner".to_string()) },
    ];
    let completed: Vec<String> = ["/a/1", "/a/2", "/a/3", "/a/5", "/a/6"].iter().map(|s| s.to_string()).collect();
    let buffs = Achievement::get_buffs(tiers, &achievements, &completed);
    assert_eq!(buffs, vec!["b1"]);
}

fn entry(name: &str, tsa: i64, spawned: i64, alive: bool, count: i32) -> TimeSpentAliveEntry {
    TimeSpentAliveEntry { name: name.to_string(), time_spent_alive: tsa, spawned_at: spawned, alive, count }
}

fn summary(v: &[TimeSpentAliveEntry]) -> Vec<(String, i64, i64, bool, i32)> {
    v.iter().map(|e| (e.name.clone(), e.time_spent_alive, e.spawned_at, e.alive, e.count)).collect()
}

#[test]
fn time_alive_is_counted_from_spawn_to_death() {
    let mut v: Vec<TimeSpentAliveEntry> = Vec::new();
    update_time_spent_alive(&mut v, "/monsters/fly", false, 5);
    assert!(v.is_empty());
    update_time_spent_alive(&mut v, "/monsters/fly", true, 10);
    update_time_spent_alive(&mut v, "#1", true, 10);
    update_time_spent_alive(&mut v, "/monsters/fly", false, 40);
    update_time_spent_alive(&mut v, "/monsters/fly", true, 50);
    update_time_spent_alive(&mut v, "/monsters/fly", false, 55);
    assert_eq!(
        summary(&v),
        vec![("/monsters/fly".to_string(), 35, 50, false, 2), ("#1".to_string(), 0, 10, true, 0)]
    );
}

#[test]
fn dungeon_run_bounds() {
    let v = vec![entry("#1", 0, 100, true, 0)];
    assert_eq!(update_dungeon_finish(&v, "#1", 400, 0, 0), (300, 300));
    assert_eq!(update_dungeon_finish(&v, "#1", 300, 300, 300), (200, 300));
    assert_eq!(update_dungeon_finish(&v, "#1", 600, 200, 300), (200, 500));
    assert_eq!(update_dungeon_finish(&v, "#2", 600, 200, 300), (200, 300));
}

#[test]
fn out_of_mana_stretches_add_up() {
    let mut m = ManaTimeEntry::new();
    m.record(true, 100);
    m.record(true, 150);
    m.record(false, 180);
    m.record(false, 190);
    m.record(true, 200);
    m.record(false, 230);
    assert_eq!(m.total_time_for_out_of_mana, 110);
    assert!(!m.is_out_of_mana);
    assert_eq!(m.start_time_for_out_of_mana, 200);
    let mut other = ManaTimeEntry::new();
    other.record(true, 5);
    m.merge(&other);
    assert_eq!(m.total_time_for_out_of_mana, 110);
    assert!(m.is_out_of_mana);
}

#[test]
fn merging_time_alive_of_two_runs() {
    let mut merged = vec![entry("a", 10, 1, false, 1), entry("b", 5, 2, true, 0)];
    let run = vec![entry("b", 7, 9, false, 2), entry("c", 3, 4, false, 1), entry("a", 1, 6, true, 1)];
    merge_time_spent_alive(&mut merged, &run);
    assert_eq!(
        summary(&merged),
        vec![
            ("a".to_string(), 11, 6, true, 2),
            ("b".to_string(), 12, 9, false, 2),
            ("c".to_string(), 3, 4, false, 1),
        ]
    );
}

fn vit(hrid: &str, hp: i64, mp: i64) -> PlayerVitals {
    PlayerVitals { hrid: hrid.to_string(), current_hitpoints: hp, current_manapoints: mp, max_hitpoints: 100, max_manapoints: 50 }
}

#[test]
fn time_series_snapshots() {
    let mut d = TimeSeriesData::new();
    d.add_snapshot(1, &vec![vit("player1", 90, 40), vit("player2", 80, 30)]);
    d.add_snapshot(2, &vec![vit("player2", 70, 20), vit("player1", 60, 10)]);
    assert_eq!(d.timestamps, vec![1, 2]);
    assert_eq!(d.players.len(), 2);
    assert_eq!(d.players[0].0, "player1");
    assert_eq!(d.players[0].1.hp, vec![90, 60]);
    assert_eq!(d.players[0].1.mp, vec![40, 10]);
    assert_eq!(d.players[1].0, "player2");
    assert_eq!(d.players[1].1.hp, vec![80, 70]);
    assert_eq!(d.players[1].1.max_mp, vec![50, 50]);
}

#[test]
fn abilities_wait_for_their_cooldown() {
    let info = AbilityInfo {
        mana_cost: 10,
        cooldown_duration: 1000,
        cast_duration: 0,
        is_special_ability: false,
        ability_effects: vec![1u8],
        default_triggers: vec!["default"],
    };
    let mut a = Ability::new("/abilities/poke".to_string(), 3, info, None);
    assert_eq!(a.triggers, vec!["default"]);
    assert_eq!(a.last_used, i64::MIN);
    assert!(a.can_be_used(0, false, false));
    a.last_used = 500;
    assert!(!a.can_be_used(1499, false, false));
    assert!(a.can_be_used(1500, false, false));
    assert!(!a.can_be_used(1500, true, false));
    assert!(!a.can_be_used(1500, false, true));
    a.last_used = i64::MAX - 5;
    assert!(a.can_be_used(i64::MAX, false, false));
    assert!(!a.can_be_used(i64::MAX - 1, false, false));
}

#[test]
fn consumables_know_their_category() {
    let info = ConsumableInfo {
        cooldown_duration: 60,
        hitpoint_restore: 200,
        manapoint_restore: 0,
        recovery_duration: 30,
        category_hrid: "/item_categories/food".to_string(),
        buffs: Vec::<u8>::new(),
        default_triggers: vec!["hp below"],
    };
    let c = Consumable::new("/items/donut".to_string(), info, Some(vec!["custom"]));
    assert!(c.is_food());
    assert!(!c.is_drink());
    assert_eq!(c.triggers, vec!["custom"]);
    assert_eq!(c.last_used, i64::MIN);
}

#[test]
fn text_helpers() {
    assert!(same_text("abc", "abc"));
    assert!(!same_text("abc", "abd"));
    assert!(text_contains("/item_categories/drink", "drink"));
    assert!(text_contains("abc", ""));
    assert!(!text_contains("dri", "drink"));
    assert!(text_contains("ééx", "éx"));
}
