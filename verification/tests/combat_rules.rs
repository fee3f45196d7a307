use combatsim::combat_utilities::CombatUtilities;
use combatsim::unit_rules::{enrage_stack, restore_points};
use combatsim::units::borrow_two_mut;
use combatsim::levels::{xp_at_level, xp_for_levels};

#[test]
fn tick_values_split_the_total() {
    let ticks: Vec<i64> = (1..=3).map(|k| CombatUtilities::calculate_tick_value(100, 3, k)).collect();
    assert_eq!(ticks, vec![33, 33, 34]);
    assert_eq!(ticks.iter().sum::<i64>(), 100);
}

#[test]
fn tick_values_of_a_negative_total_round_toward_zero() {
    let ticks: Vec<i64> = (1..=3).map(|k| CombatUtilities::calculate_tick_value(-100, 3, k)).collect();
    assert_eq!(ticks, vec![-33, -33, -34]);
    assert_eq!(ticks.iter().sum::<i64>(), -100);
}

#[test]
fn tick_values_with_negative_tick_count() {
    assert_eq!(CombatUtilities::calculate_tick_value(100, -3, 1), -33);
    assert_eq!(CombatUtilities::calculate_tick_value(7, 7, 4), 1);
}

#[test]
fn target_is_first_living_unit() {
    assert_eq!(CombatUtilities::get_target(&[0, -5, 12, 3]), Some(2));
    assert_eq!(CombatUtilities::get_target(&[0, 0]), None);
    assert_eq!(CombatUtilities::get_target(&[]), None);
}

#[test]
fn restoring_points_caps_at_maximum() {
    assert_eq!(restore_points(50, 100, 30), (80, 30));
    assert_eq!(restore_points(90, 100, 30), (100, 10));
    assert_eq!(restore_points(100, 100, 30), (100, 0));
    assert_eq!(restore_points(120, 100, 30), (120, 0));
    assert_eq!(restore_points(50, 100, -20), (30, -20));
}

#[test]
fn enrage_stacks_grow_and_cap() {
    assert_eq!(enrage_stack(60_000_000_000, 90_000_000_000), 0);
    assert_eq!(enrage_stack(180_000_000_000, 90_000_000_000), 2);
    assert_eq!(enrage_stack(10_000, 1), 10);
    assert_eq!(enrage_stack(-7, 2), -3);
}

#[test]
fn two_units_are_borrowed_at_once() {
    let mut v = vec![1, 2, 3, 4];
    {
        let (a, b) = borrow_two_mut(&mut v, 3, 1);
        *a += 10;
        *b += 20;
    }
    assert_eq!(v, vec![1, 22, 3, 14]);
    let (x, y) = borrow_two_mut(&mut v, 0, 2);
    std::mem::swap(x, y);
    assert_eq!(v, vec![3, 22, 1, 14]);
}

#[test]
fn experience_table_lookups() {
    assert_eq!(xp_at_level(1), 0);
    assert_eq!(xp_at_level(2), 33);
    assert_eq!(xp_at_level(0), 0);
    assert_eq!(xp_at_level(-50), 0);
    assert_eq!(xp_at_level(200), 100_000_000_000);
    assert_eq!(xp_at_level(500), 100_000_000_000);
    assert_eq!(xp_for_levels(1, 2), 76);
    assert_eq!(xp_for_levels(100, 1), 11_404_976 - 10_000_000);
    assert!(xp_for_levels(10, 5) > 0);
}
