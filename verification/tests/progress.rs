use combatsim::labyrinth::Labyrinth;
use combatsim::wipe_log::WipeLog;
use combatsim::zone::Zone;

#[test]
fn dungeon_waves_roll_over_to_a_completion() {
    let mut z: Zone<()> = Zone::new("/actions/combat/chimerical_den".to_string(), 1, true, Vec::new());
    assert_eq!(z.encounters_killed, 1);
    let waves: Vec<i32> = (0..7).map(|_| z.advance_wave(3)).collect();
    assert_eq!(waves, vec![1, 2, 3, 1, 2, 3, 1]);
    assert_eq!(z.dungeons_completed, 2);
    assert_eq!(z.encounters_killed, 2);
}

#[test]
fn failing_a_wave_restarts_the_dungeon() {
    let mut z: Zone<()> = Zone::new("d".to_string(), 0, true, Vec::new());
    z.advance_wave(5);
    z.advance_wave(5);
    z.fail_wave();
    assert_eq!(z.dungeons_failed, 1);
    assert_eq!(z.encounters_killed, 1);
    assert_eq!(z.advance_wave(5), 1);
    assert_eq!(z.dungeons_completed, 0);
}

#[test]
fn bosses_come_every_cycle() {
    let mut z: Zone<()> = Zone::new("z".to_string(), 0, false, Vec::new());
    let kinds: Vec<bool> = (0..7).map(|_| z.next_encounter_is_boss(1, 3)).collect();
    assert_eq!(kinds, vec![false, false, true, false, false, true, false]);
}

#[test]
fn no_boss_without_boss_spawns() {
    let mut z: Zone<()> = Zone::new("z".to_string(), 0, false, Vec::new());
    let kinds: Vec<bool> = (0..5).map(|_| z.next_encounter_is_boss(0, 2)).collect();
    assert_eq!(kinds, vec![false; 5]);
    assert_eq!(z.encounters_killed, 6);
}

#[test]
fn random_spawn_table_for_a_wave() {
    let keys = vec![1, 5, 10];
    assert_eq!(Zone::<()>::random_spawn_key(&keys, 11), 10);
    assert_eq!(Zone::<()>::random_spawn_key(&keys, 3), 1);
    assert_eq!(Zone::<()>::random_spawn_key(&keys, 5), 1);
    assert_eq!(Zone::<()>::random_spawn_key(&keys, 7), 5);
    assert_eq!(Zone::<()>::random_spawn_key(&keys, 10), 5);
    assert_eq!(Zone::<()>::random_spawn_key(&keys, 0), 1);
    assert_eq!(Zone::<()>::random_spawn_key(&vec![5], 3), 5);
    assert_eq!(Zone::<()>::random_spawn_key(&vec![5], 6), 5);
}

#[test]
fn labyrinth_attempts_and_timeout() {
    let mut l: Labyrinth<u8> = Labyrinth::new("/monsters/boss".to_string(), 120, vec![1, 2]);
    let made = l.get_monster(|hrid, tier, room, players| format!("{}:{}:{}:{}", hrid, tier, room, players));
    assert_eq!(made, vec!["/monsters/boss:0:120:0".to_string()]);
    assert_eq!(l.attempt_count, 1);
    l.update_encounter_start_time(5_000_000_000);
    assert!(!l.check_timeout(125_000_000_000));
    assert!(l.check_timeout(125_000_000_001));
    assert_eq!(l.buffs, vec![1, 2]);
}

#[test]
fn wipe_log_keeps_the_latest_entries() {
    let mut log: WipeLog<i32> = WipeLog::new(3);
    assert!(log.ordered().is_empty());
    log.add(1);
    log.add(2);
    assert_eq!(log.ordered(), vec![&1, &2]);
    log.add(3);
    log.add(4);
    log.add(5);
    assert_eq!(log.ordered(), vec![&3, &4, &5]);
    log.reset();
    assert!(log.ordered().is_empty());
    log.add(6);
    assert_eq!(log.ordered(), vec![&6]);
}

#[test]
fn wipe_log_of_one_entry() {
    let mut log: WipeLog<&str> = WipeLog::new(1);
    log.add("a");
    log.add("b");
    assert_eq!(log.ordered(), vec![&"b"]);
}
