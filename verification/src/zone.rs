//! Progress through a combat zone: the count of encounters that decides when a
//! boss spawns, and the waves, completions and failures of a dungeon.
use vstd::prelude::*;

verus! {

/// The spawn table chosen for a wave, given the wave numbers that begin a
/// table (`keys`): past the last key the last table; otherwise the first key
/// `keys[j]` with `keys[j] <= wave <= keys[j + 1]`; failing that, the first key.
pub open spec fn spawn_key_for_wave(keys: Seq<i32>, wave: i32) -> i32 {
    if wave > keys.last() {
        keys.last()
    } else {
        window_key_from(keys, wave, 0)
    }
}

/// The first key `keys[j]`, `j >= from`, with `keys[j] <= wave <= keys[j + 1]`, else `keys[0]`.
pub open spec fn window_key_from(keys: Seq<i32>, wave: i32, from: int) -> i32
    decreases keys.len() - from,
{
    if from < 0 || from + 1 >= keys.len() {
        keys[0]
    } else if keys[from] <= wave && wave <= keys[from + 1] {
        keys[from]
    } else {
        window_key_from(keys, wave, from + 1)
    }
}

/// The wave a dungeon spawns next: the wave counter, or wave 1 once the counter
/// has passed the last wave.
pub open spec fn wave_to_spawn(encounters_killed: int, max_waves: int) -> int {
    if encounters_killed > max_waves {
        1
    } else {
        encounters_killed
    }
}

/// A dungeon whose wave counter starts within its waves keeps it there: every
/// wave spawned is one of waves `1..=max_waves`, and the counter after it stays
/// within `1..=max_waves + 1`.
pub proof fn lemma_waves_stay_in_range(encounters_killed: int, max_waves: int)
    requires
        max_waves >= 1,
        1 <= encounters_killed <= max_waves + 1,
    ensures
        1 <= wave_to_spawn(encounters_killed, max_waves) <= max_waves,
        1 <= wave_to_spawn(encounters_killed, max_waves) + 1 <= max_waves + 1,
{
}

/// Whether the next encounter of a plain zone is a boss encounter.
pub open spec fn boss_due(encounters_killed: int, boss_count: int, battles_per_boss: int) -> bool {
    boss_count > 0 && encounters_killed == battles_per_boss
}

/// The boss-cycle counter after the next encounter.
pub open spec fn cycle_after(encounters_killed: int, boss_count: int, battles_per_boss: int) -> int {
    if boss_due(encounters_killed, boss_count, battles_per_boss) {
        1
    } else {
        encounters_killed + 1
    }
}

/// In a zone with bosses, the counter never leaves `1..=battles_per_boss`, and
/// from a count of `c` the boss comes after `battles_per_boss - c` other encounters.
pub proof fn lemma_boss_cycle(c: int, boss_count: int, battles_per_boss: int)
    requires
        boss_count > 0,
        1 <= c <= battles_per_boss,
    ensures
        1 <= cycle_after(c, boss_count, battles_per_boss) <= battles_per_boss,
        boss_due(c, boss_count, battles_per_boss) <==> c == battles_per_boss,
        !boss_due(c, boss_count, battles_per_boss) ==> battles_per_boss - cycle_after(c, boss_count, battles_per_boss)
            == battles_per_boss - c - 1,
{
}

/// A combat zone; `B` is the kind of buff it grants to players.
pub struct Zone<B> {
    pub hrid: String,
    pub difficulty_tier: i32,
    /// In a plain zone, the position of the next encounter in the boss cycle;
    /// in a dungeon, the number of the next wave.
    pub encounters_killed: i32,
    pub buffs: Vec<B>,
    pub is_dungeon: bool,
    pub dungeons_completed: i32,
    pub dungeons_failed: i32,
    pub final_wave: bool,
}

impl<B> Zone<B> {
    /// A zone before its first encounter.
    pub fn new(hrid: String, difficulty_tier: i32, is_dungeon: bool, buffs: Vec<B>) -> (z: Self)
        ensures
            z.hrid == hrid,
            z.difficulty_tier == difficulty_tier,
            z.is_dungeon == is_dungeon,
            z.buffs == buffs,
            z.encounters_killed == 1,
            z.dungeons_completed == 0,
            z.dungeons_failed == 0,
            !z.final_wave,
    {
        Zone {
            hrid,
            difficulty_tier,
            encounters_killed: 1,
            buffs,
            is_dungeon,
            dungeons_completed: 0,
            dungeons_failed: 0,
            final_wave: false,
        }
    }

    /// Decides the next encounter of a plain zone: a boss encounter when the zone
    /// has bosses (`boss_count > 0`) and the cycle has reached `battles_per_boss`,
    /// which restarts the cycle; otherwise a random one, which advances it.
    pub fn next_encounter_is_boss(&mut self, boss_count: usize, battles_per_boss: i32) -> (boss: bool)
        requires
            old(self).encounters_killed < i32::MAX,
        ensures
            boss == boss_due(old(self).encounters_killed as int, boss_count as int, battles_per_boss as int),
            final(self).encounters_killed == cycle_after(
                old(self).encounters_killed as int,
                boss_count as int,
                battles_per_boss as int,
            ),
            final(self).dungeons_completed == old(self).dungeons_completed,
            final(self).dungeons_failed == old(self).dungeons_failed,
            final(self).hrid == old(self).hrid,
            final(self).difficulty_tier == old(self).difficulty_tier,
            final(self).buffs == old(self).buffs,
            final(self).is_dungeon == old(self).is_dungeon,
            final(self).final_wave == old(self).final_wave,
    {
        if boss_count > 0 && self.encounters_killed == battles_per_boss {
            self.encounters_killed = 1;
            true
        } else {
            self.encounters_killed = self.encounters_killed + 1;
            false
        }
    }

    /// Starts the next dungeon wave and returns its number. Past the last wave
    /// (`max_waves`) the dungeon counts as completed and starts over at wave 1.
    pub fn advance_wave(&mut self, max_waves: i32) -> (wave: i32)
        requires
            old(self).encounters_killed < i32::MAX,
            old(self).encounters_killed > max_waves ==> old(self).dungeons_completed < i32::MAX,
        ensures
            wave == wave_to_spawn(old(self).encounters_killed as int, max_waves as int),
            final(self).encounters_killed == wave + 1,
            final(self).dungeons_completed == old(self).dungeons_completed + (if old(self).encounters_killed
                > max_waves { 1int } else { 0int }),
            final(self).dungeons_failed == old(self).dungeons_failed,
            final(self).hrid == old(self).hrid,
            final(self).difficulty_tier == old(self).difficulty_tier,
            final(self).buffs == old(self).buffs,
            final(self).is_dungeon == old(self).is_dungeon,
            final(self).final_wave == old(self).final_wave,
    {
        if self.encounters_killed > max_waves {
            self.dungeons_completed = self.dungeons_completed + 1;
            self.encounters_killed = 1;
        }
        let wave = self.encounters_killed;
        self.encounters_killed = self.encounters_killed + 1;
        wave
    }

    /// The party wiped: the attempt counts as failed and the dungeon restarts at wave 1.
    pub fn fail_wave(&mut self)
        requires
            old(self).dungeons_failed < i32::MAX,
        ensures
            final(self).dungeons_failed == old(self).dungeons_failed + 1,
            final(self).encounters_killed == 1,
            final(self).dungeons_completed == old(self).dungeons_completed,
            final(self).hrid == old(self).hrid,
            final(self).difficulty_tier == old(self).difficulty_tier,
            final(self).buffs == old(self).buffs,
            final(self).is_dungeon == old(self).is_dungeon,
            final(self).final_wave == old(self).final_wave,
    {
        self.dungeons_failed = self.dungeons_failed + 1;
        self.encounters_killed = 1;
    }

    /// The key of the random spawn table for `wave`, among the wave numbers
    /// that begin a table.
    pub fn random_spawn_key(wave_keys: &Vec<i32>, wave: i32) -> (key: i32)
        requires
            wave_keys@.len() > 0,
        ensures
            key == spawn_key_for_wave(wave_keys@, wave),
    {
        let n = wave_keys.len();
        assert(wave_keys@.last() == wave_keys@[n - 1]);
        if wave > wave_keys[n - 1] {
            return wave_keys[n - 1];
        }
        let mut j: usize = 0;
        while j + 1 < n
            invariant
                n == wave_keys@.len(),
                j < n,
                !(wave > wave_keys@.last()),
                window_key_from(wave_keys@, wave, 0) == window_key_from(wave_keys@, wave, j as int),
            decreases n - j,
        {
            if wave_keys[j] <= wave && wave <= wave_keys[j + 1] {
                assert(window_key_from(wave_keys@, wave, j as int) == wave_keys@[j as int]);
                return wave_keys[j];
            }
            j += 1;
        }
        assert(wave_keys@.last() == wave_keys@[n - 1]);
        wave_keys[0]
    }
}

} // verus!
