//! A labyrinth room: one monster fought over repeated attempts, each bounded in time.
use vstd::prelude::*;

verus! {

/// How long one labyrinth encounter may last, in nanoseconds.
pub const LABYRINTH_ENCOUNTER_LIMIT: i64 = 120_000_000_000;

/// A labyrinth room; `B` is the kind of buff its crates grant.
pub struct Labyrinth<B> {
    pub monster_hrid: String,
    pub room_level: i32,
    pub buffs: Vec<B>,
    pub attempt_count: i32,
    pub encounter_start_time: i64,
}

impl<B> Labyrinth<B> {
    /// A room with no attempts made; `buffs` are those of the crates chosen for it.
    pub fn new(monster_hrid: String, room_level: i32, buffs: Vec<B>) -> (l: Self)
        ensures
            l.monster_hrid == monster_hrid,
            l.room_level == room_level,
            l.buffs == buffs,
            l.attempt_count == 0,
            l.encounter_start_time == 0,
    {
        Labyrinth { monster_hrid, room_level, buffs, attempt_count: 0, encounter_start_time: 0 }
    }

    /// Starts a new attempt and returns its single monster, made by `build` from
    /// the monster's hrid, difficulty tier 0, the room level and no party size.
    pub fn get_monster<M, F>(&mut self, build: F) -> (r: Vec<M>) where F: FnOnce(String, i32, i32, i32) -> M
        requires
            old(self).attempt_count < i32::MAX,
            call_requires(build, (old(self).monster_hrid, 0i32, old(self).room_level, 0i32)),
        ensures
            final(self).attempt_count == old(self).attempt_count + 1,
            final(self).monster_hrid == old(self).monster_hrid,
            final(self).room_level == old(self).room_level,
            final(self).buffs == old(self).buffs,
            final(self).encounter_start_time == old(self).encounter_start_time,
            r@.len() == 1,
            call_ensures(build, (old(self).monster_hrid, 0i32, old(self).room_level, 0i32), r@[0]),
    {
        self.attempt_count = self.attempt_count + 1;
        let m = build(self.monster_hrid.clone(), 0, self.room_level, 0);
        let mut r: Vec<M> = Vec::new();
        r.push(m);
        r
    }

    pub fn update_encounter_start_time(&mut self, t: i64)
        ensures
            final(self).encounter_start_time == t,
            final(self).monster_hrid == old(self).monster_hrid,
            final(self).room_level == old(self).room_level,
            final(self).buffs == old(self).buffs,
            final(self).attempt_count == old(self).attempt_count,
    {
        self.encounter_start_time = t;
    }

    /// Whether the current encounter has run past its time limit.
    pub fn check_timeout(&self, current_time: i64) -> (r: bool)
        requires
            i64::MIN <= current_time - self.encounter_start_time <= i64::MAX,
        ensures
            r == (current_time - self.encounter_start_time > LABYRINTH_ENCOUNTER_LIMIT),
    {
        current_time - self.encounter_start_time > LABYRINTH_ENCOUNTER_LIMIT
    }
}

} // verus!
