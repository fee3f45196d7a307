//! Records kept while a simulation runs: how long each kind of unit (and each
//! dungeon wave) stays alive, how long players go without mana, and the
//! hitpoint and manapoint series of the players.
use vstd::prelude::*;
use crate::text::same_text;

verus! {

/// Time alive of one kind of unit, or of one dungeon wave.
#[derive(Clone, Debug)]
pub struct TimeSpentAliveEntry {
    pub name: String,
    pub time_spent_alive: i64,
    pub spawned_at: i64,
    pub alive: bool,
    /// How many times it has died (or the wave has been cleared).
    pub count: i32,
}

/// Out-of-mana bookkeeping of one player.
#[derive(Clone, Debug)]
pub struct ManaTimeEntry {
    pub is_out_of_mana: bool,
    pub start_time_for_out_of_mana: i64,
    pub total_time_for_out_of_mana: i64,
}

/// The hitpoint and manapoint series of one player.
#[derive(Clone, Debug)]
pub struct TimeSeriesPlayer {
    pub hp: Vec<i64>,
    pub mp: Vec<i64>,
    pub max_hp: Vec<i64>,
    pub max_mp: Vec<i64>,
}

/// Snapshots of the players over time: the times, and each player's series by hrid.
#[derive(Clone, Debug)]
pub struct TimeSeriesData {
    pub timestamps: Vec<i64>,
    pub players: Vec<(String, TimeSeriesPlayer)>,
}

/// One player's vitals at a snapshot.
#[derive(Clone, Debug)]
pub struct PlayerVitals {
    pub hrid: String,
    pub current_hitpoints: i64,
    pub current_manapoints: i64,
    pub max_hitpoints: i64,
    pub max_manapoints: i64,
}

/// Position of the first entry, from `from` on, named `name`.
pub open spec fn entry_position_from(entries: Seq<TimeSpentAliveEntry>, name: Seq<char>, from: int) -> Option<int>
    decreases entries.len() - from,
{
    if from < 0 || from >= entries.len() {
        None
    } else if entries[from].name@ == name {
        Some(from)
    } else {
        entry_position_from(entries, name, from + 1)
    }
}

pub open spec fn entry_position(entries: Seq<TimeSpentAliveEntry>, name: Seq<char>) -> Option<int> {
    entry_position_from(entries, name, 0)
}

proof fn lemma_entry_position_from(entries: Seq<TimeSpentAliveEntry>, name: Seq<char>, from: int)
    requires
        0 <= from,
    ensures
        entry_position_from(entries, name, from) matches Some(p) ==> from <= p < entries.len()
            && entries[p].name@ == name,
    decreases entries.len() - from,
{
    if from < entries.len() && entries[from].name@ != name {
        lemma_entry_position_from(entries, name, from + 1);
    }
}

fn find_entry(entries: &Vec<TimeSpentAliveEntry>, name: &str) -> (r: Option<usize>)
    ensures
        r matches Some(p) ==> entry_position(entries@, name@) == Some(p as int) && p < entries@.len(),
        r is None ==> entry_position(entries@, name@) is None,
{
    proof {
        lemma_entry_position_from(entries@, name@, 0);
    }
    let mut i: usize = 0;
    while i < entries.len()
        invariant
            i <= entries@.len(),
            entry_position(entries@, name@) == entry_position_from(entries@, name@, i as int),
        decreases entries@.len() - i,
    {
        if same_text(entries[i].name.as_str(), name) {
            return Some(i);
        }
        i += 1;
    }
    None
}

/// The entry after a spawn (`alive`) or a death at `time`: a spawn restarts the
/// clock; a death adds the time since the spawn and counts one more death.
pub open spec fn entry_after(e: TimeSpentAliveEntry, alive: bool, time: i64) -> TimeSpentAliveEntry {
    if alive {
        TimeSpentAliveEntry { alive: true, spawned_at: time, ..e }
    } else {
        TimeSpentAliveEntry {
            alive: false,
            time_spent_alive: (e.time_spent_alive + (time - e.spawned_at)) as i64,
            count: (e.count + 1) as i32,
            ..e
        }
    }
}

/// Whether recording a death at `time` in `e` stays within the machine's integers.
pub open spec fn death_fits(e: TimeSpentAliveEntry, time: i64) -> bool {
    &&& i64::MIN <= time - e.spawned_at <= i64::MAX
    &&& i64::MIN <= e.time_spent_alive + (time - e.spawned_at) <= i64::MAX
    &&& e.count < i32::MAX
}

/// Records that a unit named `name` spawned (`alive`) or died at `time`. A spawn
/// of a name not yet recorded adds an entry for it; a death of one is ignored.
/// Says `false`, recording nothing, where a death would leave the integers' ranges.
pub fn update_time_spent_alive(entries: &mut Vec<TimeSpentAliveEntry>, name: &str, alive: bool, time: i64) -> (ok: bool)
    ensures
        ok == (entry_position(old(entries)@, name@) matches Some(p) ==> (alive || death_fits(
            old(entries)@[p],
            time,
        ))),
        !ok ==> final(entries)@ == old(entries)@,
        ok ==> (entry_position(old(entries)@, name@) matches Some(p) ==> final(entries)@ == old(entries)@.update(
            p,
            entry_after(old(entries)@[p], alive, time),
        )),
        ok ==> (entry_position(old(entries)@, name@) matches Some(p) ==> {
            &&& final(entries)@.len() == old(entries)@.len()
            &&& forall|j: int| 0 <= j < old(entries)@.len() && j != p ==> final(entries)@[j] == old(entries)@[j]
            &&& final(entries)@[p].name == old(entries)@[p].name
            &&& alive ==> {
                &&& final(entries)@[p].alive
                &&& final(entries)@[p].spawned_at == time
                &&& final(entries)@[p].time_spent_alive == old(entries)@[p].time_spent_alive
                &&& final(entries)@[p].count == old(entries)@[p].count
            }
            &&& !alive ==> {
                &&& !final(entries)@[p].alive
                &&& final(entries)@[p].spawned_at == old(entries)@[p].spawned_at
                &&& final(entries)@[p].time_spent_alive == old(entries)@[p].time_spent_alive + (time
                    - old(entries)@[p].spawned_at)
                &&& final(entries)@[p].count == old(entries)@[p].count + 1
            }
        }),
        entry_position(old(entries)@, name@) is None && !alive ==> final(entries)@ == old(entries)@,
        entry_position(old(entries)@, name@) is None && alive ==> {
            &&& final(entries)@.len() == old(entries)@.len() + 1
            &&& final(entries)@.take(old(entries)@.len() as int) == old(entries)@
            &&& final(entries)@.last().name@ == name@
            &&& final(entries)@.last().time_spent_alive == 0
            &&& final(entries)@.last().spawned_at == time
            &&& final(entries)@.last().alive
            &&& final(entries)@.last().count == 0
        },
{
    match find_entry(entries, name) {
        Some(p) => {
            if !alive {
                let e = &entries[p];
                let fits = match time.checked_sub(e.spawned_at) {
                    Some(d) => e.time_spent_alive.checked_add(d).is_some() && e.count < i32::MAX,
                    None => false,
                };
                if !fits {
                    return false;
                }
            }
            let mut e = entries.remove(p);
            if alive {
                e.alive = true;
                e.spawned_at = time;
            } else {
                let time_alive = time - e.spawned_at;
                e.alive = false;
                e.time_spent_alive = e.time_spent_alive + time_alive;
                e.count = e.count + 1;
            }
            entries.insert(p, e);
            proof {
                assert(entries@ =~= old(entries)@.update(p as int, entry_after(old(entries)@[p as int], alive, time)));
            }
        },
        None => {
            if alive {
                entries.push(
                    TimeSpentAliveEntry {
                        name: name.to_owned(),
                        time_spent_alive: 0,
                        spawned_at: time,
                        alive: true,
                        count: 0,
                    },
                );
                proof {
                    assert(entries@.take(old(entries)@.len() as int) =~= old(entries)@);
                }
            }
        },
    }
    true
}

/// The shortest and longest dungeon runs after a run that began with the
/// entry `begin_flag` and finished at `finish_time`: a shortest of 0 counts as
/// none yet. Without such an entry both stay as they are.
pub open spec fn dungeon_bounds_after(
    entries: Seq<TimeSpentAliveEntry>,
    begin_flag: Seq<char>,
    finish_time: i64,
    min_time: i64,
    max_time: i64,
) -> (i64, i64) {
    match entry_position(entries, begin_flag) {
        Some(p) => {
            let run = finish_time - entries[p].spawned_at;
            (
                if min_time == 0 || min_time > run { run as i64 } else { min_time },
                if max_time < run { run as i64 } else { max_time },
            )
        },
        None => (min_time, max_time),
    }
}

/// Updates the shortest and longest dungeon run times with a run that finished at `finish_time`.
pub fn update_dungeon_finish(
    entries: &Vec<TimeSpentAliveEntry>,
    begin_flag: &str,
    finish_time: i64,
    min_time: i64,
    max_time: i64,
) -> (r: (i64, i64))
    requires
        entry_position(entries@, begin_flag@) matches Some(p) ==> i64::MIN <= finish_time
            - entries@[p].spawned_at <= i64::MAX,
    ensures
        r == dungeon_bounds_after(entries@, begin_flag@, finish_time, min_time, max_time),
{
    match find_entry(entries, begin_flag) {
        Some(p) => {
            let current_time = finish_time - entries[p].spawned_at;
            let new_min = if min_time == 0 || min_time > current_time { current_time } else { min_time };
            let new_max = if max_time < current_time { current_time } else { max_time };
            (new_min, new_max)
        },
        None => (min_time, max_time),
    }
}

/// The bookkeeping after recording at `time` whether the player is out of mana.
pub open spec fn mana_after(e: ManaTimeEntry, is_oom: bool, time: i64) -> ManaTimeEntry {
    if is_oom {
        if !e.is_out_of_mana {
            ManaTimeEntry { is_out_of_mana: true, start_time_for_out_of_mana: time, ..e }
        } else {
            e
        }
    } else if e.is_out_of_mana {
        ManaTimeEntry {
            is_out_of_mana: false,
            total_time_for_out_of_mana: (e.total_time_for_out_of_mana + (time - e.start_time_for_out_of_mana)) as i64,
            ..e
        }
    } else {
        e
    }
}

/// Whether ending a stretch without mana at `time` stays within the machine's integers.
pub open spec fn mana_record_fits(e: ManaTimeEntry, time: i64) -> bool {
    &&& i64::MIN <= time - e.start_time_for_out_of_mana <= i64::MAX
    &&& i64::MIN <= e.total_time_for_out_of_mana + (time - e.start_time_for_out_of_mana) <= i64::MAX
}

/// A unit alive from `spawn` to `death` adds `death - spawn` to its time alive
/// and one to its count of deaths.
pub proof fn lemma_spawn_then_death(e: TimeSpentAliveEntry, spawn: i64, death: i64)
    requires
        death_fits(entry_after(e, true, spawn), death),
    ensures
        entry_after(entry_after(e, true, spawn), false, death).time_spent_alive == e.time_spent_alive + (death
            - spawn),
        entry_after(entry_after(e, true, spawn), false, death).count == e.count + 1,
        !entry_after(entry_after(e, true, spawn), false, death).alive,
{
}

/// Every death counts: after one spawn, two deaths each add the time since that
/// spawn to the time alive and one to the count, the second as much as the first.
pub proof fn lemma_every_death_counts(e: TimeSpentAliveEntry, spawn: i64, first: i64, second: i64)
    requires
        death_fits(entry_after(e, true, spawn), first),
        death_fits(entry_after(entry_after(e, true, spawn), false, first), second),
    ensures
        ({
            let r = entry_after(entry_after(entry_after(e, true, spawn), false, first), false, second);
            &&& r.time_spent_alive == e.time_spent_alive + (first - spawn) + (second - spawn)
            &&& r.count == e.count + 2
            &&& r.name == e.name
            &&& !r.alive
        }),
{
}

/// A stretch out of mana from `start` to `end` adds `end - start` to the total,
/// whatever else is recorded while it lasts.
pub proof fn lemma_out_of_mana_stretch(e: ManaTimeEntry, start: i64, end: i64)
    requires
        !e.is_out_of_mana,
        mana_record_fits(mana_after(e, true, start), end),
    ensures
        mana_after(mana_after(e, true, start), false, end).total_time_for_out_of_mana
            == e.total_time_for_out_of_mana + (end - start),
        mana_after(mana_after(mana_after(e, true, start), true, end), false, end)
            == mana_after(mana_after(e, true, start), false, end),
        !mana_after(mana_after(e, true, start), false, end).is_out_of_mana,
{
}

impl ManaTimeEntry {
    pub fn new() -> (e: Self)
        ensures
            !e.is_out_of_mana,
            e.start_time_for_out_of_mana == 0,
            e.total_time_for_out_of_mana == 0,
    {
        ManaTimeEntry { is_out_of_mana: false, start_time_for_out_of_mana: 0, total_time_for_out_of_mana: 0 }
    }

    /// Records whether the player is out of mana at `time`: running out starts a
    /// stretch; getting mana back ends it and adds its length to the total.
    /// Says `false`, recording nothing, where ending the stretch would leave `i64`.
    pub fn record(&mut self, is_oom: bool, time: i64) -> (ok: bool)
        ensures
            ok == (!is_oom && old(self).is_out_of_mana ==> mana_record_fits(*old(self), time)),
            ok ==> *final(self) == mana_after(*old(self), is_oom, time),
            !ok ==> *final(self) == *old(self),
    {
        if is_oom {
            if !self.is_out_of_mana {
                self.is_out_of_mana = true;
                self.start_time_for_out_of_mana = time;
            }
        } else {
            if self.is_out_of_mana {
                let stretch = match time.checked_sub(self.start_time_for_out_of_mana) {
                    Some(d) => d,
                    None => return false,
                };
                let total = match self.total_time_for_out_of_mana.checked_add(stretch) {
                    Some(t) => t,
                    None => return false,
                };
                self.is_out_of_mana = false;
                self.total_time_for_out_of_mana = total;
            }
        }
        true
    }
}

/// A player's series as plain values: hrid, hitpoints, manapoints, and their maxima.
pub open spec fn series_view(p: (String, TimeSeriesPlayer)) -> (Seq<char>, Seq<i64>, Seq<i64>, Seq<i64>, Seq<i64>) {
    (p.0@, p.1.hp@, p.1.mp@, p.1.max_hp@, p.1.max_mp@)
}

/// A player's vitals as plain values.
pub open spec fn vitals_view(v: PlayerVitals) -> (Seq<char>, i64, i64, i64, i64) {
    (v.hrid@, v.current_hitpoints, v.current_manapoints, v.max_hitpoints, v.max_manapoints)
}

/// Position of the first series, from `from` on, of the player `hrid`.
pub open spec fn series_position_from(
    players: Seq<(Seq<char>, Seq<i64>, Seq<i64>, Seq<i64>, Seq<i64>)>,
    hrid: Seq<char>,
    from: int,
) -> Option<int>
    decreases players.len() - from,
{
    if from < 0 || from >= players.len() {
        None
    } else if players[from].0 == hrid {
        Some(from)
    } else {
        series_position_from(players, hrid, from + 1)
    }
}

/// The series after one player's vitals are appended; a player without a
/// series gets a new one.
pub open spec fn record_vitals(
    players: Seq<(Seq<char>, Seq<i64>, Seq<i64>, Seq<i64>, Seq<i64>)>,
    v: (Seq<char>, i64, i64, i64, i64),
) -> Seq<(Seq<char>, Seq<i64>, Seq<i64>, Seq<i64>, Seq<i64>)> {
    match series_position_from(players, v.0, 0) {
        Some(p) => players.update(
            p,
            (players[p].0, players[p].1.push(v.1), players[p].2.push(v.2), players[p].3.push(v.3), players[p].4.push(v.4)),
        ),
        None => players.push((v.0, seq![v.1], seq![v.2], seq![v.3], seq![v.4])),
    }
}

/// The series after the vitals of each of `vitals` are appended in turn.
pub open spec fn record_all_vitals(
    players: Seq<(Seq<char>, Seq<i64>, Seq<i64>, Seq<i64>, Seq<i64>)>,
    vitals: Seq<(Seq<char>, i64, i64, i64, i64)>,
) -> Seq<(Seq<char>, Seq<i64>, Seq<i64>, Seq<i64>, Seq<i64>)>
    decreases vitals.len(),
{
    if vitals.len() == 0 {
        players
    } else {
        record_vitals(record_all_vitals(players, vitals.drop_last()), vitals.last())
    }
}

/// The hitpoint, manapoint, maximum-hitpoint and maximum-manapoint series of the
/// player `hrid`; empty for a player without a series.
pub open spec fn series_of(
    players: Seq<(Seq<char>, Seq<i64>, Seq<i64>, Seq<i64>, Seq<i64>)>,
    hrid: Seq<char>,
) -> (Seq<i64>, Seq<i64>, Seq<i64>, Seq<i64>) {
    match series_position_from(players, hrid, 0) {
        Some(p) => (players[p].1, players[p].2, players[p].3, players[p].4),
        None => (Seq::empty(), Seq::empty(), Seq::empty(), Seq::empty()),
    }
}

/// The values that the snapshots of `vitals` give the player `hrid`, in order:
/// its hitpoints, manapoints, maximum hitpoints and maximum manapoints.
pub open spec fn snapshot_values(vitals: Seq<PlayerVitals>, hrid: Seq<char>) -> (Seq<i64>, Seq<i64>, Seq<i64>, Seq<i64>)
    decreases vitals.len(),
{
    if vitals.len() == 0 {
        (Seq::empty(), Seq::empty(), Seq::empty(), Seq::empty())
    } else {
        let r = snapshot_values(vitals.drop_last(), hrid);
        let v = vitals.last();
        if v.hrid@ == hrid {
            (r.0.push(v.current_hitpoints), r.1.push(v.current_manapoints), r.2.push(v.max_hitpoints), r.3.push(
                v.max_manapoints,
            ))
        } else {
            r
        }
    }
}

proof fn lemma_position_same_names(
    a: Seq<(Seq<char>, Seq<i64>, Seq<i64>, Seq<i64>, Seq<i64>)>,
    b: Seq<(Seq<char>, Seq<i64>, Seq<i64>, Seq<i64>, Seq<i64>)>,
    hrid: Seq<char>,
    from: int,
)
    requires
        a.len() == b.len(),
        forall|j: int| 0 <= j < a.len() ==> #[trigger] a[j].0 == b[j].0,
    ensures
        series_position_from(a, hrid, from) == series_position_from(b, hrid, from),
    decreases a.len() - from,
{
    if 0 <= from < a.len() {
        lemma_position_same_names(a, b, hrid, from + 1);
    }
}

proof fn lemma_position_push(
    s: Seq<(Seq<char>, Seq<i64>, Seq<i64>, Seq<i64>, Seq<i64>)>,
    x: (Seq<char>, Seq<i64>, Seq<i64>, Seq<i64>, Seq<i64>),
    hrid: Seq<char>,
    from: int,
)
    requires
        0 <= from <= s.len(),
    ensures
        series_position_from(s.push(x), hrid, from) == (match series_position_from(s, hrid, from) {
            Some(p) => Some(p),
            None => if x.0 == hrid { Some(s.len() as int) } else { None },
        }),
    decreases s.len() - from,
{
    if from < s.len() {
        assert(s.push(x)[from] == s[from]);
        lemma_position_push(s, x, hrid, from + 1);
    } else {
        assert(s.push(x)[from] == x);
        assert(series_position_from(s.push(x), hrid, from + 1) is None);
        assert(series_position_from(s, hrid, from) is None);
    }
}

/// A snapshot of one player appends its hitpoints, manapoints and their maxima,
/// each from its own field, to that player's series, and leaves every other
/// player's series as it was.
pub proof fn lemma_record_appends_vitals(
    players: Seq<(Seq<char>, Seq<i64>, Seq<i64>, Seq<i64>, Seq<i64>)>,
    v: PlayerVitals,
)
    ensures
        ({
            let old = series_of(players, v.hrid@);
            series_of(record_vitals(players, vitals_view(v)), v.hrid@) == (
                old.0.push(v.current_hitpoints),
                old.1.push(v.current_manapoints),
                old.2.push(v.max_hitpoints),
                old.3.push(v.max_manapoints),
            )
        }),
        forall|h: Seq<char>|
            h != v.hrid@ ==> #[trigger] series_of(record_vitals(players, vitals_view(v)), h) == series_of(players, h),
{
    let r = record_vitals(players, vitals_view(v));
    lemma_series_position_from(players, v.hrid@, 0);
    match series_position_from(players, v.hrid@, 0) {
        Some(p) => {
            assert forall|h: Seq<char>| series_position_from(r, h, 0) == series_position_from(players, h, 0) by {
                assert forall|j: int| 0 <= j < r.len() implies #[trigger] r[j].0 == players[j].0 by {}
                lemma_position_same_names(r, players, h, 0);
            }
            assert forall|h: Seq<char>| h != v.hrid@ implies #[trigger] series_of(r, h) == series_of(players, h) by {
                lemma_series_position_from(players, h, 0);
                if let Some(q) = series_position_from(players, h, 0) {
                    assert(q != p);
                    assert(r[q] == players[q]);
                }
            }
        },
        None => {
            let x = (v.hrid@, seq![v.current_hitpoints], seq![v.current_manapoints], seq![v.max_hitpoints], seq![v.max_manapoints]);
            assert(r == players.push(x));
            lemma_position_push(players, x, v.hrid@, 0);
            assert(Seq::<i64>::empty().push(v.current_hitpoints) =~= seq![v.current_hitpoints]);
            assert(Seq::<i64>::empty().push(v.current_manapoints) =~= seq![v.current_manapoints]);
            assert(Seq::<i64>::empty().push(v.max_hitpoints) =~= seq![v.max_hitpoints]);
            assert(Seq::<i64>::empty().push(v.max_manapoints) =~= seq![v.max_manapoints]);
            assert forall|h: Seq<char>| h != v.hrid@ implies #[trigger] series_of(r, h) == series_of(players, h) by {
                lemma_position_push(players, x, h, 0);
                lemma_series_position_from(players, h, 0);
                if let Some(q) = series_position_from(players, h, 0) {
                    assert(r[q] == players[q]);
                }
            }
        },
    }
}

/// Snapshots append to each player's series exactly the values its own vitals
/// give, in the order of the snapshots: hitpoints to the hitpoint series,
/// maximum hitpoints to the maximum-hitpoint series, and so on.
pub proof fn lemma_snapshots_append_vitals(
    players: Seq<(Seq<char>, Seq<i64>, Seq<i64>, Seq<i64>, Seq<i64>)>,
    vitals: Seq<PlayerVitals>,
    hrid: Seq<char>,
)
    ensures
        ({
            let old = series_of(players, hrid);
            let add = snapshot_values(vitals, hrid);
            series_of(record_all_vitals(players, vitals.map_values(|v: PlayerVitals| vitals_view(v))), hrid) == (
                old.0 + add.0,
                old.1 + add.1,
                old.2 + add.2,
                old.3 + add.3,
            )
        }),
    decreases vitals.len(),
{
    let old = series_of(players, hrid);
    if vitals.len() == 0 {
        assert(old.0 + Seq::<i64>::empty() =~= old.0);
        assert(old.1 + Seq::<i64>::empty() =~= old.1);
        assert(old.2 + Seq::<i64>::empty() =~= old.2);
        assert(old.3 + Seq::<i64>::empty() =~= old.3);
        assert(vitals.map_values(|v: PlayerVitals| vitals_view(v)) =~= Seq::<(Seq<char>, i64, i64, i64, i64)>::empty());
    } else {
        let init = vitals.drop_last();
        let last = vitals.last();
        lemma_snapshots_append_vitals(players, init, hrid);
        let m = vitals.map_values(|v: PlayerVitals| vitals_view(v));
        assert(m.drop_last() =~= init.map_values(|v: PlayerVitals| vitals_view(v)));
        assert(m.last() == vitals_view(last));
        let before = record_all_vitals(players, init.map_values(|v: PlayerVitals| vitals_view(v)));
        assert(record_all_vitals(players, m) == record_vitals(before, vitals_view(last)));
        lemma_record_appends_vitals(before, last);
        if last.hrid@ == hrid {
            let a = snapshot_values(init, hrid);
            assert((old.0 + a.0).push(last.current_hitpoints) =~= old.0 + a.0.push(last.current_hitpoints));
            assert((old.1 + a.1).push(last.current_manapoints) =~= old.1 + a.1.push(last.current_manapoints));
            assert((old.2 + a.2).push(last.max_hitpoints) =~= old.2 + a.2.push(last.max_hitpoints));
            assert((old.3 + a.3).push(last.max_manapoints) =~= old.3 + a.3.push(last.max_manapoints));
        }
    }
}

proof fn lemma_series_position_from(
    players: Seq<(Seq<char>, Seq<i64>, Seq<i64>, Seq<i64>, Seq<i64>)>,
    hrid: Seq<char>,
    from: int,
)
    requires
        0 <= from,
    ensures
        series_position_from(players, hrid, from) matches Some(p) ==> from <= p < players.len()
            && players[p].0 == hrid,
    decreases players.len() - from,
{
    if from < players.len() && players[from].0 != hrid {
        lemma_series_position_from(players, hrid, from + 1);
    }
}

impl TimeSeriesData {
    pub fn new() -> (d: Self)
        ensures
            d.timestamps@ == Seq::<i64>::empty(),
            d.players@ == Seq::<(String, TimeSeriesPlayer)>::empty(),
    {
        TimeSeriesData { timestamps: Vec::new(), players: Vec::new() }
    }

    pub open spec fn players_view(&self) -> Seq<(Seq<char>, Seq<i64>, Seq<i64>, Seq<i64>, Seq<i64>)> {
        self.players@.map_values(|p: (String, TimeSeriesPlayer)| series_view(p))
    }

    fn record(&mut self, v: &PlayerVitals)
        ensures
            final(self).timestamps == old(self).timestamps,
            final(self).players_view() == record_vitals(old(self).players_view(), vitals_view(*v)),
    {
        let ghost before = self.players_view();
        proof {
            lemma_series_position_from(before, v.hrid@, 0);
        }
        let mut i: usize = 0;
        while i < self.players.len()
            invariant
                i <= self.players@.len(),
                before == self.players_view(),
                before == old(self).players_view(),
                self.timestamps == old(self).timestamps,
                series_position_from(before, v.hrid@, 0) == series_position_from(before, v.hrid@, i as int),
            decreases self.players@.len() - i,
        {
            if same_text(self.players[i].0.as_str(), v.hrid.as_str()) {
                let (name, mut series) = self.players.remove(i);
                series.hp.push(v.current_hitpoints);
                series.mp.push(v.current_manapoints);
                series.max_hp.push(v.max_hitpoints);
                series.max_mp.push(v.max_manapoints);
                self.players.insert(i, (name, series));
                proof {
                    assert(self.players_view() =~= record_vitals(before, vitals_view(*v)));
                }
                return;
            }
            i += 1;
        }
        let mut hp: Vec<i64> = Vec::new();
        hp.push(v.current_hitpoints);
        let mut mp: Vec<i64> = Vec::new();
        mp.push(v.current_manapoints);
        let mut max_hp: Vec<i64> = Vec::new();
        max_hp.push(v.max_hitpoints);
        let mut max_mp: Vec<i64> = Vec::new();
        max_mp.push(v.max_manapoints);
        self.players.push((v.hrid.clone(), TimeSeriesPlayer { hp, mp, max_hp, max_mp }));
        proof {
            assert(hp@ =~= seq![v.current_hitpoints]);
            assert(mp@ =~= seq![v.current_manapoints]);
            assert(max_hp@ =~= seq![v.max_hitpoints]);
            assert(max_mp@ =~= seq![v.max_manapoints]);
            assert(self.players_view() =~= record_vitals(before, vitals_view(*v)));
        }
    }

    /// Records a snapshot at `time` of the given players' vitals.
    pub fn add_snapshot(&mut self, time: i64, vitals: &Vec<PlayerVitals>)
        ensures
            final(self).timestamps@ == old(self).timestamps@.push(time),
            final(self).players_view() == record_all_vitals(
                old(self).players_view(),
                vitals@.map_values(|v: PlayerVitals| vitals_view(v)),
            ),
            forall|h: Seq<char>|
                #[trigger] series_of(final(self).players_view(), h) == ({
                    let old = series_of(old(self).players_view(), h);
                    let add = snapshot_values(vitals@, h);
                    (old.0 + add.0, old.1 + add.1, old.2 + add.2, old.3 + add.3)
                }),
    {
        self.timestamps.push(time);
        let ghost start = self.players_view();
        let ghost vs = vitals@.map_values(|v: PlayerVitals| vitals_view(v));
        let mut i: usize = 0;
        while i < vitals.len()
            invariant
                i <= vitals@.len(),
                vs == vitals@.map_values(|v: PlayerVitals| vitals_view(v)),
                self.timestamps@ == old(self).timestamps@.push(time),
                start == old(self).players_view(),
                self.players_view() == record_all_vitals(start, vs.take(i as int)),
            decreases vitals@.len() - i,
        {
            self.record(&vitals[i]);
            assert(vs.take(i as int + 1).drop_last() =~= vs.take(i as int));
            i += 1;
        }
        assert(vs.take(i as int) =~= vs);
        proof {
            assert forall|h: Seq<char>| #[trigger] series_of(self.players_view(), h) == ({
                let old = series_of(start, h);
                let add = snapshot_values(vitals@, h);
                (old.0 + add.0, old.1 + add.1, old.2 + add.2, old.3 + add.3)
            }) by {
                lemma_snapshots_append_vitals(start, vitals@, h);
            }
        }
    }
}

/// `e` merged into `merged` (results of several runs): an entry of the same name
/// gets the time alive and the count of `e` added, and its latest state; a new
/// name is appended.
pub open spec fn merge_entry(merged: Seq<TimeSpentAliveEntry>, e: TimeSpentAliveEntry) -> Seq<TimeSpentAliveEntry> {
    match entry_position(merged, e.name@) {
        Some(p) => merged.update(
            p,
            TimeSpentAliveEntry {
                time_spent_alive: (merged[p].time_spent_alive + e.time_spent_alive) as i64,
                count: (merged[p].count + e.count) as i32,
                alive: e.alive,
                spawned_at: e.spawned_at,
                ..merged[p]
            },
        ),
        None => merged.push(e),
    }
}

/// Whether merging `e` into `merged` stays within the machine's integers.
pub open spec fn merge_entry_fits(merged: Seq<TimeSpentAliveEntry>, e: TimeSpentAliveEntry) -> bool {
    match entry_position(merged, e.name@) {
        Some(p) => i64::MIN <= merged[p].time_spent_alive + e.time_spent_alive <= i64::MAX && i32::MIN
            <= merged[p].count + e.count <= i32::MAX,
        None => true,
    }
}

/// `entries` merged in turn into `merged`.
pub open spec fn merge_all(merged: Seq<TimeSpentAliveEntry>, entries: Seq<TimeSpentAliveEntry>) -> Seq<TimeSpentAliveEntry>
    decreases entries.len(),
{
    if entries.len() == 0 {
        merged
    } else {
        merge_entry(merge_all(merged, entries.drop_last()), entries.last())
    }
}

/// Whether merging each of `entries` in turn stays within the machine's integers.
pub open spec fn merge_all_fits(merged: Seq<TimeSpentAliveEntry>, entries: Seq<TimeSpentAliveEntry>) -> bool
    decreases entries.len(),
{
    if entries.len() == 0 {
        true
    } else {
        merge_all_fits(merged, entries.drop_last()) && merge_entry_fits(
            merge_all(merged, entries.drop_last()),
            entries.last(),
        )
    }
}

proof fn lemma_merge_fits_prefix(merged: Seq<TimeSpentAliveEntry>, entries: Seq<TimeSpentAliveEntry>, i: int)
    requires
        0 <= i < entries.len(),
        merge_all_fits(merged, entries),
    ensures
        merge_all_fits(merged, entries.take(i + 1)),
    decreases entries.len(),
{
    if i + 1 < entries.len() {
        assert(entries.drop_last().take(i + 1) =~= entries.take(i + 1));
        lemma_merge_fits_prefix(merged, entries.drop_last(), i);
    } else {
        assert(entries.take(i + 1) =~= entries);
    }
}

impl TimeSpentAliveEntry {
    pub fn copy(&self) -> (r: Self)
        ensures
            r == *self,
    {
        TimeSpentAliveEntry {
            name: self.name.clone(),
            time_spent_alive: self.time_spent_alive,
            spawned_at: self.spawned_at,
            alive: self.alive,
            count: self.count,
        }
    }
}

/// Merges the time-alive entries of one run into those merged so far; says
/// `false`, leaving part of them merged, where a sum would leave its type.
pub fn merge_time_spent_alive(merged: &mut Vec<TimeSpentAliveEntry>, entries: &Vec<TimeSpentAliveEntry>) -> (ok: bool)
    ensures
        ok == merge_all_fits(old(merged)@, entries@),
        ok ==> final(merged)@ == merge_all(old(merged)@, entries@),
{
    let ghost orig = merged@;
    let mut i: usize = 0;
    assert(entries@.take(0) =~= Seq::<TimeSpentAliveEntry>::empty());
    while i < entries.len()
        invariant
            i <= entries@.len(),
            orig == old(merged)@,
            merge_all_fits(orig, entries@.take(i as int)),
            merged@ == merge_all(orig, entries@.take(i as int)),
        decreases entries@.len() - i,
    {
        let e = &entries[i];
        proof {
            assert(entries@.take(i as int + 1).drop_last() =~= entries@.take(i as int));
            assert(entries@.take(i as int + 1).last() == entries@[i as int]);
        }
        match find_entry(merged, e.name.as_str()) {
            Some(p) => {
                let m0 = &merged[p];
                let fits = m0.time_spent_alive.checked_add(e.time_spent_alive).is_some()
                    && m0.count.checked_add(e.count).is_some();
                if !fits {
                    proof {
                        if merge_all_fits(orig, entries@) {
                            lemma_merge_fits_prefix(orig, entries@, i as int);
                        }
                    }
                    return false;
                }
                let mut m = merged.remove(p);
                m.time_spent_alive = m.time_spent_alive + e.time_spent_alive;
                m.count = m.count + e.count;
                m.alive = e.alive;
                m.spawned_at = e.spawned_at;
                merged.insert(p, m);
                proof {
                    let prev = merge_all(orig, entries@.take(i as int));
                    assert(merged@ =~= merge_entry(prev, *e));
                }
            },
            None => {
                merged.push(e.copy());
            },
        }
        i += 1;
    }
    proof {
        assert(entries@.take(i as int) =~= entries@);
    }
    true
}

impl ManaTimeEntry {
    /// Merges another run's out-of-mana bookkeeping into this one: the times add
    /// up, and the player is out of mana if out in either.
    /// Says `false`, merging nothing, where the total would leave `i64`.
    pub fn merge(&mut self, other: &ManaTimeEntry) -> (ok: bool)
        ensures
            ok == (i64::MIN <= old(self).total_time_for_out_of_mana + other.total_time_for_out_of_mana
                <= i64::MAX),
            !ok ==> *final(self) == *old(self),
            ok ==> final(self).total_time_for_out_of_mana == old(self).total_time_for_out_of_mana
                + other.total_time_for_out_of_mana,
            ok ==> final(self).is_out_of_mana == (old(self).is_out_of_mana || other.is_out_of_mana),
            final(self).start_time_for_out_of_mana == old(self).start_time_for_out_of_mana,
    {
        let total = match self.total_time_for_out_of_mana.checked_add(other.total_time_for_out_of_mana) {
            Some(t) => t,
            None => return false,
        };
        self.total_time_for_out_of_mana = total;
        self.is_out_of_mana = self.is_out_of_mana || other.is_out_of_mana;
        true
    }
}

} // verus!
