//! Merging the results of several runs of a simulation: the counters are
//! summed, the highest wave and enrage stack kept, the finish and dungeon times
//! averaged, per-key counts summed and per-key flags joined.
use vstd::prelude::*;
use crate::combat_utilities::trunc_div;
use crate::text::same_text;
use vstd::arithmetic::div_mod::lemma_div_multiples_vanish;

verus! {

/// The integer results of one run.
#[derive(Clone, Copy, Debug)]
pub struct RunCounters {
    pub encounters: i32,
    pub dungeons_completed: i32,
    pub dungeons_failed: i32,
    pub laby_attempt_count: i32,
    pub simulated_time: i64,
    pub last_encounter_finish_time: i64,
    pub last_dungeon_finish_time: i64,
    pub min_dungeon_time: i64,
    pub max_dungeon_time: i64,
    pub max_wave_reached: i32,
    pub max_enrage_stack: i32,
}

/// The counter numbered `f`, in the order of the fields.
pub open spec fn field_value(r: RunCounters, f: int) -> int {
    if f == 0 {
        r.encounters as int
    } else if f == 1 {
        r.dungeons_completed as int
    } else if f == 2 {
        r.dungeons_failed as int
    } else if f == 3 {
        r.laby_attempt_count as int
    } else if f == 4 {
        r.simulated_time as int
    } else if f == 5 {
        r.last_encounter_finish_time as int
    } else if f == 6 {
        r.last_dungeon_finish_time as int
    } else if f == 7 {
        r.min_dungeon_time as int
    } else if f == 8 {
        r.max_dungeon_time as int
    } else if f == 9 {
        r.max_wave_reached as int
    } else {
        r.max_enrage_stack as int
    }
}

/// The sum over the runs of counter `f`.
pub open spec fn total(runs: Seq<RunCounters>, f: int) -> int
    decreases runs.len(),
{
    if runs.len() == 0 {
        0
    } else {
        total(runs.drop_last(), f) + field_value(runs.last(), f)
    }
}

/// The largest value over the runs of counter `f`, and at least 0.
pub open spec fn max_of(runs: Seq<RunCounters>, f: int) -> int
    decreases runs.len(),
{
    if runs.len() == 0 {
        0
    } else {
        let m = max_of(runs.drop_last(), f);
        if field_value(runs.last(), f) > m {
            field_value(runs.last(), f)
        } else {
            m
        }
    }
}

/// Whether `v` fits the type of counter `f`.
pub open spec fn field_fits(f: int, v: int) -> bool {
    if f <= 3 {
        i32::MIN <= v <= i32::MAX
    } else {
        i64::MIN <= v <= i64::MAX
    }
}

/// Whether summing the runs one by one keeps every summed counter within its type.
pub open spec fn counters_fit(runs: Seq<RunCounters>) -> bool {
    forall|f: int, k: int|
        0 <= f < 9 && 0 <= k <= runs.len() ==> field_fits(f, #[trigger] total(runs.take(k), f))
}

/// The merged results: counts and the simulated time summed; the finish and
/// dungeon times summed and divided by the number of runs, rounded toward zero;
/// the highest wave and enrage stack the largest of any run.
pub open spec fn merged_counters(runs: Seq<RunCounters>) -> RunCounters {
    let n = runs.len() as int;
    RunCounters {
        encounters: total(runs, 0) as i32,
        dungeons_completed: total(runs, 1) as i32,
        dungeons_failed: total(runs, 2) as i32,
        laby_attempt_count: total(runs, 3) as i32,
        simulated_time: total(runs, 4) as i64,
        last_encounter_finish_time: trunc_div(total(runs, 5), n) as i64,
        last_dungeon_finish_time: trunc_div(total(runs, 6), n) as i64,
        min_dungeon_time: trunc_div(total(runs, 7), n) as i64,
        max_dungeon_time: trunc_div(total(runs, 8), n) as i64,
        max_wave_reached: max_of(runs, 9) as i32,
        max_enrage_stack: max_of(runs, 10) as i32,
    }
}

/// The sums after one more run.
proof fn lemma_total_step(runs: Seq<RunCounters>, i: int, f: int)
    requires
        0 <= i < runs.len(),
    ensures
        total(runs.take(i + 1), f) == total(runs.take(i), f) + field_value(runs[i], f),
        max_of(runs.take(i + 1), f) == (if field_value(runs[i], f) > max_of(runs.take(i), f) {
            field_value(runs[i], f)
        } else {
            max_of(runs.take(i), f)
        }),
{
    assert(runs.take(i + 1).drop_last() =~= runs.take(i));
    assert(runs.take(i + 1).last() == runs[i]);
}

/// A sum that would leave its type.
proof fn lemma_not_fit(runs: Seq<RunCounters>, i: int, f: int)
    requires
        0 <= i < runs.len(),
        0 <= f < 9,
        !field_fits(f, total(runs.take(i + 1), f)),
    ensures
        !counters_fit(runs),
{
}

/// The sum over runs that all have the value `t` for counter `f` is `t` times
/// their number.
proof fn lemma_total_of_equal_runs(runs: Seq<RunCounters>, f: int, t: int)
    requires
        forall|i: int| 0 <= i < runs.len() ==> field_value(#[trigger] runs[i], f) == t,
    ensures
        total(runs, f) == runs.len() * t,
    decreases runs.len(),
{
    if runs.len() > 0 {
        let init = runs.drop_last();
        assert forall|i: int| 0 <= i < init.len() implies field_value(#[trigger] init[i], f) == t by {
            assert(init[i] == runs[i]);
        }
        lemma_total_of_equal_runs(init, f, t);
        assert(runs.last() == runs[runs.len() - 1]);
        assert((runs.len() - 1) * t + t == runs.len() * t) by (nonlinear_arith);
    }
}

/// Runs that agree on an averaged time merge to that time: the average of `n`
/// equal values is the value, whatever its sign.
pub proof fn lemma_average_of_equal_runs(runs: Seq<RunCounters>, f: int, t: int)
    requires
        runs.len() > 0,
        5 <= f < 9,
        forall|i: int| 0 <= i < runs.len() ==> field_value(#[trigger] runs[i], f) == t,
    ensures
        trunc_div(total(runs, f), runs.len() as int) == t,
        field_value(merged_counters(runs), f) == t,
{
    let n = runs.len() as int;
    lemma_total_of_equal_runs(runs, f, t);
    if t >= 0 {
        assert(n * t >= 0) by (nonlinear_arith)
            requires
                n > 0,
                t >= 0,
        ;
        lemma_div_multiples_vanish(t, n);
    } else {
        assert(n * t < 0 && -(n * t) == n * (-t)) by (nonlinear_arith)
            requires
                n > 0,
                t < 0,
        ;
        lemma_div_multiples_vanish(-t, n);
    }
    assert(field_value(runs[0], f) == t);
    let v = field_value(runs[0], f);
    assert(i64::MIN <= v <= i64::MAX);
}

/// Merging a single run gives that run back, except that a highest wave or
/// enrage stack below zero counts as zero.
pub proof fn lemma_merge_of_one_run(x: RunCounters)
    ensures
        ({
            let m = merged_counters(seq![x]);
            &&& m.encounters == x.encounters
            &&& m.dungeons_completed == x.dungeons_completed
            &&& m.dungeons_failed == x.dungeons_failed
            &&& m.laby_attempt_count == x.laby_attempt_count
            &&& m.simulated_time == x.simulated_time
            &&& m.last_encounter_finish_time == x.last_encounter_finish_time
            &&& m.last_dungeon_finish_time == x.last_dungeon_finish_time
            &&& m.min_dungeon_time == x.min_dungeon_time
            &&& m.max_dungeon_time == x.max_dungeon_time
            &&& m.max_wave_reached == (if x.max_wave_reached > 0 { x.max_wave_reached } else { 0 })
            &&& m.max_enrage_stack == (if x.max_enrage_stack > 0 { x.max_enrage_stack } else { 0 })
        }),
{
    let s = seq![x];
    let e = s.drop_last();
    assert(e =~= Seq::<RunCounters>::empty());
    assert(s.last() == x);
    assert forall|f: int| 0 <= f < 11 implies #[trigger] total(s, f) == field_value(x, f) && max_of(s, f) == (if field_value(
        x,
        f,
    ) > 0 {
        field_value(x, f)
    } else {
        0
    }) by {
        assert(total(e, f) == 0);
        assert(max_of(e, f) == 0);
    }
    assert(total(s, 5) == field_value(x, 5));
    assert(total(s, 6) == field_value(x, 6));
    assert(total(s, 7) == field_value(x, 7));
    assert(total(s, 8) == field_value(x, 8));
    assert(total(s, 0) == field_value(x, 0));
    assert(total(s, 1) == field_value(x, 1));
    assert(total(s, 2) == field_value(x, 2));
    assert(total(s, 3) == field_value(x, 3));
    assert(total(s, 4) == field_value(x, 4));
    assert(total(s, 9) == field_value(x, 9));
    assert(total(s, 10) == field_value(x, 10));
}

/// The merged highest wave and enrage stack are at least those of every run,
/// at least zero, and equal to one of them or zero.
pub proof fn lemma_merged_maxima(runs: Seq<RunCounters>, f: int)
    ensures
        max_of(runs, f) >= 0,
        forall|i: int| 0 <= i < runs.len() ==> max_of(runs, f) >= field_value(#[trigger] runs[i], f),
        max_of(runs, f) == 0 || exists|i: int| 0 <= i < runs.len() && max_of(runs, f) == field_value(#[trigger] runs[i], f),
    decreases runs.len(),
{
    if runs.len() > 0 {
        let init = runs.drop_last();
        lemma_merged_maxima(init, f);
        assert forall|i: int| 0 <= i < runs.len() implies max_of(runs, f) >= field_value(#[trigger] runs[i], f) by {
            if i < init.len() {
                assert(init[i] == runs[i]);
            }
        }
        if max_of(runs, f) != 0 && max_of(runs, f) != field_value(runs[runs.len() - 1], f) {
            let i = choose|i: int| 0 <= i < init.len() && max_of(init, f) == field_value(#[trigger] init[i], f);
            assert(init[i] == runs[i]);
        }
    }
}

/// Merges the results of several runs; `None` where a sum leaves its type.
pub fn merge_run_counters(runs: &Vec<RunCounters>) -> (r: Option<RunCounters>)
    requires
        0 < runs@.len() <= i64::MAX,
    ensures
        r == (if counters_fit(runs@) { Some(merged_counters(runs@)) } else { None }),
        r matches Some(m) ==> {
            &&& m.encounters == total(runs@, 0)
            &&& m.dungeons_completed == total(runs@, 1)
            &&& m.dungeons_failed == total(runs@, 2)
            &&& m.laby_attempt_count == total(runs@, 3)
            &&& m.simulated_time == total(runs@, 4)
            &&& m.last_encounter_finish_time == trunc_div(total(runs@, 5), runs@.len() as int)
            &&& m.last_dungeon_finish_time == trunc_div(total(runs@, 6), runs@.len() as int)
            &&& m.min_dungeon_time == trunc_div(total(runs@, 7), runs@.len() as int)
            &&& m.max_dungeon_time == trunc_div(total(runs@, 8), runs@.len() as int)
            &&& m.max_wave_reached == max_of(runs@, 9)
            &&& m.max_enrage_stack == max_of(runs@, 10)
        },
        r matches Some(m) ==> forall|f: int| 5 <= f < 9 && (forall|i: int| 0 <= i < runs@.len() ==>
            field_value(#[trigger] runs@[i], f) == field_value(runs@[0], f)) ==> field_value(m, f)
            == field_value(runs@[0], f),
{
    let mut acc = RunCounters {
        encounters: 0,
        dungeons_completed: 0,
        dungeons_failed: 0,
        laby_attempt_count: 0,
        simulated_time: 0,
        last_encounter_finish_time: 0,
        last_dungeon_finish_time: 0,
        min_dungeon_time: 0,
        max_dungeon_time: 0,
        max_wave_reached: 0,
        max_enrage_stack: 0,
    };
    let mut i: usize = 0;
    assert(runs@.take(0) =~= Seq::<RunCounters>::empty());
    while i < runs.len()
        invariant
            i <= runs@.len(),
            forall|f: int| 0 <= f < 9 ==> field_value(acc, f) == #[trigger] total(runs@.take(i as int), f),
            field_value(acc, 9) == max_of(runs@.take(i as int), 9),
            field_value(acc, 10) == max_of(runs@.take(i as int), 10),
            forall|f: int, k: int|
                0 <= f < 9 && 0 <= k <= i ==> field_fits(f, #[trigger] total(runs@.take(k), f)),
        decreases runs@.len() - i,
    {
        let r = runs[i];
        let ghost s = runs@;
        let ghost ii = i as int;
        proof {
            assert forall|f: int| 0 <= f < 11 implies #[trigger] total(s.take(ii + 1), f) == total(s.take(ii), f)
                + field_value(r, f) && max_of(s.take(ii + 1), f) == (if field_value(r, f) > max_of(s.take(ii), f) {
                field_value(r, f)
            } else {
                max_of(s.take(ii), f)
            }) by {
                lemma_total_step(s, ii, f);
            }
            lemma_total_step(s, ii, 9);
            lemma_total_step(s, ii, 10);
            assert(field_value(acc, 0) == total(s.take(ii), 0));
            assert(field_value(acc, 1) == total(s.take(ii), 1));
            assert(field_value(acc, 2) == total(s.take(ii), 2));
            assert(field_value(acc, 3) == total(s.take(ii), 3));
            assert(field_value(acc, 4) == total(s.take(ii), 4));
            assert(field_value(acc, 5) == total(s.take(ii), 5));
            assert(field_value(acc, 6) == total(s.take(ii), 6));
            assert(field_value(acc, 7) == total(s.take(ii), 7));
            assert(field_value(acc, 8) == total(s.take(ii), 8));
        }
        let encounters = match acc.encounters.checked_add(r.encounters) {
            Some(v) => v,
            None => {
                proof { lemma_not_fit(s, ii, 0); }
                return None;
            },
        };
        let dungeons_completed = match acc.dungeons_completed.checked_add(r.dungeons_completed) {
            Some(v) => v,
            None => {
                proof { lemma_not_fit(s, ii, 1); }
                return None;
            },
        };
        let dungeons_failed = match acc.dungeons_failed.checked_add(r.dungeons_failed) {
            Some(v) => v,
            None => {
                proof { lemma_not_fit(s, ii, 2); }
                return None;
            },
        };
        let laby_attempt_count = match acc.laby_attempt_count.checked_add(r.laby_attempt_count) {
            Some(v) => v,
            None => {
                proof { lemma_not_fit(s, ii, 3); }
                return None;
            },
        };
        let simulated_time = match acc.simulated_time.checked_add(r.simulated_time) {
            Some(v) => v,
            None => {
                proof { lemma_not_fit(s, ii, 4); }
                return None;
            },
        };
        let last_encounter_finish_time = match acc.last_encounter_finish_time.checked_add(
            r.last_encounter_finish_time,
        ) {
            Some(v) => v,
            None => {
                proof { lemma_not_fit(s, ii, 5); }
                return None;
            },
        };
        let last_dungeon_finish_time = match acc.last_dungeon_finish_time.checked_add(r.last_dungeon_finish_time) {
            Some(v) => v,
            None => {
                proof { lemma_not_fit(s, ii, 6); }
                return None;
            },
        };
        let min_dungeon_time = match acc.min_dungeon_time.checked_add(r.min_dungeon_time) {
            Some(v) => v,
            None => {
                proof { lemma_not_fit(s, ii, 7); }
                return None;
            },
        };
        let max_dungeon_time = match acc.max_dungeon_time.checked_add(r.max_dungeon_time) {
            Some(v) => v,
            None => {
                proof { lemma_not_fit(s, ii, 8); }
                return None;
            },
        };
        acc = RunCounters {
            encounters,
            dungeons_completed,
            dungeons_failed,
            laby_attempt_count,
            simulated_time,
            last_encounter_finish_time,
            last_dungeon_finish_time,
            min_dungeon_time,
            max_dungeon_time,
            max_wave_reached: if r.max_wave_reached > acc.max_wave_reached {
                r.max_wave_reached
            } else {
                acc.max_wave_reached
            },
            max_enrage_stack: if r.max_enrage_stack > acc.max_enrage_stack {
                r.max_enrage_stack
            } else {
                acc.max_enrage_stack
            },
        };
        i += 1;
        proof {
            assert forall|f: int, k: int| 0 <= f < 9 && 0 <= k <= i implies field_fits(
                f,
                #[trigger] total(s.take(k), f),
            ) by {
                if k == i {
                    assert(field_value(acc, f) == total(s.take(k), f));
                }
            }
        }
    }
    assert(runs@.take(i as int) =~= runs@);
    let n = runs.len() as i64;
    acc.last_encounter_finish_time = acc.last_encounter_finish_time / n;
    acc.last_dungeon_finish_time = acc.last_dungeon_finish_time / n;
    acc.min_dungeon_time = acc.min_dungeon_time / n;
    acc.max_dungeon_time = acc.max_dungeon_time / n;
    proof {
        assert forall|f: int| 5 <= f < 9 && (forall|i: int| 0 <= i < runs@.len() ==>
            field_value(#[trigger] runs@[i], f) == field_value(runs@[0], f)) implies field_value(acc, f)
            == field_value(runs@[0], f) by {
            lemma_average_of_equal_runs(runs@, f, field_value(runs@[0], f));
        }
    }
    Some(acc)
}

/// Position of the first entry, from `from` on, with key `key`.
pub open spec fn key_position_from<V>(entries: Seq<(String, V)>, key: Seq<char>, from: int) -> Option<int>
    decreases entries.len() - from,
{
    if from < 0 || from >= entries.len() {
        None
    } else if entries[from].0@ == key {
        Some(from)
    } else {
        key_position_from(entries, key, from + 1)
    }
}

/// Position of the first entry with key `key`.
pub open spec fn key_position<V>(entries: Seq<(String, V)>, key: Seq<char>) -> Option<int> {
    key_position_from(entries, key, 0)
}

proof fn lemma_key_position_from<V>(entries: Seq<(String, V)>, key: Seq<char>, from: int)
    requires
        0 <= from,
    ensures
        key_position_from(entries, key, from) matches Some(p) ==> from <= p < entries.len()
            && entries[p].0@ == key,
    decreases entries.len() - from,
{
    if from < entries.len() && entries[from].0@ != key {
        lemma_key_position_from(entries, key, from + 1);
    }
}

fn find_key<V>(entries: &Vec<(String, V)>, key: &str) -> (r: Option<usize>)
    ensures
        r matches Some(p) ==> key_position(entries@, key@) == Some(p as int) && p < entries@.len(),
        r is None ==> key_position(entries@, key@) is None,
{
    proof {
        lemma_key_position_from(entries@, key@, 0);
    }
    let mut i: usize = 0;
    while i < entries.len()
        invariant
            i <= entries@.len(),
            key_position(entries@, key@) == key_position_from(entries@, key@, i as int),
        decreases entries@.len() - i,
    {
        if same_text(entries[i].0.as_str(), key) {
            return Some(i);
        }
        i += 1;
    }
    None
}

/// `e` added to the counts: to the count of its key, or as a new key at the end.
pub open spec fn add_count(counts: Seq<(String, i64)>, e: (String, i64)) -> Seq<(String, i64)> {
    match key_position(counts, e.0@) {
        Some(p) => counts.update(p, (counts[p].0, (counts[p].1 + e.1) as i64)),
        None => counts.push(e),
    }
}

/// Whether adding `e` keeps its key's count within `i64`.
pub open spec fn add_count_fits(counts: Seq<(String, i64)>, e: (String, i64)) -> bool {
    match key_position(counts, e.0@) {
        Some(p) => i64::MIN <= counts[p].1 + e.1 <= i64::MAX,
        None => true,
    }
}

/// `entries` added in turn to the counts.
pub open spec fn add_all_counts(counts: Seq<(String, i64)>, entries: Seq<(String, i64)>) -> Seq<(String, i64)>
    decreases entries.len(),
{
    if entries.len() == 0 {
        counts
    } else {
        add_count(add_all_counts(counts, entries.drop_last()), entries.last())
    }
}

/// Whether adding each of `entries` in turn keeps every count within `i64`.
pub open spec fn add_all_counts_fit(counts: Seq<(String, i64)>, entries: Seq<(String, i64)>) -> bool {
    forall|i: int|
        0 <= i < entries.len() ==> add_count_fits(
            #[trigger] add_all_counts(counts, entries.take(i)),
            entries[i],
        )
}

/// Adds each count of `entries` to the count of the same key in `counts`, keys
/// not there yet coming last; says `false`, leaving part of them added, where a
/// count would leave `i64`.
pub fn add_counts(counts: &mut Vec<(String, i64)>, entries: &Vec<(String, i64)>) -> (ok: bool)
    ensures
        ok == add_all_counts_fit(old(counts)@, entries@),
        ok ==> final(counts)@ == add_all_counts(old(counts)@, entries@),
{
    let ghost orig = counts@;
    let mut i: usize = 0;
    assert(entries@.take(0) =~= Seq::<(String, i64)>::empty());
    while i < entries.len()
        invariant
            i <= entries@.len(),
            orig == old(counts)@,
            counts@ == add_all_counts(orig, entries@.take(i as int)),
            forall|j: int| 0 <= j < i ==> add_count_fits(#[trigger] add_all_counts(orig, entries@.take(j)), entries@[j]),
        decreases entries@.len() - i,
    {
        let ghost before = counts@;
        proof {
            assert(entries@.take(i as int + 1).drop_last() =~= entries@.take(i as int));
            assert(entries@.take(i as int + 1).last() == entries@[i as int]);
        }
        let key = &entries[i].0;
        let v = entries[i].1;
        match find_key(counts, key.as_str()) {
            Some(p) => {
                let (k, c) = counts.remove(p);
                let sum = match c.checked_add(v) {
                    Some(x) => x,
                    None => {
                        proof {
                            let j = i as int;
                            assert(before[p as int].1 == c);
                            assert(!add_count_fits(add_all_counts(orig, entries@.take(j)), entries@[j]));
                            assert(!add_all_counts_fit(orig, entries@));
                        }
                        return false;
                    },
                };
                counts.insert(p, (k, sum));
                proof {
                    assert(counts@ =~= add_count(before, entries@[i as int]));
                }
            },
            None => {
                counts.push((key.clone(), v));
                proof {
                    assert(counts@ =~= add_count(before, entries@[i as int]));
                }
            },
        }
        i += 1;
    }
    assert(entries@.take(i as int) =~= entries@);
    true
}

/// `e` joined to the flags: or-ed into the flag of its key, or as a new key at the end.
pub open spec fn join_flag(flags: Seq<(String, bool)>, e: (String, bool)) -> Seq<(String, bool)> {
    match key_position(flags, e.0@) {
        Some(p) => flags.update(p, (flags[p].0, flags[p].1 || e.1)),
        None => flags.push(e),
    }
}

/// `entries` joined in turn to the flags.
pub open spec fn join_all_flags(flags: Seq<(String, bool)>, entries: Seq<(String, bool)>) -> Seq<(String, bool)>
    decreases entries.len(),
{
    if entries.len() == 0 {
        flags
    } else {
        join_flag(join_all_flags(flags, entries.drop_last()), entries.last())
    }
}

/// Ors each flag of `entries` into the flag of the same key in `flags`, keys
/// not there yet coming last.
pub fn join_flags(flags: &mut Vec<(String, bool)>, entries: &Vec<(String, bool)>)
    ensures
        final(flags)@ == join_all_flags(old(flags)@, entries@),
{
    let ghost orig = flags@;
    let mut i: usize = 0;
    assert(entries@.take(0) =~= Seq::<(String, bool)>::empty());
    while i < entries.len()
        invariant
            i <= entries@.len(),
            flags@ == join_all_flags(orig, entries@.take(i as int)),
        decreases entries@.len() - i,
    {
        let ghost before = flags@;
        proof {
            assert(entries@.take(i as int + 1).drop_last() =~= entries@.take(i as int));
            assert(entries@.take(i as int + 1).last() == entries@[i as int]);
        }
        let key = &entries[i].0;
        let b = entries[i].1;
        match find_key(flags, key.as_str()) {
            Some(p) => {
                let (k, f) = flags.remove(p);
                flags.insert(p, (k, f || b));
                proof {
                    assert(flags@ =~= join_flag(before, entries@[i as int]));
                }
            },
            None => {
                flags.push((key.clone(), b));
                proof {
                    assert(flags@ =~= join_flag(before, entries@[i as int]));
                }
            },
        }
        i += 1;
    }
    assert(entries@.take(i as int) =~= entries@);
}

/// Counts merged from two runs add up per key: a key's count after merging is
/// its count before plus the entry's, and other keys keep theirs.
pub proof fn lemma_add_count_per_key(counts: Seq<(String, i64)>, e: (String, i64), key: Seq<char>)
    requires
        add_count_fits(counts, e),
    ensures
        key_position(counts, key) matches Some(p) ==> (key != e.0@ ==> add_count(counts, e)[p] == counts[p]),
        key_position(counts, key) matches Some(p) ==> (key == e.0@ ==> add_count(counts, e)[p].1
            == counts[p].1 + e.1),
{
    lemma_key_position_from(counts, key, 0);
    lemma_key_position_from(counts, e.0@, 0);
}

} // verus!
