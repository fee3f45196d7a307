//! The event queue of the simulation: events leave in order of their time,
//! events due at the same time in the order they were added.
use vstd::prelude::*;
use crate::events::{CombatEvent, EventKind, UnitIdx, type_tag, source_of, target_of};
use crate::text::same_text;

verus! {

/// `a` leaves the queue before `b`: an earlier time, or the same time and a smaller order key.
pub open spec fn key_lt(a: (CombatEvent, u64), b: (CombatEvent, u64)) -> bool {
    a.0.time < b.0.time || (a.0.time == b.0.time && a.1 < b.1)
}

/// Position of the first entry with the least key among the first `n` entries.
pub open spec fn first_min_upto(s: Seq<(CombatEvent, u64)>, n: int) -> int
    decreases n,
{
    if n <= 1 {
        0
    } else {
        let m = first_min_upto(s, n - 1);
        if key_lt(s[n - 1], s[m]) {
            n - 1
        } else {
            m
        }
    }
}

/// Position of the entry that leaves the queue next.
pub open spec fn next_index(s: Seq<(CombatEvent, u64)>) -> int {
    first_min_upto(s, s.len() as int)
}

/// The entries that remain when those flagged `true` are dropped,
/// `flags[i]` standing for `s[i]`.
pub open spec fn kept(s: Seq<(CombatEvent, u64)>, flags: Seq<bool>) -> Seq<(CombatEvent, u64)>
    decreases flags.len(),
{
    if flags.len() == 0 {
        Seq::empty()
    } else {
        let rest = kept(s, flags.drop_last());
        if flags.last() {
            rest
        } else {
            rest.push(s[flags.len() - 1])
        }
    }
}

/// The order keys grow along the stored entries.
pub open spec fn keys_increasing(s: Seq<(CombatEvent, u64)>) -> bool {
    forall|i: int, j: int| 0 <= i < j < s.len() ==> #[trigger] s[i].1 < #[trigger] s[j].1
}

/// Dropping entries keeps the order keys growing and no larger than before.
proof fn lemma_kept_sorted(s: Seq<(CombatEvent, u64)>, flags: Seq<bool>, bound: u64)
    requires
        flags.len() <= s.len(),
        keys_increasing(s),
        forall|i: int| 0 <= i < s.len() ==> #[trigger] s[i].1 < bound,
    ensures
        keys_increasing(kept(s, flags)),
        forall|k: int| 0 <= k < kept(s, flags).len() ==> #[trigger] kept(s, flags)[k].1 < bound,
        flags.len() > 0 ==> forall|k: int|
            0 <= k < kept(s, flags).len() ==> #[trigger] kept(s, flags)[k].1 <= s[flags.len() - 1].1,
    decreases flags.len(),
{
    if flags.len() > 0 {
        let n = flags.len() as int;
        let rest = kept(s, flags.drop_last());
        lemma_kept_sorted(s, flags.drop_last(), bound);
        if n > 1 {
            assert(s[n - 2].1 < s[n - 1].1);
        }
        assert(rest.len() > 0 ==> n > 1);
        if !flags.last() {
            let t = rest.push(s[n - 1]);
            assert(kept(s, flags) == t);
            assert forall|i: int, j: int| 0 <= i < j < t.len() implies #[trigger] t[i].1 < #[trigger] t[j].1 by {
                if j == t.len() - 1 {
                    assert(t[i] == rest[i]);
                    assert(rest[i].1 <= s[n - 2].1);
                } else {
                    assert(t[i] == rest[i]);
                    assert(t[j] == rest[j]);
                }
            }
            assert forall|k: int| 0 <= k < t.len() implies #[trigger] t[k].1 <= s[n - 1].1 by {
                if k < t.len() - 1 {
                    assert(t[k] == rest[k]);
                    assert(rest[k].1 <= s[n - 2].1);
                }
            }
        } else {
            assert forall|k: int| 0 <= k < rest.len() implies #[trigger] rest[k].1 <= s[n - 1].1 by {
                assert(rest[k].1 <= s[n - 2].1);
            }
        }
    }
}

/// The first least entry is not preceded by any entry of smaller or equal key,
/// and no entry has a smaller key.
pub proof fn lemma_first_min(s: Seq<(CombatEvent, u64)>, n: int)
    requires
        1 <= n <= s.len(),
    ensures
        0 <= first_min_upto(s, n) < n,
        forall|j: int| 0 <= j < n ==> !key_lt(#[trigger] s[j], s[first_min_upto(s, n)]),
        forall|j: int| 0 <= j < first_min_upto(s, n) ==> key_lt(s[first_min_upto(s, n)], #[trigger] s[j]),
    decreases n,
{
    if n > 1 {
        lemma_first_min(s, n - 1);
    }
}

/// Dropping by flags that agree with a predicate is filtering by its negation.
pub proof fn lemma_kept_is_filter(
    s: Seq<(CombatEvent, u64)>,
    flags: Seq<bool>,
    p: spec_fn(CombatEvent) -> bool,
)
    requires
        flags.len() <= s.len(),
        forall|i: int| 0 <= i < flags.len() ==> flags[i] == p(#[trigger] s[i].0),
    ensures
        kept(s, flags) == s.take(flags.len() as int).filter(|x: (CombatEvent, u64)| !p(x.0)),
    decreases flags.len(),
{
    let q = |x: (CombatEvent, u64)| !p(x.0);
    reveal_with_fuel(Seq::filter, 1);
    if flags.len() > 0 {
        let n = flags.len() as int;
        lemma_kept_is_filter(s, flags.drop_last(), p);
        assert(s.take(n).drop_last() =~= s.take(n - 1));
        assert(s.take(n).last() == s[n - 1]);
        assert(flags.last() == p(s[n - 1].0));
    } else {
        assert(s.take(0) =~= Seq::<(CombatEvent, u64)>::empty());
    }
}


/// No queued event is due before the one that leaves next; the events due at
/// the same moment with the same order key leave in the order they are stored.
pub proof fn lemma_next_is_earliest(s: Seq<(CombatEvent, u64)>)
    requires
        s.len() > 0,
    ensures
        0 <= next_index(s) < s.len(),
        forall|j: int| 0 <= j < s.len() ==> !key_lt(#[trigger] s[j], s[next_index(s)]),
        forall|j: int| 0 <= j < s.len() ==> s[next_index(s)].0.time <= (#[trigger] s[j]).0.time,
{
    lemma_first_min(s, s.len() as int);
}

/// Events due at the same time leave in the order they were added: while the
/// order keys grow along the queue (each event added gets a larger key than
/// every event added before it), no event stored before the next one is due
/// at its time or earlier.
pub proof fn lemma_equal_times_leave_in_insertion_order(s: Seq<(CombatEvent, u64)>)
    requires
        s.len() > 0,
        keys_increasing(s),
    ensures
        forall|j: int| 0 <= j < next_index(s) ==> (#[trigger] s[j]).0.time > s[next_index(s)].0.time,
        forall|j: int|
            0 <= j < s.len() && (#[trigger] s[j]).0.time == s[next_index(s)].0.time ==> next_index(s) <= j,
{
    lemma_first_min(s, s.len() as int);
    let m = next_index(s);
    assert forall|j: int| 0 <= j < m implies (#[trigger] s[j]).0.time > s[m].0.time by {
        assert(key_lt(s[m], s[j]));
        assert(s[j].1 < s[m].1);
    }
}

/// Two events taken one after the other come out in order of time.
pub proof fn lemma_taken_in_time_order(s: Seq<(CombatEvent, u64)>)
    requires
        s.len() > 1,
    ensures
        s[next_index(s)].0.time <= s.remove(next_index(s))[next_index(s.remove(next_index(s)))].0.time,
{
    lemma_next_is_earliest(s);
    let i = next_index(s);
    let rest = s.remove(i);
    lemma_next_is_earliest(rest);
    let j = next_index(rest);
    if j < i {
        assert(rest[j] == s[j]);
    } else {
        assert(rest[j] == s[j + 1]);
    }
}

/// After the events of a unit are cleared, none acts for or is aimed at it,
/// and every other event is still queued.
pub proof fn lemma_cleared_unit_gone(s: Seq<(CombatEvent, u64)>, unit: UnitIdx)
    ensures
        ({
            let p = |x: (CombatEvent, u64)|
                !(source_of(x.0.kind) == Some(unit) || target_of(x.0.kind) == Some(unit));
            &&& forall|j: int|
                0 <= j < s.filter(p).len() ==> source_of((#[trigger] s.filter(p)[j]).0.kind) != Some(unit)
                    && target_of(s.filter(p)[j].0.kind) != Some(unit)
            &&& forall|j: int|
                0 <= j < s.len() && source_of((#[trigger] s[j]).0.kind) != Some(unit) && target_of(
                    s[j].0.kind,
                ) != Some(unit) ==> s.filter(p).contains(s[j])
        }),
{
    let p = |x: (CombatEvent, u64)|
        !(source_of(x.0.kind) == Some(unit) || target_of(x.0.kind) == Some(unit));
    assert forall|j: int| 0 <= j < s.filter(p).len() implies source_of(
        (#[trigger] s.filter(p)[j]).0.kind,
    ) != Some(unit) && target_of(s.filter(p)[j].0.kind) != Some(unit) by {
        s.lemma_filter_pred(p, j);
    }
    assert forall|j: int|
        0 <= j < s.len() && source_of((#[trigger] s[j]).0.kind) != Some(unit) && target_of(
            s[j].0.kind,
        ) != Some(unit) implies s.filter(p).contains(s[j]) by {
        s.lemma_filter_contains(p, j);
    }
}


/// Events ordered by time; among equal times by the order key each got when
/// it was added, from a counter that only grows.
pub struct EventQueue {
    entries: Vec<(CombatEvent, u64)>,
    next_key: u64,
}

impl View for EventQueue {
    type V = Seq<(CombatEvent, u64)>;

    closed spec fn view(&self) -> Seq<(CombatEvent, u64)> {
        self.entries@
    }
}

impl EventQueue {
    /// The order key that the next event added gets.
    pub closed spec fn next_key(&self) -> u64 {
        self.next_key
    }

    /// The keys grow along the stored entries and stay below the next key.
    pub open spec fn wf(&self) -> bool {
        &&& keys_increasing(self@)
        &&& forall|i: int| 0 <= i < self@.len() ==> #[trigger] self@[i].1 < self.next_key()
    }

    pub fn new() -> (q: Self)
        ensures
            q@ == Seq::<(CombatEvent, u64)>::empty(),
            q.next_key() == 0,
            q.wf(),
    {
        EventQueue { entries: Vec::new(), next_key: 0 }
    }

    /// Adds an event with the next order key and says whether it was added: it
    /// is not only once all `u64::MAX` keys have been handed out.
    pub fn add_event(&mut self, event: CombatEvent) -> (added: bool)
        requires
            old(self).wf(),
        ensures
            final(self).wf(),
            added == (old(self).next_key() < u64::MAX),
            added ==> final(self)@ == old(self)@.push((event, old(self).next_key()))
                && final(self).next_key() == old(self).next_key() + 1,
            !added ==> final(self)@ == old(self)@ && final(self).next_key() == old(self).next_key(),
    {
        if self.next_key == u64::MAX {
            return false;
        }
        let key = self.next_key;
        self.entries.push((event, key));
        self.next_key = key + 1;
        true
    }

    /// Removes and returns the event that is due first.
    pub fn get_next_event(&mut self) -> (r: Option<CombatEvent>)
        requires
            old(self).wf(),
        ensures
            final(self).wf(),
            final(self).next_key() == old(self).next_key(),
            old(self)@.len() == 0 ==> r is None && final(self)@ == old(self)@,
            old(self)@.len() > 0 ==> r == Some(old(self)@[next_index(old(self)@)].0)
                && final(self)@ == old(self)@.remove(next_index(old(self)@)),
            r matches Some(e) ==> forall|j: int|
                0 <= j < final(self)@.len() ==> e.time <= #[trigger] final(self)@[j].0.time,
            old(self)@.len() > 0 ==> forall|j: int|
                0 <= j < next_index(old(self)@) ==> (#[trigger] old(self)@[j]).0.time > old(self)@[next_index(
                    old(self)@,
                )].0.time,
    {
        let len = self.entries.len();
        if len == 0 {
            return None;
        }
        let mut best: usize = 0;
        let mut i: usize = 1;
        while i < len
            invariant
                len == self.entries.len(),
                self.entries@ == old(self)@,
                1 <= i <= len,
                best < i,
                best == first_min_upto(self.entries@, i as int),
            decreases len - i,
        {
            let a = &self.entries[i];
            let b = &self.entries[best];
            if a.0.time < b.0.time || (a.0.time == b.0.time && a.1 < b.1) {
                best = i;
            }
            i += 1;
        }
        proof {
            lemma_first_min(self.entries@, len as int);
            lemma_equal_times_leave_in_insertion_order(self.entries@);
        }
        let ghost before = self.entries@;
        let (ev, _) = self.entries.remove(best);
        proof {
            assert forall|i: int, j: int| 0 <= i < j < self@.len() implies #[trigger] self@[i].1
                < #[trigger] self@[j].1 by {
                let i0 = if i < best { i } else { i + 1 };
                let j0 = if j < best { j } else { j + 1 };
                assert(self@[i] == before[i0]);
                assert(self@[j] == before[j0]);
            }
            assert forall|i: int| 0 <= i < self@.len() implies #[trigger] self@[i].1 < self.next_key() by {
                if i < best {
                    assert(self@[i] == before[i]);
                } else {
                    assert(self@[i] == before[i + 1]);
                }
            }
            assert forall|j: int| 0 <= j < self.entries@.len() implies ev.time
                <= #[trigger] self.entries@[j].0.time by {
                if j < best {
                    assert(self.entries@[j] == before[j]);
                } else {
                    assert(self.entries@[j] == before[j + 1]);
                }
            }
        }
        Some(ev)
    }

    pub fn clear(&mut self)
        ensures
            final(self)@ == Seq::<(CombatEvent, u64)>::empty(),
            final(self).next_key() == old(self).next_key(),
            final(self).wf(),
    {
        self.entries.clear();
    }

    /// Drops every event that acts for or is aimed at `unit`.
    pub fn clear_events_for_unit(&mut self, unit: UnitIdx)
        requires
            old(self).wf(),
        ensures
            final(self).wf(),
            final(self).next_key() == old(self).next_key(),
            final(self)@ == old(self)@.filter(
                |x: (CombatEvent, u64)|
                    !(source_of(x.0.kind) == Some(unit) || target_of(x.0.kind) == Some(unit)),
            ),
    {
        let ghost p = |e: CombatEvent| source_of(e.kind) == Some(unit) || target_of(e.kind) == Some(unit);
        let ghost before = self@;
        let is_involved = |e: &CombatEvent| -> (r: bool)
            ensures
                r == (source_of(e.kind) == Some(unit) || target_of(e.kind) == Some(unit)),
            {
                    let is_source = match e.source_idx() {
                        Some(s) => s == unit,
                        None => false,
                    };
                    let is_target = match e.target_idx() {
                        Some(t) => t == unit,
                        None => false,
                    };
                    is_source || is_target
            };
        let flags = self.remove_where(is_involved);
        proof {
            lemma_kept_is_filter(before, flags@, p);
            assert(before.take(before.len() as int) =~= before);
            let q1 = |x: (CombatEvent, u64)| !p(x.0);
            let q2 = |x: (CombatEvent, u64)|
                !(source_of(x.0.kind) == Some(unit) || target_of(x.0.kind) == Some(unit));
            assert(q1 =~= q2);
        }
    }

    /// Drops every event of the given type.
    pub fn clear_events_of_type(&mut self, type_str: &str)
        requires
            old(self).wf(),
        ensures
            final(self).wf(),
            final(self).next_key() == old(self).next_key(),
            final(self)@ == old(self)@.filter(|x: (CombatEvent, u64)| type_tag(x.0.kind) != type_str@),
    {
        let ghost p = |e: CombatEvent| type_tag(e.kind) == type_str@;
        let ghost before = self@;
        let is_of_type = |e: &CombatEvent| -> (r: bool)
            ensures
                r == (type_tag(e.kind) == type_str@),
            { same_text(e.type_str(), type_str) };
        let flags = self.remove_where(is_of_type);
        proof {
            lemma_kept_is_filter(before, flags@, p);
            assert(before.take(before.len() as int) =~= before);
            let q1 = |x: (CombatEvent, u64)| !p(x.0);
            let q2 = |x: (CombatEvent, u64)| type_tag(x.0.kind) != type_str@;
            assert(q1 =~= q2);
        }
    }

    /// Drops every event for which `predicate` answers `true`; says whether any was dropped.
    pub fn clear_matching<F>(&mut self, predicate: F) -> (r: bool) where F: Fn(&CombatEvent) -> bool
        requires
            old(self).wf(),
            forall|e: CombatEvent| call_requires(predicate, (&e,)),
        ensures
            final(self).wf(),
            final(self).next_key() == old(self).next_key(),
            exists|flags: Seq<bool>|
                {
                    &&& flags.len() == old(self)@.len()
                    &&& forall|i: int|
                        0 <= i < flags.len() ==> call_ensures(
                            predicate,
                            (&old(self)@[i].0,),
                            #[trigger] flags[i],
                        )
                    &&& final(self)@ == kept(old(self)@, flags)
                },
            r == (final(self)@.len() < old(self)@.len()),
    {
        let before = self.entries.len();
        let flags = self.remove_where(predicate);
        self.entries.len() < before
    }

    pub fn contains_event_of_type(&self, type_str: &str) -> (r: bool)
        ensures
            r == exists|i: int| 0 <= i < self@.len() && type_tag(#[trigger] self@[i].0.kind) == type_str@,
    {
        let mut i: usize = 0;
        while i < self.entries.len()
            invariant
                i <= self.entries.len(),
                forall|j: int| 0 <= j < i ==> type_tag(#[trigger] self@[j].0.kind) != type_str@,
            decreases self.entries.len() - i,
        {
            if same_text(self.entries[i].0.type_str(), type_str) {
                return true;
            }
            i += 1;
        }
        false
    }

    pub fn contains_event_of_type_and_hrid(&self, type_str: &str, hrid: &str) -> (r: bool)
        ensures
            r == exists|i: int|
                0 <= i < self@.len() && type_tag(#[trigger] self@[i].0.kind) == type_str@
                    && (self@[i].0.kind matches EventKind::PlayerRespawn { hrid: h } && h@ == hrid@),
    {
        let mut i: usize = 0;
        while i < self.entries.len()
            invariant
                i <= self.entries.len(),
                forall|j: int|
                    0 <= j < i ==> !(type_tag(#[trigger] self@[j].0.kind) == type_str@
                        && (self@[j].0.kind matches EventKind::PlayerRespawn { hrid: h } && h@ == hrid@)),
            decreases self.entries.len() - i,
        {
            let e = &self.entries[i].0;
            if same_text(e.type_str(), type_str) {
                match &e.kind {
                    EventKind::PlayerRespawn { hrid: h } => {
                        if same_text(h.as_str(), hrid) {
                            return true;
                        }
                    },
                    _ => {},
                }
            }
            i += 1;
        }
        false
    }

    /// The first queued event, in queue storage order, for which `predicate` answers `true`.
    pub fn get_matching<F>(&self, predicate: F) -> (r: Option<&CombatEvent>) where
        F: Fn(&CombatEvent) -> bool,
        requires
            forall|e: CombatEvent| call_requires(predicate, (&e,)),
        ensures
            r is None ==> forall|i: int|
                0 <= i < self@.len() ==> call_ensures(predicate, (&#[trigger] self@[i].0,), false),
            r matches Some(e) ==> exists|i: int|
                {
                    &&& 0 <= i < self@.len()
                    &&& *e == self@[i].0
                    &&& call_ensures(predicate, (&#[trigger] self@[i].0,), true)
                    &&& forall|j: int|
                        0 <= j < i ==> call_ensures(predicate, (&#[trigger] self@[j].0,), false)
                },
    {
        let mut i: usize = 0;
        while i < self.entries.len()
            invariant
                i <= self.entries.len(),
                forall|e: CombatEvent| call_requires(predicate, (&e,)),
                forall|j: int|
                    0 <= j < i ==> call_ensures(predicate, (&#[trigger] self@[j].0,), false),
            decreases self.entries.len() - i,
        {
            let e = &self.entries[i].0;
            if predicate(e) {
                assert(call_ensures(predicate, (&self@[i as int].0,), true));
                return Some(e);
            }
            i += 1;
        }
        None
    }

    /// Drops, in place and keeping the order of the rest, every entry whose event
    /// `should_remove` answers `true` for; returns the answers, one per entry.
    fn remove_where<F>(&mut self, should_remove: F) -> (flags: Ghost<Seq<bool>>) where
        F: Fn(&CombatEvent) -> bool,
        requires
            old(self).wf(),
            forall|e: CombatEvent| call_requires(should_remove, (&e,)),
        ensures
            final(self).wf(),
            final(self).next_key() == old(self).next_key(),
            flags@.len() == old(self)@.len(),
            forall|i: int|
                0 <= i < flags@.len() ==> call_ensures(
                    should_remove,
                    (&old(self)@[i].0,),
                    #[trigger] flags@[i],
                ),
            final(self)@ == kept(old(self)@, flags@),
    {
        let ghost orig = self.entries@;
        let ghost mut fl: Seq<bool> = Seq::empty();
        let mut i: usize = 0;
        while i < self.entries.len()
            invariant
                forall|e: CombatEvent| call_requires(should_remove, (&e,)),
                self.next_key == old(self).next_key,
                keys_increasing(orig),
                forall|j: int| 0 <= j < orig.len() ==> #[trigger] orig[j].1 < self.next_key,
                i <= self.entries.len(),
                fl.len() <= orig.len(),
                self.entries.len() - i == orig.len() - fl.len(),
                self.entries@.take(i as int) == kept(orig, fl),
                self.entries@.skip(i as int) == orig.skip(fl.len() as int),
                forall|j: int|
                    0 <= j < fl.len() ==> call_ensures(should_remove, (&orig[j].0,), #[trigger] fl[j]),
            decreases self.entries.len() - i,
        {
            let ghost k = fl.len() as int;
            let ghost cur = self.entries@;
            assert(cur[i as int] == cur.skip(i as int)[0]);
            assert(orig[k] == orig.skip(k)[0]);
            let b = should_remove(&self.entries[i].0);
            proof {
                let nf = fl.push(b);
                assert(nf.drop_last() =~= fl);
                fl = nf;
            }
            if b {
                self.entries.remove(i);
                assert(self.entries@.take(i as int) =~= cur.take(i as int));
                assert(self.entries@.skip(i as int) =~= cur.skip(i as int + 1));
                assert(orig.skip(k + 1) =~= orig.skip(k).skip(1));
                assert(cur.skip(i as int + 1) =~= cur.skip(i as int).skip(1));
            } else {
                assert(self.entries@.take(i as int + 1) =~= cur.take(i as int).push(cur[i as int]));
                assert(self.entries@.skip(i as int + 1) =~= cur.skip(i as int).skip(1));
                assert(orig.skip(k + 1) =~= orig.skip(k).skip(1));
                i += 1;
            }
        }
        proof {
            assert(self.entries@.take(i as int) =~= self.entries@);
            assert(fl.len() == orig.len());
            lemma_kept_sorted(orig, fl, self.next_key);
        }
        Ghost(fl)
    }
}

} // verus!
