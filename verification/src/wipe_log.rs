//! A bounded log of the most recent entries (the combat log kept for wipes):
//! once full, each new entry displaces the oldest one.
use vstd::prelude::*;

verus! {

/// The log after `entry` is added to a log holding `s`, with room for `capacity` entries.
pub open spec fn log_after_add<T>(s: Seq<T>, capacity: nat, entry: T) -> Seq<T> {
    if s.len() < capacity {
        s.push(entry)
    } else {
        s.drop_first().push(entry)
    }
}

/// The log after each of `entries` is added in turn to an empty log.
pub open spec fn log_of<T>(capacity: nat, entries: Seq<T>) -> Seq<T>
    decreases entries.len(),
{
    if entries.len() == 0 {
        Seq::empty()
    } else {
        log_after_add(log_of(capacity, entries.drop_last()), capacity, entries.last())
    }
}

pub struct WipeLog<T> {
    buffer: Vec<Option<T>>,
    index: usize,
    count: usize,
    max: usize,
}

impl<T> WipeLog<T> {
    /// Position in the buffer of the oldest entry.
    closed spec fn start(&self) -> int {
        if self.index >= self.count {
            self.index - self.count
        } else {
            self.index + self.max - self.count
        }
    }

    /// Position in the buffer of the `k`-th oldest entry.
    closed spec fn slot(&self, k: int) -> int {
        if self.start() + k < self.max {
            self.start() + k
        } else {
            self.start() + k - self.max
        }
    }

    pub closed spec fn wf(&self) -> bool {
        &&& self.max > 0
        &&& self.buffer@.len() == self.max
        &&& self.index < self.max
        &&& self.count <= self.max
        &&& forall|k: int| 0 <= k < self.count ==> (#[trigger] self.buffer@[self.slot(k)]) is Some
    }

    /// How many entries the log keeps.
    pub closed spec fn capacity(&self) -> nat {
        self.max as nat
    }

    pub fn new(capacity: usize) -> (log: Self)
        requires
            capacity > 0,
        ensures
            log.wf(),
            log.capacity() == capacity,
            log@ == Seq::<T>::empty(),
    {
        let mut buffer: Vec<Option<T>> = Vec::new();
        let mut i: usize = 0;
        while i < capacity
            invariant
                i <= capacity,
                buffer@.len() == i,
            decreases capacity - i,
        {
            buffer.push(None);
            i += 1;
        }
        let log = WipeLog { buffer, index: 0, count: 0, max: capacity };
        assert(log@ =~= Seq::<T>::empty());
        log
    }

    /// Appends an entry, displacing the oldest one when the log is full.
    pub fn add(&mut self, entry: T)
        requires
            old(self).wf(),
        ensures
            final(self).wf(),
            final(self).capacity() == old(self).capacity(),
            final(self)@ == log_after_add(old(self)@, old(self).capacity(), entry),
    {
        let ghost before = self@;
        let ghost prev: WipeLog<T> = *self;
        let ghost e = entry;
        let i = self.index;
        self.buffer.set(i, Some(entry));
        self.index = if self.index + 1 == self.max { 0 } else { self.index + 1 };
        self.count = if self.count < self.max { self.count + 1 } else { self.max };
        proof {
            let s = log_after_add(before, self.max as nat, e);
            assert forall|k: int| 0 <= k < self.count implies (#[trigger] self.buffer@[self.slot(k)]) is Some
                && self.buffer@[self.slot(k)]->Some_0 == s[k] by {
                if k == self.count - 1 {
                    assert(self.slot(k) == i);
                } else if prev.count < prev.max {
                    assert(self.slot(k) == prev.slot(k));
                    assert(prev.slot(k) != i);
                    assert(prev.buffer@[prev.slot(k)] is Some);
                } else {
                    assert(self.slot(k) == prev.slot(k + 1));
                    assert(prev.slot(k + 1) != i);
                    assert(prev.buffer@[prev.slot(k + 1)] is Some);
                }
            }
            assert(self@ =~= s);
        }
    }

    /// The kept entries, oldest first.
    pub fn ordered(&self) -> (r: Vec<&T>)
        requires
            self.wf(),
        ensures
            r@.len() == self@.len(),
            forall|k: int| 0 <= k < r@.len() ==> *(#[trigger] r@[k]) == self@[k],
    {
        let start = if self.index >= self.count {
            self.index - self.count
        } else {
            self.index + (self.max - self.count)
        };
        let mut r: Vec<&T> = Vec::new();
        let mut k: usize = 0;
        while k < self.count
            invariant
                self.wf(),
                start == self.start(),
                k <= self.count,
                r@.len() == k,
                forall|j: int| 0 <= j < k ==> *(#[trigger] r@[j]) == self@[j],
            decreases self.count - k,
        {
            let pos = if k < self.max - start { start + k } else { k - (self.max - start) };
            assert(pos == self.slot(k as int));
            assert(self.buffer@[self.slot(k as int)] is Some);
            match &self.buffer[pos] {
                Some(v) => {
                    r.push(v);
                },
                None => {},
            }
            k += 1;
        }
        r
    }

    /// Empties the log.
    pub fn reset(&mut self)
        requires
            old(self).wf(),
        ensures
            final(self).wf(),
            final(self).capacity() == old(self).capacity(),
            final(self)@ == Seq::<T>::empty(),
    {
        self.index = 0;
        self.count = 0;
        assert(self@ =~= Seq::<T>::empty());
    }
}

impl<T> View for WipeLog<T> {
    type V = Seq<T>;

    closed spec fn view(&self) -> Seq<T> {
        Seq::new(self.count as nat, |k: int| self.buffer@[self.slot(k)]->Some_0)
    }
}

/// A log keeps the last `capacity` entries added to it, oldest first.
pub proof fn lemma_log_keeps_latest<T>(capacity: nat, entries: Seq<T>)
    requires
        capacity > 0,
    ensures
        log_of(capacity, entries) == (if entries.len() <= capacity {
            entries
        } else {
            entries.skip(entries.len() - capacity)
        }),
    decreases entries.len(),
{
    if entries.len() > 0 {
        let prev = entries.drop_last();
        lemma_log_keeps_latest(capacity, prev);
        if entries.len() <= capacity {
            assert(prev.push(entries.last()) =~= entries);
        } else if prev.len() <= capacity {
            assert(prev.drop_first().push(entries.last()) =~= entries.skip(entries.len() - capacity));
        } else {
            assert(prev.skip(prev.len() - capacity).drop_first().push(entries.last())
                =~= entries.skip(entries.len() - capacity));
        }
    } else {
        assert(entries =~= Seq::<T>::empty());
    }
}

} // verus!
