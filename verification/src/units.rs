//! Access to two distinct units of the simulator's unit list at once.
use vstd::prelude::*;

verus! {

/// Mutable access to the two distinct elements `a` and `b` of `v`: whatever is
/// written through them ends up at those positions, and nothing else changes.
pub fn borrow_two_mut<T>(v: &mut Vec<T>, a: usize, b: usize) -> (r: (&mut T, &mut T))
    requires
        a != b,
        a < old(v)@.len(),
        b < old(v)@.len(),
    ensures
        *r.0 == old(v)@[a as int],
        *r.1 == old(v)@[b as int],
        final(v)@ == old(v)@.update(a as int, *final(r.0)).update(b as int, *final(r.1)),
{
    if a < b {
        let (left, right) = v.as_mut_slice().split_at_mut(b);
        (&mut left[a], &mut right[0])
    } else {
        let (left, right) = v.as_mut_slice().split_at_mut(a);
        (&mut right[0], &mut left[b])
    }
}

} // verus!
