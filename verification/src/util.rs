//! Small verified helpers shared by the modules.

use vstd::prelude::*;

verus! {

/// Copy `v[start..end]` into a new vector.
pub fn copy_range(v: &[u32], start: usize, end: usize) -> (r: Vec<u32>)
    requires
        start <= end <= v@.len(),
    ensures
        r@ == v@.subrange(start as int, end as int),
{
    let mut r: Vec<u32> = Vec::new();
    let mut i = start;
    while i < end
        invariant
            start <= i <= end <= v@.len(),
            r@ == v@.subrange(start as int, i as int),
        decreases end - i,
    {
        r.push(v[i]);
        proof {
            assert(r@ =~= v@.subrange(start as int, i + 1));
        }
        i = i + 1;
    }
    r
}

/// A copy of `v`.
pub fn copy_all(v: &Vec<u32>) -> (r: Vec<u32>)
    ensures
        r@ == v@,
{
    proof {
        assert(v@.subrange(0, v@.len() as int) =~= v@);
    }
    copy_range(v.as_slice(), 0, v.len())
}

} // verus!
