//! Ascending order on vectors of numbers.

use vstd::prelude::*;
use vstd::seq_lib::{to_multiset_build, to_multiset_insert};

verus! {

/// No element of `s` is greater than one behind it.
pub open spec fn ascending(s: Seq<int>) -> bool {
    forall|i: int, j: int| 0 <= i < j < s.len() ==> s[i] <= s[j]
}

/// The numbers of a sequence of `u32`.
pub open spec fn ints_u32(s: Seq<u32>) -> Seq<int> {
    s.map_values(|x: u32| x as int)
}

/// The numbers of a sequence of `usize`.
pub open spec fn ints_usize(s: Seq<usize>) -> Seq<int> {
    s.map_values(|x: usize| x as int)
}

/// Putting `a` in front of the first greater element keeps the order.
proof fn lemma_insert_keeps_order(s: Seq<int>, p: int, a: int)
    requires
        ascending(s),
        0 <= p <= s.len(),
        forall|i: int| 0 <= i < p ==> s[i] <= a,
        p < s.len() ==> a < s[p],
    ensures
        ascending(s.insert(p, a)),
        s.insert(p, a).to_multiset() == s.to_multiset().insert(a),
{
    let t = s.insert(p, a);
    assert forall|i: int, j: int| 0 <= i < j < t.len() implies t[i] <= t[j] by {
        if j < p {
        } else if j == p {
        } else if i < p {
            assert(t[j] == s[j - 1]);
            if p < s.len() {
                assert(s[p] <= s[j - 1]);
            }
        } else if i == p {
            assert(t[j] == s[j - 1]);
            assert(s[p] <= s[j - 1]);
        } else {
            assert(t[i] == s[i - 1]);
            assert(t[j] == s[j - 1]);
        }
    }
    to_multiset_insert(s, p, a);
}

/// The elements of `v` in ascending order.
pub fn sorted_u32(v: &Vec<u32>) -> (r: Vec<u32>)
    ensures
        ascending(ints_u32(r@)),
        r@.to_multiset() == v@.to_multiset(),
        r@.len() == v@.len(),
{
    let mut out: Vec<u32> = Vec::new();
    let mut k: usize = 0;
    assert(v@.take(0) == Seq::<u32>::empty());
    while k < v.len()
        invariant
            k <= v.len(),
            out@.len() == k,
            ascending(ints_u32(out@)),
            out@.to_multiset() == v@.take(k as int).to_multiset(),
        decreases v.len() - k,
    {
        let x = v[k];
        let mut p: usize = 0;
        while p < out.len() && out[p] <= x
            invariant
                p <= out.len(),
                forall|i: int| 0 <= i < p ==> out@[i] <= x,
            decreases out.len() - p,
        {
            p += 1;
        }
        proof {
            let s = ints_u32(out@);
            lemma_insert_keeps_order(s, p as int, x as int);
            assert(ints_u32(out@.insert(p as int, x)) == s.insert(p as int, x as int));
            to_multiset_insert(out@, p as int, x);
            assert(v@.take(k + 1) == v@.take(k as int).push(x));
            to_multiset_build(v@.take(k as int), x);
        }
        out.insert(p, x);
        k += 1;
    }
    assert(v@.take(v.len() as int) == v@);
    out
}

/// The elements of `v` in ascending order.
pub fn sorted_usize(v: &Vec<usize>) -> (r: Vec<usize>)
    ensures
        ascending(ints_usize(r@)),
        r@.to_multiset() == v@.to_multiset(),
        r@.len() == v@.len(),
{
    let mut out: Vec<usize> = Vec::new();
    let mut k: usize = 0;
    assert(v@.take(0) == Seq::<usize>::empty());
    while k < v.len()
        invariant
            k <= v.len(),
            out@.len() == k,
            ascending(ints_usize(out@)),
            out@.to_multiset() == v@.take(k as int).to_multiset(),
        decreases v.len() - k,
    {
        let x = v[k];
        let mut p: usize = 0;
        while p < out.len() && out[p] <= x
            invariant
                p <= out.len(),
                forall|i: int| 0 <= i < p ==> out@[i] <= x,
            decreases out.len() - p,
        {
            p += 1;
        }
        proof {
            let s = ints_usize(out@);
            lemma_insert_keeps_order(s, p as int, x as int);
            assert(ints_usize(out@.insert(p as int, x)) == s.insert(p as int, x as int));
            to_multiset_insert(out@, p as int, x);
            assert(v@.take(k + 1) == v@.take(k as int).push(x));
            to_multiset_build(v@.take(k as int), x);
        }
        out.insert(p, x);
        k += 1;
    }
    assert(v@.take(v.len() as int) == v@);
    out
}

} // verus!
