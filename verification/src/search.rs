//! Binary search over a sorted slice, generic over any orderable element
//! type.

use core::cmp::Ordering;
use vstd::prelude::*;
use vstd::slice::slice_index_get;
use vstd::std_specs::cmp::PartialEqSpec;
use vstd::std_specs::cmp::PartialOrdSpec;

use crate::order::cmp_le;
use crate::order::orderable;

verus! {

/// `s` is sorted in non-decreasing order under `T`'s comparison.
pub open spec fn sorted<T: PartialOrd>(s: Seq<T>) -> bool {
    forall|i: int, j: int| #![trigger s[i], s[j]] 0 <= i <= j < s.len() ==> cmp_le(s[i], s[j])
}

/// Binary search: locate `target` in the sorted slice `collection` and
/// report the index of a matching element, or a miss when no element
/// matches. The window `[lo, hi)` always holds every still-possible match,
/// shrinks at every step, and the answer is exact in both directions.
pub fn bin_search<T: PartialOrd>(target: &T, collection: &[T]) -> (r: Option<usize>)
    requires
        orderable::<T>(),
        sorted(collection@),
    ensures
        // A reported index is in range and holds a match for the target.
        r matches Some(m) ==> m < collection@.len() && target.eq_spec(&collection@[m as int]),
        // Presence: if some element matches the target, the search finds one.
        (exists|i: int|
            0 <= i < collection@.len() && target.eq_spec(&collection@[i])) ==> r is Some,
        // Absence: if no element matches the target, the search reports a miss.
        (forall|i: int|
            0 <= i < collection@.len() ==> !target.eq_spec(&collection@[i])) ==> r is None,
        // An empty collection always reports a miss.
        collection@.len() == 0 ==> r is None,
        // Over a single element the answer is exact: index zero on a match,
        // a miss otherwise.
        collection@.len() == 1 ==> (r == Some(0usize) <==> target.eq_spec(&collection@[0])),
{
    let mut lo: usize = 0;
    let mut hi: usize = collection.len();

    while lo < hi
        invariant
            lo <= hi <= collection@.len(),
            orderable::<T>(),
            sorted(collection@),
            // Every index outside the window is already known not to match.
            forall|i: int| 0 <= i < lo ==> !target.eq_spec(&collection@[i]),
            forall|i: int| hi <= i < collection@.len() ==> !target.eq_spec(&collection@[i]),
        decreases hi - lo,
    {
        let m: usize = (hi - lo) / 2 + lo;

        let elem: &T = slice_index_get(collection, m);
        if *target == *elem {
            return Some(m);
        } else if *target < *elem {
            proof {
                lemma_no_match_at_or_above::<T>(*target, collection@, m as int);
            }
            hi = m;
        } else {
            proof {
                // The comparison is neither `Equal` (the first test failed)
                // nor `Less` (the second did), so by totality it is `Greater`.
                assert(target.partial_cmp_spec(&collection@[m as int]) == Some(
                    Ordering::Greater,
                )) by {
                    assert(target.partial_cmp_spec(&collection@[m as int]) is Some);
                    let o = target.partial_cmp_spec(&collection@[m as int])->Some_0;
                    match o {
                        Ordering::Less => {}
                        Ordering::Equal => {}
                        Ordering::Greater => {}
                    }
                }
                lemma_no_match_at_or_below::<T>(*target, collection@, m as int);
            }
            lo = m + 1;
        }
    }

    None
}

/// When the target compares strictly below the element at `m` of a sorted
/// sequence, no element at `m` or above can match it.
proof fn lemma_no_match_at_or_above<T: PartialOrd>(target: T, s: Seq<T>, m: int)
    requires
        orderable::<T>(),
        sorted(s),
        0 <= m < s.len(),
        target.partial_cmp_spec(&s[m]) == Some(Ordering::Less),
    ensures
        forall|i: int| m <= i < s.len() ==> !target.eq_spec(&s[i]),
{
    assert forall|i: int| m <= i < s.len() implies !target.eq_spec(&s[i]) by {
        assert(cmp_le(s[m], s[i]));
        if target.eq_spec(&s[i]) {
            assert(s[i].partial_cmp_spec(&target) == Some(Ordering::Equal));
            assert(cmp_le(s[i], target));
            assert(cmp_le(s[m], target));
            assert(s[m].partial_cmp_spec(&target) == Some(Ordering::Greater));
            assert(false);
        }
    }
}

/// When the target compares strictly above the element at `m` of a sorted
/// sequence, no element at `m` or below can match it.
proof fn lemma_no_match_at_or_below<T: PartialOrd>(target: T, s: Seq<T>, m: int)
    requires
        orderable::<T>(),
        sorted(s),
        0 <= m < s.len(),
        target.partial_cmp_spec(&s[m]) == Some(Ordering::Greater),
    ensures
        forall|i: int| 0 <= i <= m ==> !target.eq_spec(&s[i]),
{
    assert forall|i: int| 0 <= i <= m implies !target.eq_spec(&s[i]) by {
        assert(cmp_le(s[i], s[m]));
        if target.eq_spec(&s[i]) {
            assert(target.partial_cmp_spec(&s[i]) == Some(Ordering::Equal));
            assert(cmp_le(target, s[i]));
            assert(cmp_le(target, s[m]));
            assert(false);
        }
    }
}

} // verus!
