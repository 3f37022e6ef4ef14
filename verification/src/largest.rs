//! Maximum-element scan over a non-empty slice.

use vstd::prelude::*;
use vstd::std_specs::cmp::PartialOrdSpec;

use crate::order::cmp_le;
use crate::order::orderable;

verus! {

/// The largest value in a non-empty slice, generic over any orderable
/// element type: it is one of the elements and every element sits at or
/// below it in `T`'s ordering.
pub fn largest<T: PartialOrd + Copy>(list: &[T]) -> (r: T)
    requires
        orderable::<T>(),
        list@.len() > 0,
    ensures
        exists|i: int| 0 <= i < list@.len() && r == list@[i],
        forall|i: int| 0 <= i < list@.len() ==> cmp_le(list@[i], r),
{
    let mut largest: T = *vstd::slice::slice_index_get(list, 0);
    let mut k: usize = 0;

    while k < list.len()
        invariant
            k <= list@.len(),
            list@.len() > 0,
            orderable::<T>(),
            exists|i: int| 0 <= i < list@.len() && largest == list@[i],
            forall|i: int| 0 <= i < k ==> cmp_le(list@[i], largest),
        decreases list@.len() - k,
    {
        let item: T = *vstd::slice::slice_index_get(list, k);
        if item > largest {
            proof {
                lemma_greater_stays_above::<T>(item, largest, list@, k as int);
            }
            largest = item;
        } else {
            proof {
                lemma_not_greater_is_at_or_below::<T>(item, largest);
            }
        }
        k = k + 1;
    }

    largest
}

/// A value that compares strictly above the running maximum also sits at or
/// above everything the running maximum already dominates, itself included.
proof fn lemma_greater_stays_above<T: PartialOrd>(item: T, prev: T, s: Seq<T>, k: int)
    requires
        orderable::<T>(),
        0 <= k < s.len(),
        s[k] == item,
        item.partial_cmp_spec(&prev) == Some(core::cmp::Ordering::Greater),
        forall|i: int| 0 <= i < k ==> cmp_le(s[i], prev),
    ensures
        forall|i: int| 0 <= i < k + 1 ==> cmp_le(s[i], item),
{
    assert(prev.partial_cmp_spec(&item) == Some(core::cmp::Ordering::Less));
    assert(cmp_le(prev, item));
    lemma_reflexive::<T>(item);
    assert forall|i: int| 0 <= i < k + 1 implies cmp_le(s[i], item) by {
        if i < k {
            assert(cmp_le(s[i], prev));
        }
    }
}

/// A value that does not compare strictly above another sits at or below it.
proof fn lemma_not_greater_is_at_or_below<T: PartialOrd>(item: T, prev: T)
    requires
        orderable::<T>(),
        item.partial_cmp_spec(&prev) != Some(core::cmp::Ordering::Greater),
    ensures
        cmp_le(item, prev),
{
    assert(item.partial_cmp_spec(&prev) is Some);
    let o = item.partial_cmp_spec(&prev)->Some_0;
    match o {
        core::cmp::Ordering::Less => {}
        core::cmp::Ordering::Equal => {}
        core::cmp::Ordering::Greater => {}
    }
}

/// Every value sits at or below itself: the comparison of a value with
/// itself can only answer `Equal`.
proof fn lemma_reflexive<T: PartialOrd>(x: T)
    requires
        orderable::<T>(),
    ensures
        cmp_le(x, x),
{
    assert(x.partial_cmp_spec(&x) is Some);
    let o = x.partial_cmp_spec(&x)->Some_0;
    match o {
        core::cmp::Ordering::Less => {
            assert(x.partial_cmp_spec(&x) == Some(core::cmp::Ordering::Greater));
        }
        core::cmp::Ordering::Equal => {}
        core::cmp::Ordering::Greater => {
            assert(x.partial_cmp_spec(&x) == Some(core::cmp::Ordering::Less));
        }
    }
}

/// The largest value in a non-empty slice of machine integers: it is one of
/// the elements and no element exceeds it.
pub fn largest_i32(list: &[i32]) -> (r: i32)
    requires
        list@.len() > 0,
    ensures
        exists|i: int| 0 <= i < list@.len() && r == list@[i],
        forall|i: int| 0 <= i < list@.len() ==> list@[i] <= r,
{
    let mut largest: i32 = *vstd::slice::slice_index_get(list, 0);
    let mut k: usize = 0;

    while k < list.len()
        invariant
            k <= list@.len(),
            list@.len() > 0,
            exists|i: int| 0 <= i < list@.len() && largest == list@[i],
            forall|i: int| 0 <= i < k ==> list@[i] <= largest,
        decreases list@.len() - k,
    {
        let item: i32 = *vstd::slice::slice_index_get(list, k);
        if item > largest {
            largest = item;
        }
        k = k + 1;
    }

    largest
}

/// The largest value in a non-empty slice of characters, by code point.
pub fn largest_char(list: &[char]) -> (r: char)
    requires
        list@.len() > 0,
    ensures
        exists|i: int| 0 <= i < list@.len() && r == list@[i],
        forall|i: int| 0 <= i < list@.len() ==> list@[i] <= r,
{
    let mut largest: char = *vstd::slice::slice_index_get(list, 0);
    let mut k: usize = 0;

    while k < list.len()
        invariant
            k <= list@.len(),
            list@.len() > 0,
            exists|i: int| 0 <= i < list@.len() && largest == list@[i],
            forall|i: int| 0 <= i < k ==> list@[i] <= largest,
        decreases list@.len() - k,
    {
        let item: char = *vstd::slice::slice_index_get(list, k);
        if item > largest {
            largest = item;
        }
        k = k + 1;
    }

    largest
}

} // verus!
