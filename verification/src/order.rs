//! What it means for an element type to be orderable: its `==` and
//! `partial_cmp` agree with their specifications and behave as a total order.

use core::cmp::Ordering;
use vstd::prelude::*;
use vstd::std_specs::cmp::PartialEqSpec;
use vstd::std_specs::cmp::PartialOrdSpec;

verus! {

/// `a` sits at or below `b` in `T`'s ordering: comparing them answers
/// `Less` or `Equal`.
pub open spec fn cmp_le<T: PartialOrd>(a: T, b: T) -> bool {
    a.partial_cmp_spec(&b) matches Some(Ordering::Less | Ordering::Equal)
}

/// `T` is orderable: `==` and `partial_cmp` follow their specifications,
/// every pair of values is comparable, equality coincides with comparing
/// `Equal`, the strict order and equality are symmetric in the expected way,
/// and the at-or-below relation is transitive. Integer types satisfy all of
/// this; so does any well-behaved `PartialOrd` that is total on its values.
pub open spec fn orderable<T: PartialOrd>() -> bool {
    &&& T::obeys_eq_spec()
    &&& T::obeys_partial_cmp_spec()
    &&& forall|x: T, y: T|
        #![trigger x.eq_spec(&y)]
        #![trigger x.partial_cmp_spec(&y)]
        x.eq_spec(&y) <==> x.partial_cmp_spec(&y) == Some(Ordering::Equal)
    &&& forall|x: T, y: T| (#[trigger] x.partial_cmp_spec(&y)) is Some
    &&& forall|x: T, y: T|
        #[trigger] x.partial_cmp_spec(&y) == Some(Ordering::Less) <==> y.partial_cmp_spec(&x)
            == Some(Ordering::Greater)
    &&& forall|x: T, y: T|
        #[trigger] x.partial_cmp_spec(&y) == Some(Ordering::Equal) ==> y.partial_cmp_spec(&x)
            == Some(Ordering::Equal)
    &&& forall|x: T, y: T, z: T|
        #![trigger cmp_le(x, y), cmp_le(y, z)]
        cmp_le(x, y) && cmp_le(y, z) ==> cmp_le(x, z)
}

} // verus!
