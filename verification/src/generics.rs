//! Functions that work for every type with an order.

use vstd::prelude::*;
use vstd::std_specs::cmp::PartialOrdIs;
use vstd::std_specs::cmp::PartialOrdSpec;

verus! {

/// Whether comparisons of `T` in compiled code agree with its order in contracts.
pub open spec fn has_order<T: PartialOrd>() -> bool {
    T::obeys_partial_cmp_spec()
}

/// Whether `a` is greater than `b` in the order of `T`.
pub open spec fn exceeds<T: PartialOrd>(a: T, b: T) -> bool {
    a.is_gt(&b)
}

/// The place of the largest among the first `n` elements of `s`: the first
/// element that none of the later ones exceeds. An element that cannot be
/// compared with the largest so far does not replace it.
pub open spec fn largest_index<T: PartialOrd>(s: Seq<T>, n: int) -> int
    decreases n,
{
    if n <= 1 {
        0
    } else {
        let best = largest_index(s, n - 1);
        if exceeds(s[n - 1], s[best]) {
            n - 1
        } else {
            best
        }
    }
}

/// The largest stands at a place of the sequence.
pub proof fn lemma_largest_index_in_range<T: PartialOrd>(s: Seq<T>, n: int)
    requires
        0 < n,
    ensures
        0 <= largest_index(s, n) < n,
    decreases n,
{
    if n > 1 {
        lemma_largest_index_in_range(s, n - 1);
    }
}

/// A reference to the largest element of `array`, which must not be empty.
pub fn largest<T: PartialOrd>(array: &[T]) -> (max: &T)
    requires
        array@.len() > 0,
    ensures
        exists|i: int| 0 <= i < array@.len() && *max == array@[i],
        has_order::<T>() ==> *max == array@[largest_index(array@, array@.len() as int)],
{
    let mut best: usize = 0;
    let mut i: usize = 1;
    while i < array.len()
        invariant
            1 <= i <= array@.len(),
            best < i,
            has_order::<T>() ==> best == largest_index(array@, i as int),
        decreases array@.len() - i,
    {
        if array[i] > array[best] {
            best = i;
        }
        i = i + 1;
    }
    &array[best]
}

/// A copy of the largest element of `array`, which must not be empty.
pub fn copy_of_largest<T: PartialOrd + Copy>(array: &[T]) -> (max: T)
    requires
        array@.len() > 0,
    ensures
        exists|i: int| 0 <= i < array@.len() && max == array@[i],
        has_order::<T>() ==> max == array@[largest_index(array@, array@.len() as int)],
{
    let mut max = array[0];
    let ghost mut best: int = 0;
    let mut i: usize = 1;
    while i < array.len()
        invariant
            1 <= i <= array@.len(),
            0 <= best < i,
            max == array@[best],
            has_order::<T>() ==> best == largest_index(array@, i as int),
        decreases array@.len() - i,
    {
        let elem = array[i];
        if elem > max {
            max = elem;
            proof {
                best = i as int;
            }
        }
        i = i + 1;
    }
    max
}

/// Among integers the largest is the maximum, at the first place where it stands.
pub proof fn law_largest_is_maximum(s: Seq<i32>, n: int)
    requires
        0 < n <= s.len(),
    ensures
        forall|j: int| 0 <= j < n ==> (#[trigger] s[j]) <= s[largest_index(s, n)],
        forall|j: int| 0 <= j < largest_index(s, n) ==> (#[trigger] s[j]) < s[largest_index(s, n)],
    decreases n,
{
    lemma_largest_index_in_range(s, n);
    if n > 1 {
        law_largest_is_maximum(s, n - 1);
        lemma_largest_index_in_range(s, n - 1);
    }
}

} // verus!
