//! Generic functions and generic container types.

use vstd::prelude::*;
use vstd::std_specs::cmp::PartialOrdSpec;
use vstd::laws_cmp::obeys_partial_cmp_spec_properties;
use core::cmp::Ordering;

verus! {

/// The greatest element of a non-empty slice: it is one of the elements,
/// and no element compares strictly greater.  The guarantee is meaningful
/// whenever the element type's ordering obeys its specification and the
/// usual order laws.
pub fn largest<T: PartialOrd>(list: &[T]) -> (r: &T)
    requires
        list@.len() > 0,
    ensures
        T::obeys_partial_cmp_spec() && obeys_partial_cmp_spec_properties::<T>() ==> {
            &&& exists|i: int| 0 <= i < list@.len() && list@[i] == *r
            &&& forall|i: int|
                0 <= i < list@.len() ==> #[trigger] list@[i].partial_cmp_spec(r) != Some(
                    Ordering::Greater,
                )
        },
{
    let mut largest: &T = &list[0];
    let mut idx: usize = 1;
    proof {
        if T::obeys_partial_cmp_spec() && obeys_partial_cmp_spec_properties::<T>() {
            reveal(obeys_partial_cmp_spec_properties);
            if list@[0].partial_cmp_spec(&list@[0]) == Some(Ordering::Greater) {
                assert(list@[0].partial_cmp_spec(&list@[0]) == Some(Ordering::Less));
            }
        }
    }
    while idx < list.len()
        invariant
            1 <= idx <= list@.len(),
            exists|j: int| 0 <= j < list@.len() && list@[j] == *largest,
            T::obeys_partial_cmp_spec() && obeys_partial_cmp_spec_properties::<T>()
                ==> forall|i: int|
                0 <= i < idx ==> #[trigger] list@[i].partial_cmp_spec(largest) != Some(
                    Ordering::Greater,
                ),
        decreases list@.len() - idx,
    {
        let item = &list[idx];
        let ghost prev = *largest;
        let gt = item > largest;
        if gt {
            largest = item;
        }
        proof {
            if T::obeys_partial_cmp_spec() && obeys_partial_cmp_spec_properties::<T>() {
                reveal(obeys_partial_cmp_spec_properties);
                assert forall|i: int|
                    0 <= i < idx + 1 implies #[trigger] list@[i].partial_cmp_spec(largest)
                    != Some(Ordering::Greater) by {
                    if gt {
                        if i < idx {
                            assert(list@[i].partial_cmp_spec(&prev) != Some(Ordering::Greater));
                            if list@[i].partial_cmp_spec(largest) == Some(Ordering::Greater) {
                                assert((*item).partial_cmp_spec(&prev) == Some(Ordering::Greater));
                            }
                        } else {
                            if list@[i].partial_cmp_spec(largest) == Some(Ordering::Greater) {
                                assert(list@[i].partial_cmp_spec(largest) == Some(
                                    Ordering::Less,
                                ));
                            }
                        }
                    }
                }
            }
        }
        idx += 1;
    }
    largest
}

/// A point whose coordinates share one type.
pub struct Point<T> {
    pub x: T,
    pub y: T,
}

impl<T> Point<T> {
    /// Read access to the first coordinate.
    pub fn x(&self) -> (r: &T)
        ensures
            *r == self.x,
    {
        &self.x
    }

    /// Read access to the second coordinate.
    pub fn y(&self) -> (r: &T)
        ensures
            *r == self.y,
    {
        &self.y
    }
}

/// A point whose coordinates may have different types.
pub struct MPoint<X1, Y1> {
    pub x: X1,
    pub y: Y1,
}

impl<X1, Y1> MPoint<X1, Y1> {
    /// Combines the first coordinate of `self` with the second of `other`.
    pub fn mixup<X2, Y2>(self, other: MPoint<X2, Y2>) -> (r: MPoint<X1, Y2>)
        ensures
            r.x == self.x,
            r.y == other.y,
    {
        MPoint { x: self.x, y: other.y }
    }
}

/// A pair of values of one type.
pub struct Pair<T> {
    pub x: T,
    pub y: T,
}

impl<T> Pair<T> {
    /// Packs two values into a pair.
    pub fn new(x: T, y: T) -> (r: Self)
        ensures
            r.x == x,
            r.y == y,
    {
        Self { x, y }
    }
}

} // verus!
