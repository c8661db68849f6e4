//! A point in space, over any type of coordinate.

use crate::generics::{copy_of_largest, exceeds, has_order, largest_index};
use vstd::prelude::*;

verus! {

/// A point with three coordinates of one type.
pub struct Point<T> {
    x: T,
    y: T,
    z: T,
}

/// The later of two values unless the earlier is at least as large: `b` where
/// it exceeds `a`, else `a`.
pub open spec fn larger_of<T: PartialOrd>(a: T, b: T) -> T {
    if exceeds(b, a) {
        b
    } else {
        a
    }
}

impl<T> Point<T> {
    /// The three coordinates, as contracts see them.
    pub closed spec fn coords(self) -> (T, T, T) {
        (self.x, self.y, self.z)
    }

    /// The point with the coordinates `x`, `y` and `z`.
    pub fn of(x: T, y: T, z: T) -> (p: Point<T>)
        ensures
            p.coords() == (x, y, z),
    {
        Point { x: x, y: y, z: z }
    }

    /// The first coordinate.
    pub fn x(&self) -> (x: &T)
        ensures
            *x == self.coords().0,
    {
        &self.x
    }

    /// The second coordinate.
    pub fn y(&self) -> (y: &T)
        ensures
            *y == self.coords().1,
    {
        &self.y
    }

    /// The third coordinate.
    pub fn z(&self) -> (z: &T)
        ensures
            *z == self.coords().2,
    {
        &self.z
    }
}

impl<T: PartialOrd + Copy> Point<T> {
    /// The largest of the three coordinates: the third unless the larger of
    /// the first two exceeds it.
    pub fn largest_coord(&self) -> (max: T)
        ensures
            max == self.coords().0 || max == self.coords().1 || max == self.coords().2,
            has_order::<T>() ==> max == larger_of(
                self.coords().2,
                larger_of(self.coords().0, self.coords().1),
            ),
    {
        let first = [self.x, self.y];
        let l1 = copy_of_largest(first.as_slice());
        proof {
            assert(largest_index(first@, 1) == 0);
        }
        let second = [self.z, l1];
        let l2 = copy_of_largest(second.as_slice());
        proof {
            assert(largest_index(second@, 1) == 0);
        }
        l2
    }
}

} // verus!
