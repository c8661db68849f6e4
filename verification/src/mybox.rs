//! A box of one's own.

use std::ops::Deref;
use std::ops::DerefMut;
use vstd::prelude::*;

verus! {

/// A wrapper around one value, which it hands out by reference.
pub struct MyBox<T>(T);

impl<T> MyBox<T> {
    /// What the box holds.
    pub closed spec fn content(self) -> T {
        self.0
    }

    /// The box that holds `t`.
    pub fn new(t: T) -> (b: MyBox<T>)
        ensures
            b.content() == t,
    {
        MyBox(t)
    }
}

impl<T> Deref for MyBox<T> {
    type Target = T;

    fn deref(&self) -> (r: &T)
        ensures
            *r == self.content(),
    {
        &self.0
    }
}

impl<T> DerefMut for MyBox<T> {
    fn deref_mut(&mut self) -> (r: &mut T)
        ensures
            *r == old(self).content(),
            final(self).content() == *final(r),
    {
        &mut self.0
    }
}

} // verus!
