//! Functions and a struct that hand back what they borrowed.

use crate::text::{find_char, first_index_of, lemma_first_index_of};
use vstd::prelude::*;
use vstd::string::StrSliceExecFns;

verus! {

/// The longer of two strings, by the bytes they take: `y` where they take
/// the same.
pub fn longest<'a>(x: &'a str, y: &'a str) -> (r: &'a str)
    ensures
        r@ == if x.len() > y.len() {
            x@
        } else {
            y@
        },
{
    if x.len() > y.len() {
        x
    } else {
        y
    }
}

/// What stands before the first full stop of `x`: all of `x` where it holds none.
pub fn first_word(x: &str) -> (word: &str)
    ensures
        word@ == x@.take(first_index_of(x@, '.')),
{
    let end = find_char(x, '.');
    proof {
        lemma_first_index_of(x@, '.');
    }
    x.substring_char(0, end)
}

/// A piece of a text that lives somewhere else.
pub struct Excerpt<'a> {
    pub text: &'a str,
}

impl<'a> Excerpt<'a> {
    /// The excerpt that holds `slice`.
    pub fn from(slice: &str) -> (excerpt: Excerpt<'_>)
        ensures
            excerpt.text@ == slice@,
    {
        Excerpt { text: slice }
    }

    /// The text of the excerpt.
    pub fn text(&self) -> (text: &str)
        ensures
            text@ == self.text@,
    {
        self.text
    }

    /// Hands `slice` back, for as long as `slice` itself lives.
    pub fn echo1<'b>(&self, slice: &'b str) -> (echo: &'b str)
        ensures
            echo@ == slice@,
    {
        slice
    }

    /// Hands `slice` back, for as long as the text of the excerpt lives.
    pub fn echo2(&self, slice: &'a str) -> (echo: &'a str)
        ensures
            echo@ == slice@,
    {
        slice
    }

    /// The text of the excerpt, as a string of its own.
    pub fn to_string(&self) -> (s: String)
        ensures
            s@ == self.text@,
    {
        self.text.to_owned()
    }
}

} // verus!
