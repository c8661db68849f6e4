//! Cutting a field out of a line.

use crate::text::{find_char, first_index_of, lemma_first_index_of};
use vstd::prelude::*;
use vstd::string::StrSliceExecFns;

verus! {

/// Field number `n` of `s`, where a single blank ends a field and the count
/// starts at 0.
///
/// What follows the last blank is a field too, and it is the answer for every
/// `n` that is too large: where `s` holds no blank at all, the field is `s`.
pub open spec fn field(s: Seq<char>, n: nat) -> Seq<char>
    decreases n,
{
    let blank = first_index_of(s, ' ');
    if blank >= s.len() {
        s
    } else if n == 0 {
        s.take(blank)
    } else {
        field(s.skip(blank + 1), (n - 1) as nat)
    }
}

/// Field number `n` of `s`: see [`field`].
pub fn get_slice(s: &str, n: usize) -> (piece: &str)
    ensures
        piece@ == field(s@, n as nat),
{
    let mut rest = s;
    let mut skip = n;
    loop
        invariant
            field(rest@, skip as nat) == field(s@, n as nat),
        decreases skip,
    {
        let blank = find_char(rest, ' ');
        let len = rest.unicode_len();
        proof {
            lemma_first_index_of(rest@, ' ');
        }
        if blank >= len {
            return rest;
        }
        if skip == 0 {
            return rest.substring_char(0, blank);
        }
        rest = rest.substring_char(blank + 1, len);
        skip = skip - 1;
    }
}

} // verus!
