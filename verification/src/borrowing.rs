//! Reading and changing a string through a reference.

use vstd::prelude::*;
use vstd::string::StringExecFns;
use vstd::utf8::encode_utf8;

verus! {

/// The length of `s` in bytes, as it is encoded.
pub fn calculate_length(s: &String) -> (len: usize)
    ensures
        len == encode_utf8(s@).len() as usize,
{
    s.as_str().len()
}

/// Appends three dots to `s`.
pub fn modify_string(s: &mut String)
    ensures
        final(s)@ == old(s)@ + "..."@,
{
    s.append("...");
}

} // verus!
