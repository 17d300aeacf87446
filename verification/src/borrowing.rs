//! Borrowed and mutable access to strings.

use vstd::prelude::*;
use vstd::string::*;
use vstd::utf8::encode_utf8;

verus! {

/// The length of the borrowed string, in bytes.
pub fn calculate_length(s: &String) -> (r: usize)
    ensures
        r == encode_utf8(s@).len(),
{
    s.as_str().as_bytes().len()
}

/// Appends `", World!"` in place.
pub fn change_value(s: &mut String)
    ensures
        final(s)@ == old(s)@ + ", World!"@,
{
    s.append(", World!");
}

} // verus!
