//! Moving strings in and out of functions.

use vstd::prelude::*;
use vstd::string::*;
use vstd::utf8::encode_utf8;

verus! {

/// Makes a string and hands it to the caller.
pub fn gives_ownership() -> (r: String)
    ensures
        r@ == "yours"@,
{
    String::from_str("yours")
}

/// Takes a string and returns the very same one.
pub fn takes_and_gives_back(string: String) -> (r: String)
    ensures
        r == string,
{
    string
}

/// Returns the string together with its length in bytes.
pub fn calculate_length(s: String) -> (r: (String, usize))
    ensures
        r.0 == s,
        r.1 == encode_utf8(s@).len(),
{
    let length = s.as_str().as_bytes().len();
    (s, length)
}

/// Moving strings around: a made string and a returned one both end their
/// lives here.
#[allow(unused_variables)]
pub fn example2() {
    let s1 = gives_ownership();
    let s2 = String::from_str("Hello");
    let s3 = takes_and_gives_back(s2);
}

} // verus!
