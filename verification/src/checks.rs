//! Small checked utilities: an exact addition, a greeting builder, and a
//! guess wrapper with a range invariant.

use vstd::prelude::*;
use vstd::string::*;

verus! {

/// Sum of two machine words; the caller guarantees the sum fits.
pub fn add(left: usize, right: usize) -> (r: usize)
    requires
        left + right <= usize::MAX,
    ensures
        r == left + right,
{
    left + right
}

/// Builds the greeting `"Hello <name>!"`.
pub fn greeting(name: &str) -> (r: String)
    ensures
        r@ == "Hello "@ + name@ + "!"@,
{
    let mut s = String::from_str("Hello ");
    s.append(name);
    s.append("!");
    proof {
        assert(s@ =~= "Hello "@ + name@ + "!"@);
    }
    s
}

/// A guess in a guessing game; the stored value is always between 1 and 100.
pub struct Guess {
    value: i32,
}

impl Guess {
    /// The number this guess holds.
    pub closed spec fn spec_value(&self) -> i32 {
        self.value
    }

    pub fn new(value: i32) -> (r: Guess)
        requires
            1 <= value <= 100,
        ensures
            r.spec_value() == value,
    {
        Guess { value }
    }
}

} // verus!
