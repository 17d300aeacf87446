//! A score table keyed by team name.

use vstd::prelude::*;
use vstd::string::*;
use vstd::hash_map::StringHashMap;

verus! {

/// A fresh score table holding blue at 10 and yellow at 50.
pub fn new_hash_map() -> (r: StringHashMap<i32>)
    ensures
        r@ == Map::<Seq<char>, i32>::empty().insert("blue"@, 10).insert("yellow"@, 50),
{
    let mut scores = StringHashMap::<i32>::new();
    scores.insert(String::from_str("blue"), 10);
    scores.insert(String::from_str("yellow"), 50);
    scores
}

} // verus!
