//! Finding the spaces that separate the words of a sentence.

use vstd::prelude::*;
use vstd::utf8::encode_utf8;

verus! {

/// The indices, ascending, at which a space occurs among the first `n`
/// bytes.
pub open spec fn space_indexes(bytes: Seq<u8>, n: int) -> Seq<usize>
    decreases n,
{
    if n <= 0 {
        Seq::empty()
    } else {
        space_indexes(bytes, n - 1) + (if bytes[n - 1] == 32 {
            seq![(n - 1) as usize]
        } else {
            Seq::empty()
        })
    }
}

/// The byte positions of the spaces that separate the words of `s`,
/// in ascending order.
pub fn find_word_indexes(s: &String) -> (r: Vec<usize>)
    ensures
        r@ == space_indexes(encode_utf8(s@), encode_utf8(s@).len() as int),
{
    let bytes: &[u8] = s.as_str().as_bytes();
    let ghost bs = encode_utf8(s@);
    let mut v: Vec<usize> = Vec::new();
    let n = bytes.len();
    let mut i: usize = 0;
    while i < n
        invariant
            bytes@ == bs,
            n == bs.len(),
            i <= n,
            v@ == space_indexes(bs, i as int),
        decreases n - i,
    {
        let item = bytes[i];
        let ghost v0 = v@;
        // 32 is the space byte
        if item == 32 {
            v.push(i);
            proof {
                assert(v@ =~= v0 + seq![i]);
            }
        } else {
            proof {
                assert(v@ =~= v0 + Seq::<usize>::empty());
            }
        }
        i += 1;
    }
    v
}

} // verus!
