//! A shirt giveaway: the preferred color, or the most stocked one.

use vstd::prelude::*;
use crate::text::lemma_filter_push;

verus! {

/// The colors the shop stocks.
#[derive(Debug, Clone, Copy, PartialEq, Eq, Structural)]
pub enum ShirtColor {
    Red,
    Blue,
}

/// A shirt inventory.
pub struct Inventory {
    pub shirts: Vec<ShirtColor>,
}

/// The predicate selecting shirts of color `c`.
pub open spec fn is_color(c: ShirtColor) -> spec_fn(ShirtColor) -> bool {
    |x: ShirtColor| x == c
}

/// The number of shirts of color `c`.
pub open spec fn color_count(shirts: Seq<ShirtColor>, c: ShirtColor) -> nat {
    shirts.filter(is_color(c)).len()
}

/// The color with the most stock; blue wins ties.
pub open spec fn most_stocked_spec(shirts: Seq<ShirtColor>) -> ShirtColor {
    if color_count(shirts, ShirtColor::Red) > color_count(shirts, ShirtColor::Blue) {
        ShirtColor::Red
    } else {
        ShirtColor::Blue
    }
}

impl Inventory {
    /// The color with the most shirts in stock; blue wins ties.
    pub fn most_stocked(&self) -> (r: ShirtColor)
        ensures
            r == most_stocked_spec(self.shirts@),
    {
        let mut num_red: usize = 0;
        let mut num_blue: usize = 0;
        let mut i: usize = 0;
        proof {
            reveal(Seq::filter);
            assert(self.shirts@.subrange(0, 0) =~= Seq::<ShirtColor>::empty());
        }
        while i < self.shirts.len()
            invariant
                i <= self.shirts@.len(),
                num_red <= i,
                num_blue <= i,
                num_red == color_count(self.shirts@.subrange(0, i as int), ShirtColor::Red),
                num_blue == color_count(self.shirts@.subrange(0, i as int), ShirtColor::Blue),
            decreases self.shirts@.len() - i,
        {
            let ghost prefix = self.shirts@.subrange(0, i as int);
            let c = self.shirts[i];
            match c {
                ShirtColor::Red => {
                    num_red += 1;
                },
                ShirtColor::Blue => {
                    num_blue += 1;
                },
            }
            proof {
                lemma_filter_push(prefix, c, is_color(ShirtColor::Red));
                lemma_filter_push(prefix, c, is_color(ShirtColor::Blue));
                assert(self.shirts@.subrange(0, i as int + 1) =~= prefix.push(c));
            }
            i += 1;
        }
        proof {
            assert(self.shirts@.subrange(0, self.shirts@.len() as int) =~= self.shirts@);
        }
        if num_red > num_blue {
            ShirtColor::Red
        } else {
            ShirtColor::Blue
        }
    }

    /// The preferred color when one was given, else the most stocked color.
    pub fn giveaway(&self, user_preference: Option<ShirtColor>) -> (r: ShirtColor)
        ensures
            r == match user_preference {
                Option::Some(c) => c,
                Option::None => most_stocked_spec(self.shirts@),
            },
    {
        match user_preference {
            Some(c) => c,
            None => self.most_stocked(),
        }
    }
}

} // verus!
