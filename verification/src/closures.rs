//! A shirt giveaway: the user's preference wins, else the best-stocked
//! colour goes out.

use vstd::prelude::*;

verus! {

#[derive(Debug, PartialEq, Eq, Structural, Copy, Clone)]
pub enum ShirtColor {
    Red,
    Blue,
}

/// How many of the first `n` shirts are red.
pub open spec fn red_count(shirts: Seq<ShirtColor>) -> nat
    decreases shirts.len(),
{
    if shirts.len() == 0 {
        0
    } else {
        red_count(shirts.drop_last()) + if shirts.last() is Red {
            1nat
        } else {
            0nat
        }
    }
}

/// How many of the first `n` shirts are blue.
pub open spec fn blue_count(shirts: Seq<ShirtColor>) -> nat
    decreases shirts.len(),
{
    if shirts.len() == 0 {
        0
    } else {
        blue_count(shirts.drop_last()) + if shirts.last() is Blue {
            1nat
        } else {
            0nat
        }
    }
}

pub struct Inventory {
    pub shirts: Vec<ShirtColor>,
}

impl Inventory {
    /// The colour with the larger stock; ties go to blue.
    pub open spec fn spec_most_stocked(&self) -> ShirtColor {
        if red_count(self.shirts@) > blue_count(self.shirts@) {
            ShirtColor::Red
        } else {
            ShirtColor::Blue
        }
    }

    /// The preferred colour when one was given, the best-stocked one
    /// otherwise.
    pub fn giveaway(&self, user_preference: Option<ShirtColor>) -> (r: ShirtColor)
        ensures
            user_preference matches Some(c) ==> r == c,
            user_preference is None ==> r == self.spec_most_stocked(),
    {
        match user_preference {
            Some(c) => c,
            None => self.most_stocked(),
        }
    }

    pub fn most_stocked(&self) -> (r: ShirtColor)
        ensures
            r == self.spec_most_stocked(),
    {
        let mut num_red: usize = 0;
        let mut num_blue: usize = 0;
        let mut i: usize = 0;
        while i < self.shirts.len()
            invariant
                i <= self.shirts@.len(),
                num_red == red_count(self.shirts@.take(i as int)),
                num_blue == blue_count(self.shirts@.take(i as int)),
                num_red + num_blue == i,
            decreases self.shirts@.len() - i,
        {
            proof {
                assert(self.shirts@.take(i + 1 as int).drop_last()
                    =~= self.shirts@.take(i as int));
                assert(self.shirts@.take(i + 1 as int).last() == self.shirts@[i as int]);
            }
            match self.shirts[i] {
                ShirtColor::Red => num_red += 1,
                ShirtColor::Blue => num_blue += 1,
            }
            i += 1;
        }
        proof {
            assert(self.shirts@.take(self.shirts@.len() as int) =~= self.shirts@);
        }
        if num_red > num_blue {
            ShirtColor::Red
        } else {
            ShirtColor::Blue
        }
    }
}

} // verus!
