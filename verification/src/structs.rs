//! Two dice.

use crate::chance::draw_u8;
use vstd::prelude::*;

verus! {

/// What two dice show.
#[derive(Debug)]
pub struct DiceRoll {
    pub left: u8,
    pub right: u8,
}

impl DiceRoll {
    /// Whether both numbers are sides of a die.
    pub open spec fn fair(self) -> bool {
        1 <= self.left <= 6 && 1 <= self.right <= 6
    }

    /// The sum of the two numbers, which has to fit in a byte.
    pub fn total(&self) -> (sum: u8)
        requires
            self.left + self.right <= u8::MAX,
        ensures
            sum == self.left + self.right,
    {
        self.left + self.right
    }

    /// The larger of the two numbers.
    pub fn max(&self) -> (m: u8)
        ensures
            m == if self.left > self.right {
                self.left
            } else {
                self.right
            },
    {
        if self.left > self.right {
            self.left
        } else {
            self.right
        }
    }

    /// The smaller of the two numbers.
    pub fn min(&self) -> (m: u8)
        ensures
            m == if self.left < self.right {
                self.left
            } else {
                self.right
            },
    {
        if self.left < self.right {
            self.left
        } else {
            self.right
        }
    }

    /// The roll that shows `l` and `r`.
    pub fn from(l: u8, r: u8) -> (roll: DiceRoll)
        ensures
            roll.left == l,
            roll.right == r,
    {
        DiceRoll { left: l, right: r }
    }

    /// Two dice, thrown: each shows one of its six sides.
    pub fn random() -> (roll: DiceRoll)
        ensures
            roll.fair(),
    {
        let l = draw_u8(1, 7);
        let r = draw_u8(1, 7);
        DiceRoll { left: l, right: r }
    }

    /// Throws both dice again.
    pub fn reroll(&mut self)
        ensures
            final(self).fair(),
    {
        let roll = DiceRoll::random();
        self.left = roll.left;
        self.right = roll.right;
    }
}

/// A roll as a plain pair: a one and a four.
pub fn roll2() -> (pair: (u8, u8))
    ensures
        pair == (1u8, 4u8),
{
    return (1, 4);
}

/// The same roll as a struct.
pub fn roll() -> (r: DiceRoll)
    ensures
        r.left == 1,
        r.right == 4,
{
    return DiceRoll { left: 1, right: 4 };
}

} // verus!
