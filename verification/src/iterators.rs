//! A sequence that is produced one item at a time.

use vstd::prelude::*;

verus! {

/// Counts from 1 to 5, and then is done.
pub struct Counter {
    count: u32,
}

impl Counter {
    /// The last number that was handed out: 0 before the first.
    pub closed spec fn position(self) -> nat {
        self.count as nat
    }

    /// What is still to come, in order.
    pub open spec fn remaining(self) -> Seq<u32> {
        Seq::new(
            if self.position() < 5 {
                (5 - self.position()) as nat
            } else {
                0
            },
            |i: int| (self.position() + 1 + i) as u32,
        )
    }

    /// A counter that has handed out nothing yet.
    pub fn new() -> (counter: Counter)
        ensures
            counter.position() == 0,
            counter.remaining() == seq![1u32, 2u32, 3u32, 4u32, 5u32],
    {
        let counter = Counter { count: 0 };
        assert(counter.remaining() =~= seq![1u32, 2u32, 3u32, 4u32, 5u32]);
        counter
    }

    /// The next number, or `None` once 5 has been handed out. A counter that is
    /// done stays done.
    pub fn next(&mut self) -> (item: Option<u32>)
        ensures
            match item {
                Some(n) => {
                    &&& old(self).position() < 5
                    &&& n == old(self).position() + 1
                    &&& final(self).position() == n
                    &&& old(self).remaining().len() > 0
                    &&& n == old(self).remaining()[0]
                    &&& final(self).remaining() == old(self).remaining().skip(1)
                },
                None => {
                    &&& old(self).position() >= 5
                    &&& final(self).position() == old(self).position()
                    &&& old(self).remaining().len() == 0
                },
            },
    {
        if self.count < 5 {
            self.count += 1;
            assert(self.remaining() =~= old(self).remaining().skip(1));
            Some(self.count)
        } else {
            None
        }
    }
}

} // verus!
