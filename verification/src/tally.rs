//! A count that several workers raise, each in its turn.
//!
//! The workers share the count behind a lock, so that one of them at a time
//! reads it and writes it back. Whatever the order in which they come to hold
//! the lock, what happens to the count is one step after another.

use vstd::prelude::*;

verus! {

/// The count after the workers of `schedule` have had their turn, in that
/// order. A schedule names the workers in the order in which they got the lock.
pub open spec fn after_schedule(start: int, schedule: Seq<nat>) -> int
    decreases schedule.len(),
{
    if schedule.len() == 0 {
        start
    } else {
        after_schedule(start, schedule.drop_last()) + 1
    }
}

/// What one worker does while it holds the lock: it raises the count by one.
pub fn bump(count: &mut i32)
    requires
        *old(count) < i32::MAX,
    ensures
        *final(count) == *old(count) + 1,
{
    *count += 1;
}

/// The count after `workers` workers have had their turn, one after the other.
pub fn run_in_turn(start: i32, workers: u32) -> (count: i32)
    requires
        start + workers <= i32::MAX,
    ensures
        count == start + workers,
{
    let mut count = start;
    let mut done: u32 = 0;
    while done < workers
        invariant
            done <= workers,
            count == start + done,
            start + workers <= i32::MAX,
        decreases workers - done,
    {
        bump(&mut count);
        done = done + 1;
    }
    count
}

/// The count at the end depends on how many workers there were, and not on
/// the order in which they took their turn.
pub proof fn law_every_schedule_counts_alike(start: int, schedule: Seq<nat>)
    ensures
        after_schedule(start, schedule) == start + schedule.len(),
    decreases schedule.len(),
{
    if schedule.len() > 0 {
        law_every_schedule_counts_alike(start, schedule.drop_last());
    }
}

} // verus!
