//! Values that are computed when they are first asked for.

use crate::chance::draw_u32;
use vstd::prelude::*;

verus! {

/// One roll of a die with `n` sides, numbered from 1.
pub fn roll(n: u32) -> (side: u32)
    requires
        1 <= n < u32::MAX,
    ensures
        1 <= side <= n,
{
    draw_u32(1, n + 1)
}

/// A value that is computed by `init` on the first call of `get`, and kept.
#[verifier::reject_recursive_types(V)]
pub struct LazyU32<T, V: Copy> where T: Fn() -> V {
    init: T,
    result: Option<V>,
}

impl<T, V: Copy> LazyU32<T, V> where T: Fn() -> V {
    /// The function that computes the value.
    pub closed spec fn source(self) -> T {
        self.init
    }

    /// The value, once it has been computed.
    pub closed spec fn cached(self) -> Option<V> {
        self.result
    }

    /// A value that `init` will compute, and has not computed yet.
    pub fn new(init: T) -> (lazy: LazyU32<T, V>)
        ensures
            lazy.source() == init,
            lazy.cached() is None,
    {
        LazyU32 { init: init, result: None }
    }

    /// The value: computed now if this is the first call, and the same as
    /// before if it is not.
    pub fn get(&mut self) -> (value: V)
        requires
            old(self).cached() is None ==> call_requires(old(self).source(), ()),
        ensures
            final(self).source() == old(self).source(),
            final(self).cached() == Some(value),
            match old(self).cached() {
                Some(kept) => value == kept,
                None => call_ensures(old(self).source(), (), value),
            },
    {
        match self.result {
            Some(value) => value,
            None => {
                let value = (self.init)();
                self.result = Some(value);
                value
            },
        }
    }
}

/// What to do today.
pub enum Workout {
    /// Push-ups, then sit-ups.
    Strength { pushups: u32, situps: u32 },
    /// Nothing but water.
    Rest,
    /// A run of so many minutes.
    Run { minutes: u32 },
}

/// The plan for a day on which there is `amount` to do, if anything.
pub open spec fn planned(intensity: u32, random_number: u32, amount: u32) -> Workout {
    if intensity < 25 {
        Workout::Strength { pushups: amount, situps: amount }
    } else if random_number == 3 {
        Workout::Rest
    } else {
        Workout::Run { minutes: amount }
    }
}

/// Whether the day is a day off: a high intensity was wished for, and the
/// number of the day is 3.
pub open spec fn day_off(intensity: u32, random_number: u32) -> bool {
    intensity >= 25 && random_number == 3
}

/// Plans the day from the wished intensity and a number drawn for the day.
///
/// A low intensity asks for strength, a high one for a run, unless the number
/// of the day is 3, which is a day off. How much there is to do is computed by
/// `effort`, which may be slow: it is called at most once, and not at all on
/// a day off.
pub fn generate_workout<F: Fn() -> u32>(intensity: u32, random_number: u32, effort: F) -> (plan:
    Workout)
    requires
        !day_off(intensity, random_number) ==> call_requires(effort, ()),
    ensures
        day_off(intensity, random_number) ==> plan == Workout::Rest,
        !day_off(intensity, random_number) ==> exists|amount: u32|
            call_ensures(effort, (), amount) && plan == planned(intensity, random_number, amount),
{
    let mut lazy = LazyU32::new(effort);
    if intensity < 25 {
        let pushups = lazy.get();
        let situps = lazy.get();
        assert(call_ensures(effort, (), pushups) && Workout::Strength { pushups, situps }
            == planned(intensity, random_number, pushups));
        Workout::Strength { pushups, situps }
    } else {
        if random_number == 3 {
            Workout::Rest
        } else {
            let minutes = lazy.get();
            assert(call_ensures(effort, (), minutes) && Workout::Run { minutes } == planned(
                intensity,
                random_number,
                minutes,
            ));
            Workout::Run { minutes }
        }
    }
}

} // verus!
