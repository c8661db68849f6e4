//! A quota that says so when it is nearly used up.

use vstd::prelude::*;

verus! {

/// Where the messages of a quota go.
///
/// `send` takes `&self`: a messenger that keeps what it was sent does so
/// behind a cell of its own. To a contract such a messenger looks the same
/// before and after, so nothing is stated of it here.
pub trait Messenger {
    /// Takes one message.
    fn send(&self, msg: &str);
}

/// How much of a quota is used.
#[derive(Debug, Clone, Copy, PartialEq, Eq, Structural)]
pub enum Usage {
    /// Less than nine tenths.
    Within,
    /// At least nine tenths, and less than all of it.
    Near,
    /// All of it, or more.
    Over,
}

/// How much of `max` the amount `value` uses up.
///
/// The quota is used up where `value` reaches `max`, and nearly where ten
/// times `value` reaches nine times `max`. Of a quota of nothing, any amount
/// is too much, and no amount is none.
pub open spec fn usage(value: nat, max: nat) -> Usage {
    if value >= max && value > 0 {
        Usage::Over
    } else if max > 0 && 10 * value >= 9 * max {
        Usage::Near
    } else {
        Usage::Within
    }
}

/// The message that goes out for a usage, if any does.
pub open spec fn message(usage: Usage) -> Option<Seq<char>> {
    match usage {
        Usage::Within => None,
        Usage::Near => Some("Warning, you are at over 90% of your quota!"@),
        Usage::Over => Some("Error, you are over the quota!"@),
    }
}

/// An amount that is watched against a maximum.
pub struct Quota<'a, T: Messenger> {
    messenger: &'a T,
    value: usize,
    max: usize,
}

impl<'a, T> Quota<'a, T> where T: Messenger {
    /// The amount that is used.
    pub closed spec fn value(self) -> nat {
        self.value as nat
    }

    /// The amount that can be used.
    pub closed spec fn max(self) -> nat {
        self.max as nat
    }

    /// Where the messages go.
    pub closed spec fn messenger(self) -> &'a T {
        self.messenger
    }

    /// A quota of `max`, of which nothing is used.
    pub fn new(messenger: &'a T, max: usize) -> (quota: Quota<'a, T>)
        ensures
            quota.value() == 0,
            quota.max() == max,
            quota.messenger() == messenger,
    {
        Quota { messenger, value: 0, max }
    }

    /// How much of the quota is used.
    pub fn usage(&self) -> (usage: Usage)
        ensures
            usage == self::usage(self.value(), self.max()),
    {
        let value = self.value as u128;
        let max = self.max as u128;
        if value >= max && value > 0 {
            Usage::Over
        } else if max > 0 && 10 * value >= 9 * max {
            Usage::Near
        } else {
            Usage::Within
        }
    }

    /// The message that is due for the amount that is used, if any is.
    pub fn notice(&self) -> (due: Option<&'static str>)
        ensures
            due is Some <==> message(self::usage(self.value(), self.max())) is Some,
            due matches Some(text) ==> Some(text@) == message(
                self::usage(self.value(), self.max()),
            ),
    {
        match self.usage() {
            Usage::Within => None,
            Usage::Near => Some("Warning, you are at over 90% of your quota!"),
            Usage::Over => Some("Error, you are over the quota!"),
        }
    }

    /// Records that `value` is used, and sends the message that is due for
    /// it, if any is, to the messenger.
    pub fn set_value(&mut self, value: usize)
        ensures
            final(self).value() == value,
            final(self).max() == old(self).max(),
            final(self).messenger() == old(self).messenger(),
    {
        self.value = value;
        self.check_value();
    }

    /// Sends the message that is due, if any is.
    fn check_value(&self) {
        match self.notice() {
            Some(text) => self.messenger.send(text),
            None => {},
        }
    }
}

} // verus!
