//! A quota tracker that warns through a caller-supplied messenger.

use vstd::prelude::*;

verus! {

/// A sink for warning messages, implemented by the surrounding program.
pub trait Messenger {
    fn send(&self, msg: &str);
}

/// How close a value has come to its quota. The fractions are compared
/// exactly, in integer arithmetic: `value/max >= 9/10` is urgent,
/// `value/max >= 3/4` is a warning, reaching the quota is over. A quota
/// of zero is exceeded by any value except zero, which compares as
/// nothing at all.
#[derive(Clone, Copy, Debug, PartialEq, Eq, Structural)]
pub enum QuotaLevel {
    Quiet,
    Warning,
    Urgent,
    Over,
}

/// Classifies a value against its quota.
pub fn quota_level(value: usize, max: usize) -> (r: QuotaLevel)
    ensures
        max == 0 && value == 0 ==> r is Quiet,
        max == 0 && value > 0 ==> r is Over,
        max > 0 && value >= max ==> r is Over,
        max > 0 && value < max && 10 * value >= 9 * max ==> r is Urgent,
        max > 0 && 10 * value < 9 * max && 4 * value >= 3 * max ==> r is Warning,
        max > 0 && 4 * value < 3 * max ==> r is Quiet,
{
    if max == 0 {
        return if value == 0 {
            QuotaLevel::Quiet
        } else {
            QuotaLevel::Over
        };
    }
    if value >= max {
        QuotaLevel::Over
    } else if (value as u128) * 10 >= (max as u128) * 9 {
        QuotaLevel::Urgent
    } else if (value as u128) * 4 >= (max as u128) * 3 {
        QuotaLevel::Warning
    } else {
        QuotaLevel::Quiet
    }
}

pub struct LimitTracker<'a, T: Messenger> {
    messenger: &'a T,
    value: usize,
    max: usize,
}

impl<'a, T: Messenger> LimitTracker<'a, T> {
    pub closed spec fn spec_value(&self) -> usize {
        self.value
    }

    pub closed spec fn spec_max(&self) -> usize {
        self.max
    }

    pub fn new(messenger: &'a T, max: usize) -> (t: LimitTracker<'a, T>)
        ensures
            t.spec_value() == 0,
            t.spec_max() == max,
    {
        LimitTracker { messenger, value: 0, max }
    }

    /// Stores the new value and sends the warning its quota level calls
    /// for, if any.
    pub fn set_value(&mut self, value: usize)
        ensures
            final(self).spec_value() == value,
            final(self).spec_max() == old(self).spec_max(),
    {
        self.value = value;

        match quota_level(value, self.max) {
            QuotaLevel::Over => self.messenger.send("Error: You are over your quota!"),
            QuotaLevel::Urgent => self.messenger.send(
                "Urgent warning: You've used up over 90% of your quota!",
            ),
            QuotaLevel::Warning => self.messenger.send(
                "Warning: You've used up over 75% of your quota!",
            ),
            QuotaLevel::Quiet => {},
        }
    }
}

} // verus!
