//! A counter iterated through a generic trait, in two element types.

use vstd::prelude::*;

use crate::text;

verus! {

/// An iterator over values of `T`; unlike an associated type, the generic
/// parameter lets one type iterate in several element types.
pub trait MyIterator<T> {
    fn next(&mut self) -> (r: Option<T>);
}

pub struct Counter {
    current: u32,
    max: u32,
}

impl Counter {
    pub closed spec fn spec_current(&self) -> u32 {
        self.current
    }

    pub closed spec fn spec_max(&self) -> u32 {
        self.max
    }

    pub fn new(max: u32) -> (c: Counter)
        ensures
            c.spec_current() == 0,
            c.spec_max() == max,
    {
        Counter { current: 0, max }
    }
}

impl Counter {
    /// Counts 1, 2, ... up to the maximum, then stops.
    pub fn next_number(&mut self) -> (r: Option<u32>)
        ensures
            old(self).spec_current() < old(self).spec_max() ==> {
                &&& final(self).spec_current() == old(self).spec_current() + 1
                &&& r == Some((old(self).spec_current() + 1) as u32)
            },
            old(self).spec_current() >= old(self).spec_max() ==> r is None && *final(self)
                == *old(self),
            final(self).spec_max() == old(self).spec_max(),
    {
        if self.current >= self.max {
            None
        } else {
            self.current += 1;
            Some(self.current)
        }
    }

    /// The same count, rendered in decimal.
    pub fn next_label(&mut self) -> (r: Option<String>)
        ensures
            old(self).spec_current() < old(self).spec_max() ==> {
                &&& final(self).spec_current() == old(self).spec_current() + 1
                &&& r matches Some(s) && s@ == text::decimal_digits(
                    (old(self).spec_current() + 1) as nat,
                )
            },
            old(self).spec_current() >= old(self).spec_max() ==> r is None && *final(self)
                == *old(self),
            final(self).spec_max() == old(self).spec_max(),
    {
        if self.current >= self.max {
            None
        } else {
            self.current += 1;
            Some(text::u64_to_string(self.current as u64))
        }
    }
}

impl MyIterator<u32> for Counter {
    fn next(&mut self) -> (r: Option<u32>) {
        self.next_number()
    }
}

impl MyIterator<String> for Counter {
    fn next(&mut self) -> (r: Option<String>) {
        self.next_label()
    }
}

/// A trait whose associated function shares its name with the type's own.
pub trait Animal {
    fn baby_name() -> (r: String);
}

pub struct Dog;

impl Dog {
    /// The default name for a baby dog.
    pub fn baby_name() -> (r: String)
        ensures
            r@ == "Spot"@,
    {
        "Spot".to_owned()
    }
}

impl Animal for Dog {
    /// The word for a baby dog.
    fn baby_name() -> (r: String)
        ensures
            r@ == "puppy"@,
    {
        "puppy".to_owned()
    }
}

} // verus!
