//! A bare-bones box.

use vstd::prelude::*;

verus! {

pub struct StupidBox<T>(T);

impl<T> StupidBox<T> {
    pub closed spec fn spec_inner(&self) -> T {
        self.0
    }

    pub fn new(x: T) -> (b: StupidBox<T>)
        ensures
            b.spec_inner() == x,
    {
        StupidBox(x)
    }

    /// A look at the boxed value.
    pub fn inner(&self) -> (r: &T)
        ensures
            *r == self.spec_inner(),
    {
        &self.0
    }
}

} // verus!
