//! A customer ordering through the front of house.

use vstd::prelude::*;

verus! {

pub fn eat_at_restaurant() {
    crate::restaurant::hosting::add_to_waitlist();
}

} // verus!
