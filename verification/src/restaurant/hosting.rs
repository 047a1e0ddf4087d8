//! Front of house: greeting and seating.

use vstd::prelude::*;

verus! {

pub fn add_to_waitlist() {
    do_something_stupid();
}

#[allow(dead_code)]
fn seat_at_table() {
}

fn do_something_stupid() {
}

} // verus!
