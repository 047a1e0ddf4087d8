//! A second restaurant, kept as one module tree of its own.

pub mod back_of_house;
pub mod customer;
pub mod hosting;
mod serving;

pub use hosting::add_to_waitlist;

use std::collections::HashMap;

use vstd::prelude::*;

verus! {

pub(crate) fn deliver_order() {
}

#[allow(dead_code)]
fn do_something_lol() {
    hosting::add_to_waitlist();
}

pub fn eat_at_restaurant() {
    hosting::add_to_waitlist();
    hosting::add_to_waitlist();

    let mut meal = back_of_house::Breakfast::summer("Rye");
    meal.set_toast("wheat".to_owned());
}

#[allow(dead_code)]
fn my_map() {
    let mut map: HashMap<i32, i32> = HashMap::new();
    map.insert(1, 2);
}

pub fn add(left: usize, right: usize) -> (r: usize)
    requires
        left + right <= usize::MAX,
    ensures
        r == left + right,
{
    left + right
}

} // verus!
