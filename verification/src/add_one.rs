//! Tiny addition helpers.

use vstd::prelude::*;

verus! {

/// Adds one to the number given.
pub fn add_one(x: i32) -> (r: i32)
    requires
        x < i32::MAX,
    ensures
        r == x + 1,
{
    x + 1
}

/// Adds two numbers.
pub fn add(x: u128, y: u128) -> (r: u128)
    requires
        x + y <= u128::MAX,
    ensures
        r == x + y,
{
    x + y
}

} // verus!
