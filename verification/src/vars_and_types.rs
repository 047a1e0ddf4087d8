//! A doubling function.

use vstd::prelude::*;

verus! {

pub fn pedro(x: i32) -> (r: i32)
    requires
        i32::MIN <= 2 * x <= i32::MAX,
    ensures
        r == 2 * x,
{
    x * 2
}

} // verus!
