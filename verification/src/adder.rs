//! Small arithmetic and geometry helpers.

use vstd::prelude::*;

verus! {

pub fn add(left: usize, right: usize) -> (r: usize)
    requires
        left + right <= usize::MAX,
    ensures
        r == left + right,
{
    left + right
}

pub fn add_two(a: i32) -> (r: i32)
    requires
        a + 2 <= i32::MAX,
    ensures
        r == a + 2,
{
    a + 2
}

#[derive(Debug)]
pub struct Rectangle {
    pub width: i32,
    pub height: i32,
}

impl Rectangle {
    /// A rectangle holds another exactly when it is strictly wider and taller.
    pub fn can_hold(&self, other: &Rectangle) -> (r: bool)
        ensures
            r == (self.width > other.width && self.height > other.height),
    {
        self.width > other.width && self.height > other.height
    }
}

/// Builds the greeting `"Hello <name>!"`.
pub fn greeting(name: &str) -> (r: String)
    ensures
        r@ == "Hello "@ + name@ + "!"@,
{
    let mut r = String::new();
    r.append("Hello ");
    r.append(name);
    r.append("!");
    r
}

/// Accepts only values between 1 and 100; anything else is a caller error.
pub fn panic_if_out_of_range(a: i32)
    requires
        1 <= a <= 100,
{
}

} // verus!
