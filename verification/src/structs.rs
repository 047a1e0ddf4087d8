//! Plain structs: a user record and a rectangle.

use vstd::prelude::*;

verus! {

pub struct User {
    pub active: bool,
    pub username: String,
    pub email: String,
    pub sign_in_count: u64,
}

#[derive(Debug)]
pub struct Rectangle {
    pub width: u32,
    pub height: u32,
}

impl Rectangle {
    pub fn area(&self) -> (r: u32)
        requires
            self.width * self.height <= u32::MAX,
        ensures
            r == self.width * self.height,
    {
        self.width * self.height
    }

    /// Whether the rectangle has any width at all.
    pub fn width(&self) -> (r: bool)
        ensures
            r == (self.width > 0),
    {
        self.width > 0
    }

    pub fn can_hold(&self, other: &Rectangle) -> (r: bool)
        ensures
            r == (other.width < self.width && other.height < self.height),
    {
        other.width < self.width && other.height < self.height
    }

    pub fn square(size: u32) -> (r: Rectangle)
        ensures
            r.width == size,
            r.height == size,
    {
        Rectangle { width: size, height: size }
    }
}

/// A fresh, active user with a single sign-in.
pub fn build_user(email: String, username: String) -> (u: User)
    ensures
        u.active,
        u.email == email,
        u.username == username,
        u.sign_in_count == 1,
{
    User { active: true, email, username, sign_in_count: 1 }
}

} // verus!
