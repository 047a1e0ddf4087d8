//! Generic helpers: swapping, the largest element, and a mixed point.

use vstd::prelude::*;

verus! {

pub fn swap<T: Copy>(a: &mut T, b: &mut T)
    ensures
        *final(a) == *old(b),
        *final(b) == *old(a),
{
    let tmp = *a;
    *a = *b;
    *b = tmp;
}

/// The largest element of the list, if the list has any.
pub fn largest(list: &[i64]) -> (r: Option<i64>)
    ensures
        list@.len() == 0 ==> r is None,
        list@.len() > 0 ==> {
            &&& r matches Some(m)
            &&& list@.contains(m)
            &&& forall|i: int| 0 <= i < list@.len() ==> list@[i] <= m
        },
{
    if list.len() == 0 {
        return None;
    }
    let mut result: i64 = list[0];
    let mut i: usize = 1;
    while i < list.len()
        invariant
            1 <= i <= list@.len(),
            list@.contains(result),
            forall|k: int| 0 <= k < i ==> list@[k] <= result,
        decreases list@.len() - i,
    {
        if list[i] > result {
            result = list[i];
        }
        i += 1;
    }
    Some(result)
}

#[derive(Debug)]
pub struct Point<T, U> {
    x: T,
    y: U,
}

impl<T, U> Point<T, U> {
    pub closed spec fn spec_x(&self) -> T {
        self.x
    }

    pub closed spec fn spec_y(&self) -> U {
        self.y
    }

    pub fn new(x: T, y: U) -> (p: Point<T, U>)
        ensures
            p.spec_x() == x,
            p.spec_y() == y,
    {
        Point { x, y }
    }

    pub fn x(&self) -> (r: &T)
        ensures
            *r == self.spec_x(),
    {
        &self.x
    }

    /// Combines this point's first coordinate with another point's second.
    pub fn mixup<X, Y>(self, other: Point<X, Y>) -> (p: Point<T, Y>)
        ensures
            p.spec_x() == self.spec_x(),
            p.spec_y() == other.spec_y(),
    {
        Point { x: self.x, y: other.y }
    }
}

} // verus!
