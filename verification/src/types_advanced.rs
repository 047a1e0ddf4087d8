//! Sized and unsized generic parameters.

use vstd::prelude::*;

verus! {

#[allow(unused_variables)]
pub fn generic<T>(t: T) {
}

#[allow(unused_variables)]
pub fn generic2<T: ?Sized>(t: &T) {
}

} // verus!
