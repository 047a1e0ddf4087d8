//! The temperature converter's menu rule: which conversion a typed
//! option selects.
//!
//! The surrounding program reads lines until this accepts one, and does
//! the floating-point conversion itself.

use vstd::prelude::*;

use crate::text;

verus! {

/// Decides what an already upper-cased, trimmed menu answer selects:
/// `F` is choice 0 (Celsius to Farenheit), `C` is choice 1 (Farenheit to
/// Celsius), anything else is rejected and must be asked again.
pub fn read_opt(answer: &str) -> (r: Option<i32>)
    ensures
        answer@ == "F"@ ==> r == Some(0i32),
        answer@ == "C"@ ==> r == Some(1i32),
        answer@ != "F"@ && answer@ != "C"@ ==> r is None,
{
    proof {
        reveal_strlit("F");
        reveal_strlit("C");
        assert("F"@.len() == 1);
        assert("C"@.len() == 1);
        assert("F"@[0] != "C"@[0]);
    }
    if text::str_eq(answer, "F") {
        Some(0)
    } else if text::str_eq(answer, "C") {
        Some(1)
    } else {
        None
    }
}

} // verus!
