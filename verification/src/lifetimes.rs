//! Borrow-returning string helpers.

use vstd::prelude::*;
use vstd::string::StringSliceAdditionalSpecFns;

verus! {

/// The longer of the two strings, measured in bytes; ties go to the second.
pub fn longest<'a>(x: &'a str, y: &'a str) -> (r: &'a str)
    ensures
        x.spec_bytes().len() > y.spec_bytes().len() ==> r@ == x@,
        x.spec_bytes().len() <= y.spec_bytes().len() ==> r@ == y@,
{
    if x.as_bytes().len() > y.as_bytes().len() {
        x
    } else {
        y
    }
}

/// Cuts `x` down to the byte length of `y`, when `y` is shorter. Cutting
/// must land on a character boundary of `x`; elsewhere is a caller error.
pub fn get_x_sliced_to_the_length_of_y<'a>(x: &'a str, y: &str) -> (r: &'a str)
    requires
        y.spec_bytes().len() < x.spec_bytes().len() ==> vstd::utf8::is_char_boundary(
            x.spec_bytes(),
            y.spec_bytes().len() as int,
        ),
    ensures
        y.spec_bytes().len() < x.spec_bytes().len() ==> r.spec_bytes()
            == x.spec_bytes().subrange(0, y.spec_bytes().len() as int),
        y.spec_bytes().len() >= x.spec_bytes().len() ==> r@ == x@,
{
    if y.as_bytes().len() < x.as_bytes().len() {
        let (front, _) = x.split_at(y.as_bytes().len());
        proof {
            assert(front.spec_bytes()
                =~= x.spec_bytes().subrange(0, y.spec_bytes().len() as int));
        }
        front
    } else {
        x
    }
}

pub struct ImportantExcerpt<'a> {
    pub part: &'a str,
}

impl<'a> ImportantExcerpt<'a> {
    pub fn level(&self) -> (r: i32)
        ensures
            r == 3,
    {
        3
    }
}

/// The Unicode white-space characters.
pub open spec fn is_space(c: char) -> bool {
    let u = c as int;
    ||| u == 0x20
    ||| 0x09 <= u <= 0x0D
    ||| u == 0x85
    ||| u == 0xA0
    ||| u == 0x1680
    ||| 0x2000 <= u <= 0x200A
    ||| u == 0x2028
    ||| u == 0x2029
    ||| u == 0x202F
    ||| u == 0x205F
    ||| u == 0x3000
}

pub fn is_space_char(c: char) -> (r: bool)
    ensures
        r == is_space(c),
{
    let u = c as u32;
    u == 0x20 || (0x09 <= u && u <= 0x0D) || u == 0x85 || u == 0xA0 || u == 0x1680 || (0x2000
        <= u && u <= 0x200A) || u == 0x2028 || u == 0x2029 || u == 0x202F || u == 0x205F || u
        == 0x3000
}

/// The first white-space-separated word of `s`, if there is one: the first
/// maximal run of non-space characters.
pub fn first_word(s: &str) -> (r: Option<&str>)
    ensures
        r is None ==> forall|i: int| 0 <= i < s@.len() ==> is_space(#[trigger] s@[i]),
        r matches Some(w) ==> exists|b: int, e: int|
            {
                &&& 0 <= b < e <= s@.len()
                &&& w@ == s@.subrange(b, e)
                &&& forall|i: int| 0 <= i < b ==> is_space(#[trigger] s@[i])
                &&& forall|i: int| b <= i < e ==> !is_space(#[trigger] s@[i])
                &&& (e == s@.len() || is_space(s@[e]))
            },
{
    let len = s.unicode_len();
    let mut b: usize = 0;
    while b < len && is_space_char(s.get_char(b))
        invariant
            len == s@.len(),
            b <= len,
            forall|i: int| 0 <= i < b ==> is_space(#[trigger] s@[i]),
        decreases len - b,
    {
        b += 1;
    }
    if b == len {
        return None;
    }
    let mut e: usize = b + 1;
    while e < len && !is_space_char(s.get_char(e))
        invariant
            len == s@.len(),
            b < e <= len,
            forall|i: int| b <= i < e ==> !is_space(#[trigger] s@[i]),
        decreases len - e,
    {
        e += 1;
    }
    let w = s.substring_char(b, e);
    proof {
        assert(0 <= b < e <= s@.len() && w@ == s@.subrange(b as int, e as int)
            && (forall|i: int| 0 <= i < b ==> is_space(#[trigger] s@[i])) && (forall|i: int|
            b <= i < e ==> !is_space(#[trigger] s@[i])) && (e == s@.len() || is_space(
            s@[e as int],
        )));
    }
    Some(w)
}

} // verus!
