//! Working with string slices.

use vstd::prelude::*;

verus! {

/// Appends ", World!".
pub fn push_world(s: &mut String)
    ensures
        final(s)@ == old(s)@ + ", World!"@,
{
    s.append(", World!");
}

/// The first word of `s`: everything before the first space character,
/// or all of `s` when it has no space.
pub fn first_world(s: &str) -> (r: &str)
    ensures
        (exists|i: int| 0 <= i < s@.len() && s@[i] == ' ') ==> {
            exists|i: int|
                {
                    &&& 0 <= i < s@.len()
                    &&& s@[i] == ' '
                    &&& forall|k: int| 0 <= k < i ==> s@[k] != ' '
                    &&& r@ == s@.subrange(0, i)
                }
        },
        !(exists|i: int| 0 <= i < s@.len() && s@[i] == ' ') ==> r@ == s@,
{
    let len = s.unicode_len();
    let mut i: usize = 0;
    while i < len
        invariant
            len == s@.len(),
            i <= len,
            forall|k: int| 0 <= k < i ==> s@[k] != ' ',
        decreases len - i,
    {
        if s.get_char(i) == ' ' {
            let front = s.substring_char(0, i);
            return front;
        }
        i += 1;
    }
    s
}

} // verus!
