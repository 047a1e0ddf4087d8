//! Finding the last character of a text's first line.

use vstd::prelude::*;

verus! {

/// Position of the first line feed, or the length when there is none.
pub open spec fn first_line_len(s: Seq<char>) -> int
    decreases s.len(),
{
    if s.len() == 0 {
        0
    } else if s[0] == '\n' {
        0
    } else {
        1 + first_line_len(s.drop_first())
    }
}

/// The first line: everything before the first line feed, with a carriage
/// return stripped from a `\r\n` ending. A lone `\r` with no following
/// line feed stays.
pub open spec fn first_line(s: Seq<char>) -> Seq<char> {
    let k = first_line_len(s);
    if k < s.len() && k > 0 && s[k - 1] == '\r' {
        s.subrange(0, k - 1)
    } else {
        s.subrange(0, k)
    }
}

/// `first_line_len` always lands inside the text.
pub proof fn lemma_first_line_len_bounds(s: Seq<char>)
    ensures
        0 <= first_line_len(s) <= s.len(),
    decreases s.len(),
{
    if s.len() > 0 && s[0] != '\n' {
        lemma_first_line_len_bounds(s.drop_first());
    }
}

/// A scan that stopped at `k` pins down `first_line_len`.
pub proof fn lemma_first_line_len(s: Seq<char>, k: int)
    requires
        0 <= k <= s.len(),
        forall|j: int| 0 <= j < k ==> s[j] != '\n',
        k < s.len() ==> s[k] == '\n',
    ensures
        first_line_len(s) == k,
    decreases s.len(),
{
    if k > 0 {
        lemma_first_line_len(s.drop_first(), k - 1);
    }
}

/// The last character of the first line, if that line has any characters.
pub fn last_char_of_first_line(text: &str) -> (r: Option<char>)
    ensures
        first_line(text@).len() == 0 ==> r is None,
        first_line(text@).len() > 0 ==> r == Some(first_line(text@).last()),
{
    let len = text.unicode_len();
    let mut k: usize = 0;
    while k < len && text.get_char(k) != '\n'
        invariant
            len == text@.len(),
            k <= len,
            forall|j: int| 0 <= j < k ==> text@[j] != '\n',
        decreases len - k,
    {
        k += 1;
    }
    proof {
        lemma_first_line_len(text@, k as int);
    }
    let mut e: usize = k;
    if k < len && k > 0 && text.get_char(k - 1) == '\r' {
        e = k - 1;
    }
    if e == 0 {
        None
    } else {
        Some(text.get_char(e - 1))
    }
}

} // verus!
