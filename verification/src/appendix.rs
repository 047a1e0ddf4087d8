//! Substring search: does the haystack contain the needle?

use vstd::prelude::*;

verus! {

/// Whether `needle` occurs in `haystack` as a contiguous run of characters.
/// An empty needle occurs everywhere.
pub open spec fn str_contains(haystack: Seq<char>, needle: Seq<char>) -> bool {
    exists|i: int|
        0 <= i && i + needle.len() <= haystack.len() && #[trigger] haystack.subrange(
            i,
            i + needle.len(),
        ) == needle
}

/// Whether `needle` occurs at position `at` of `haystack`.
fn match_at(haystack: &str, at: usize, needle: &str, needle_len: usize) -> (r: bool)
    requires
        needle_len == needle@.len(),
        at + needle_len <= haystack@.len(),
        haystack@.len() <= usize::MAX,
    ensures
        r == (haystack@.subrange(at as int, at + needle@.len()) == needle@),
{
    let mut j: usize = 0;
    while j < needle_len
        invariant
            needle_len == needle@.len(),
            at + needle_len <= haystack@.len(),
            haystack@.len() <= usize::MAX,
            j <= needle_len,
            forall|k: int| 0 <= k < j ==> haystack@[at + k] == needle@[k],
        decreases needle_len - j,
    {
        if haystack.get_char(at + j) != needle.get_char(j) {
            proof {
                assert(haystack@.subrange(at as int, at + needle@.len())[j as int]
                    != needle@[j as int]);
            }
            return false;
        }
        j += 1;
    }
    proof {
        assert(haystack@.subrange(at as int, at + needle@.len()) =~= needle@);
    }
    true
}

/// Decides whether the haystack contains the needle.
pub fn is_match(needle: &str, haystack: &str) -> (r: bool)
    ensures
        r == str_contains(haystack@, needle@),
{
    let n = needle.unicode_len();
    let h = haystack.unicode_len();
    if n > h {
        return false;
    }
    if n == 0 {
        proof {
            let zero: int = 0;
            assert(haystack@.subrange(zero, zero + needle@.len()) =~= needle@);
        }
        return true;
    }
    let mut i: usize = 0;
    while i <= h - n
        invariant
            1 <= n == needle@.len(),
            h == haystack@.len(),
            n <= h,
            i <= h - n + 1,
            forall|k: int| 0 <= k < i
                ==> #[trigger] haystack@.subrange(k, k + needle@.len()) != needle@,
        decreases h - i,
    {
        if match_at(haystack, i, needle, n) {
            return true;
        }
        i += 1;
    }
    false
}

} // verus!
