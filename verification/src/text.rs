//! Small verified text utilities shared across the crate: character-exact
//! string comparison and decimal rendering.

use vstd::prelude::*;

verus! {

/// Compares two strings character by character.
pub fn str_eq(a: &str, b: &str) -> (r: bool)
    ensures
        r == (a@ == b@),
{
    let alen = a.unicode_len();
    let blen = b.unicode_len();
    if alen != blen {
        return false;
    }
    let mut i: usize = 0;
    while i < alen
        invariant
            a@.len() == alen,
            b@.len() == blen,
            alen == blen,
            i <= alen,
            forall|k: int| 0 <= k < i ==> a@[k] == b@[k],
        decreases alen - i,
    {
        if a.get_char(i) != b.get_char(i) {
            return false;
        }
        i += 1;
    }
    proof {
        assert(a@ =~= b@);
    }
    true
}

/// A line piece with one trailing carriage return stripped.
pub open spec fn strip_cr(line: Seq<char>) -> Seq<char> {
    if line.len() > 0 && line.last() == '\r' {
        line.drop_last()
    } else {
        line
    }
}

/// The lines of a text, split at line feeds. A piece that ended in
/// `\r\n` loses the carriage return; a final piece with no line feed
/// keeps everything, and a text ending in a line feed has no extra empty
/// line after it.
pub open spec fn split_lines(s: Seq<char>) -> Seq<Seq<char>>
    decreases s.len(),
    via split_lines_termination
{
    if s.len() == 0 {
        Seq::empty()
    } else {
        let k = crate::error_handling::first_line_len(s);
        if k == s.len() {
            seq![s.subrange(0, k)]
        } else {
            seq![strip_cr(s.subrange(0, k))] + split_lines(s.subrange(k + 1, s.len() as int))
        }
    }
}

#[via_fn]
proof fn split_lines_termination(s: Seq<char>) {
    crate::error_handling::lemma_first_line_len_bounds(s);
}

/// Every line is at most as long as the text it came from.
pub proof fn lemma_split_lines_len(s: Seq<char>, i: int)
    requires
        0 <= i < split_lines(s).len(),
    ensures
        split_lines(s)[i].len() <= s.len(),
    decreases s.len(),
{
    let k = crate::error_handling::first_line_len(s);
    crate::error_handling::lemma_first_line_len_bounds(s);
    if s.len() > 0 && k != s.len() && i > 0 {
        lemma_split_lines_len(s.subrange(k + 1, s.len() as int), i - 1);
    }
}

/// Splits a text into its lines.
pub fn split_lines_exec(s: &str) -> (r: Vec<String>)
    ensures
        r@.len() == split_lines(s@).len(),
        forall|i: int| 0 <= i < r@.len() ==> (#[trigger] r@[i])@ == split_lines(s@)[i],
{
    let len = s.unicode_len();
    let mut out: Vec<String> = Vec::new();
    let mut start: usize = 0;
    proof {
        assert(s@.subrange(0, len as int) =~= s@);
        assert(out@.map_values(|x: String| x@) =~= Seq::<Seq<char>>::empty());
    }
    while start < len
        invariant
            len == s@.len(),
            start <= len,
            split_lines(s@) == out@.map_values(|x: String| x@) + split_lines(
                s@.subrange(start as int, len as int),
            ),
        decreases len - start,
    {
        let ghost rest = s@.subrange(start as int, len as int);
        let mut k: usize = start;
        while k < len && s.get_char(k) != '\n'
            invariant
                len == s@.len(),
                start <= k <= len,
                forall|j: int| start <= j < k ==> s@[j] != '\n',
            decreases len - k,
        {
            k += 1;
        }
        proof {
            crate::error_handling::lemma_first_line_len(rest, k - start);
            assert(rest.subrange(0, k - start) =~= s@.subrange(start as int, k as int));
        }
        let piece = if k < len && k > start && s.get_char(k - 1) == '\r' {
            let p = s.substring_char(start, k - 1);
            proof {
                assert(strip_cr(rest.subrange(0, k - start)) =~= s@.subrange(
                    start as int,
                    k - 1,
                ));
            }
            p
        } else {
            s.substring_char(start, k)
        };
        out.push(piece.to_owned());
        let ghost prev = start as int;
        if k == len {
            start = len;
        } else {
            start = k + 1;
        }
        proof {
            if k < len {
                assert(rest.subrange(k - prev + 1, rest.len() as int) =~= s@.subrange(
                    start as int,
                    len as int,
                ));
            } else {
                assert(s@.subrange(start as int, len as int) =~= Seq::<char>::empty());
            }
            assert(split_lines(s@) =~= out@.map_values(|x: String| x@) + split_lines(
                s@.subrange(start as int, len as int),
            ));
        }
    }
    proof {
        assert(s@.subrange(start as int, len as int) =~= s@.subrange(
            len as int,
            len as int,
        ));
        assert(split_lines(s@) =~= out@.map_values(|x: String| x@));
        assert(forall|i: int| 0 <= i < out@.len() ==> (#[trigger] out@[i])@ == out@.map_values(
            |x: String| x@,
        )[i]);
    }
    out
}

/// Lexicographic order on character sequences: the order Rust gives
/// strings, since scalar-value order and UTF-8 byte order agree.
pub open spec fn lex_le(a: Seq<char>, b: Seq<char>) -> bool
    decreases a.len(),
{
    if a.len() == 0 {
        true
    } else if b.len() == 0 {
        false
    } else if a[0] != b[0] {
        (a[0] as int) < (b[0] as int)
    } else {
        lex_le(a.drop_first(), b.drop_first())
    }
}

/// Any two sequences compare one way or the other.
pub proof fn lemma_lex_le_total(a: Seq<char>, b: Seq<char>)
    ensures
        lex_le(a, b) || lex_le(b, a),
    decreases a.len(),
{
    if a.len() > 0 && b.len() > 0 && a[0] == b[0] {
        lemma_lex_le_total(a.drop_first(), b.drop_first());
    }
}

/// With an equal prefix of length `i`, the order is decided by what
/// follows the prefix.
proof fn lemma_lex_le_skip(a: Seq<char>, b: Seq<char>, i: int)
    requires
        0 <= i <= a.len(),
        i <= b.len(),
        forall|k: int| 0 <= k < i ==> a[k] == b[k],
    ensures
        lex_le(a, b) == lex_le(a.skip(i), b.skip(i)),
    decreases i,
{
    if i > 0 {
        lemma_lex_le_skip(a, b, i - 1);
        assert(a.skip(i - 1).drop_first() =~= a.skip(i));
        assert(b.skip(i - 1).drop_first() =~= b.skip(i));
        assert(a.skip(i - 1)[0] == a[i - 1]);
        assert(b.skip(i - 1)[0] == b[i - 1]);
    } else {
        assert(a.skip(0) =~= a);
        assert(b.skip(0) =~= b);
    }
}

/// Compares two strings in lexicographic order.
pub fn str_le(a: &str, b: &str) -> (r: bool)
    ensures
        r == lex_le(a@, b@),
{
    let alen = a.unicode_len();
    let blen = b.unicode_len();
    let mut i: usize = 0;
    while i < alen && i < blen
        invariant
            alen == a@.len(),
            blen == b@.len(),
            i <= alen,
            i <= blen,
            forall|k: int| 0 <= k < i ==> a@[k] == b@[k],
        decreases alen - i,
    {
        let ca = a.get_char(i);
        let cb = b.get_char(i);
        if ca != cb {
            proof {
                lemma_lex_le_skip(a@, b@, i as int);
                assert(a@.skip(i as int)[0] == a@[i as int]);
                assert(b@.skip(i as int)[0] == b@[i as int]);
            }
            return (ca as u32) < (cb as u32);
        }
        i += 1;
    }
    proof {
        lemma_lex_le_skip(a@, b@, i as int);
        if i == alen {
            assert(a@.skip(i as int).len() == 0);
        } else {
            assert(b@.skip(i as int).len() == 0);
            assert(a@.skip(i as int).len() > 0);
        }
    }
    alen <= blen
}

/// The order relates every sequence to itself.
pub proof fn lemma_lex_le_refl(a: Seq<char>)
    ensures
        lex_le(a, a),
    decreases a.len(),
{
    if a.len() > 0 {
        lemma_lex_le_refl(a.drop_first());
    }
}

/// The order chains.
pub proof fn lemma_lex_le_trans(a: Seq<char>, b: Seq<char>, c: Seq<char>)
    requires
        lex_le(a, b),
        lex_le(b, c),
    ensures
        lex_le(a, c),
    decreases a.len(),
{
    if a.len() > 0 && a[0] == b[0] && b[0] == c[0] {
        lemma_lex_le_trans(a.drop_first(), b.drop_first(), c.drop_first());
    }
}

/// Each string comes no later than the next.
pub open spec fn sorted_strings(s: Seq<String>) -> bool {
    forall|i: int| 0 <= i < s.len() - 1 ==> lex_le((#[trigger] s[i])@, s[i + 1]@)
}

/// Sorts the strings in lexicographic order, keeping exactly the same
/// strings.
pub fn sort_strings(v: &mut Vec<String>)
    ensures
        sorted_strings(final(v)@),
        final(v)@.to_multiset() == old(v)@.to_multiset(),
{
    proof {
        broadcast use vstd::seq_lib::group_to_multiset_ensures;
        broadcast use vstd::multiset::group_multiset_axioms;

        assert(Seq::<String>::empty().to_multiset().add(old(v)@.to_multiset()) =~= old(
            v,
        )@.to_multiset());
    }
    let mut out: Vec<String> = Vec::new();
    while v.len() > 0
        invariant
            out@.to_multiset().add(v@.to_multiset()) == old(v)@.to_multiset(),
            sorted_strings(out@),
            out@.len() > 0 ==> forall|j: int|
                0 <= j < v@.len() ==> lex_le(out@.last()@, (#[trigger] v@[j])@),
        decreases v@.len(),
    {
        let mut m: usize = 0;
        let mut j: usize = 1;
        proof {
            lemma_lex_le_refl(v@[0]@);
        }
        while j < v.len()
            invariant
                m < j,
                j <= v@.len(),
                v@.len() > 0,
                forall|k: int| 0 <= k < j ==> lex_le(v@[m as int]@, (#[trigger] v@[k])@),
            decreases v@.len() - j,
        {
            if str_le(v[j].as_str(), v[m].as_str()) {
                proof {
                    assert forall|k: int| 0 <= k < j + 1 implies lex_le(
                        v@[j as int]@,
                        (#[trigger] v@[k])@,
                    ) by {
                        if k < j {
                            lemma_lex_le_trans(v@[j as int]@, v@[m as int]@, v@[k]@);
                        } else {
                            lemma_lex_le_refl(v@[j as int]@);
                        }
                    }
                }
                m = j;
            } else {
                proof {
                    lemma_lex_le_total(v@[j as int]@, v@[m as int]@);
                }
            }
            j += 1;
        }
        let ghost v_before = v@;
        let ghost out_before = out@;
        let x = v.remove(m);
        out.push(x);
        proof {
            broadcast use vstd::seq_lib::group_to_multiset_ensures;
            broadcast use vstd::multiset::group_multiset_axioms;

            assert(out@.to_multiset() =~= out_before.to_multiset().insert(x));
            assert(v@.to_multiset() =~= v_before.to_multiset().remove(x));
            assert(v_before.to_multiset().count(x) > 0);
            assert(out@.to_multiset().add(v@.to_multiset()) =~= out_before.to_multiset().add(
                v_before.to_multiset(),
            ));
            assert(sorted_strings(out@));
            assert forall|k: int| 0 <= k < v@.len() implies lex_le(
                out@.last()@,
                (#[trigger] v@[k])@,
            ) by {
                if k < m {
                    assert(v@[k] == v_before[k]);
                } else {
                    assert(v@[k] == v_before[k + 1]);
                }
            }
        }
    }
    proof {
        broadcast use vstd::seq_lib::group_to_multiset_ensures;
        broadcast use vstd::multiset::group_multiset_axioms;

        assert(v@.to_multiset().len() == 0);
        assert(out@.to_multiset().add(v@.to_multiset()) =~= out@.to_multiset());
    }
    *v = out;
}

/// The digit characters, in order.
pub open spec fn digit_char(d: int) -> char {
    seq!['0', '1', '2', '3', '4', '5', '6', '7', '8', '9'][d]
}

/// The decimal rendering of a number, most significant digit first.
pub open spec fn decimal_digits(n: nat) -> Seq<char>
    decreases n,
{
    if n < 10 {
        seq![digit_char(n as int)]
    } else {
        decimal_digits(n / 10).push(digit_char((n % 10) as int))
    }
}

/// One decimal digit as a string.
fn digit_string(d: u64) -> (r: String)
    requires
        d < 10,
    ensures
        r@ == seq![digit_char(d as int)],
{
    let r = match d {
        0 => "0",
        1 => "1",
        2 => "2",
        3 => "3",
        4 => "4",
        5 => "5",
        6 => "6",
        7 => "7",
        8 => "8",
        _ => "9",
    };
    proof {
        reveal_strlit("0");
        reveal_strlit("1");
        reveal_strlit("2");
        reveal_strlit("3");
        reveal_strlit("4");
        reveal_strlit("5");
        reveal_strlit("6");
        reveal_strlit("7");
        reveal_strlit("8");
        reveal_strlit("9");
        assert(r@ =~= seq![digit_char(d as int)]);
    }
    r.to_owned()
}

/// Renders a number in decimal.
pub fn u64_to_string(n: u64) -> (r: String)
    ensures
        r@ == decimal_digits(n as nat),
    decreases n,
{
    if n < 10 {
        digit_string(n)
    } else {
        let mut s = u64_to_string(n / 10);
        let d = digit_string(n % 10);
        s.append(d.as_str());
        proof {
            assert(s@ =~= decimal_digits(n as nat));
        }
        s
    }
}

} // verus!
