//! Character-sequence utilities shared by the renderer and the compactor.
//!
//! Text is held as `Vec<char>` so that every transformation (trimming, joining,
//! substring search, placeholder substitution) can be specified over `Seq<char>`
//! and verified.
use vstd::prelude::*;

verus! {

use vstd::std_specs::iter::IteratorSpec;

/// The whitespace characters recognized when deciding whether text is blank
/// and when trimming: the set accepted by Rust's `char::is_whitespace`.
pub open spec fn is_space(c: char) -> bool {
    ||| c == ' '
    ||| c == '\t'
    ||| c == '\n'
    ||| c == '\u{b}'
    ||| c == '\u{c}'
    ||| c == '\r'
    ||| c == '\u{85}'
    ||| c == '\u{a0}'
    ||| c == '\u{1680}'
    ||| c == '\u{2000}'
    ||| c == '\u{2001}'
    ||| c == '\u{2002}'
    ||| c == '\u{2003}'
    ||| c == '\u{2004}'
    ||| c == '\u{2005}'
    ||| c == '\u{2006}'
    ||| c == '\u{2007}'
    ||| c == '\u{2008}'
    ||| c == '\u{2009}'
    ||| c == '\u{200a}'
    ||| c == '\u{2028}'
    ||| c == '\u{2029}'
    ||| c == '\u{202f}'
    ||| c == '\u{205f}'
    ||| c == '\u{3000}'
}

/// Text is blank when every character is whitespace (so the empty text is blank).
pub open spec fn is_blank(s: Seq<char>) -> bool {
    forall|i: int| 0 <= i < s.len() ==> is_space(s[i])
}

pub fn space_char(c: char) -> (r: bool)
    ensures
        r == is_space(c),
{
    c == ' ' || c == '\t' || c == '\n' || c == '\u{b}' || c == '\u{c}' || c == '\r'
        || c == '\u{85}' || c == '\u{a0}' || c == '\u{1680}' || c == '\u{2000}' || c == '\u{2001}'
        || c == '\u{2002}' || c == '\u{2003}' || c == '\u{2004}' || c == '\u{2005}'
        || c == '\u{2006}' || c == '\u{2007}' || c == '\u{2008}' || c == '\u{2009}'
        || c == '\u{200a}' || c == '\u{2028}' || c == '\u{2029}' || c == '\u{202f}'
        || c == '\u{205f}' || c == '\u{3000}'
}

pub fn blank(s: &Vec<char>) -> (r: bool)
    ensures
        r == is_blank(s@),
{
    let mut i: usize = 0;
    while i < s.len()
        invariant
            0 <= i <= s@.len(),
            forall|j: int| 0 <= j < i ==> is_space(s@[j]),
        decreases s@.len() - i,
    {
        if !space_char(s[i]) {
            return false;
        }
        i += 1;
    }
    true
}

/// Leading whitespace removed.
pub open spec fn trim_start_spec(s: Seq<char>) -> Seq<char>
    decreases s.len(),
{
    if s.len() > 0 && is_space(s[0]) {
        trim_start_spec(s.drop_first())
    } else {
        s
    }
}

/// Trailing whitespace removed.
pub open spec fn trim_end_spec(s: Seq<char>) -> Seq<char>
    decreases s.len(),
{
    if s.len() > 0 && is_space(s.last()) {
        trim_end_spec(s.drop_last())
    } else {
        s
    }
}

/// Whitespace removed from both ends.
pub open spec fn trim_spec(s: Seq<char>) -> Seq<char> {
    trim_end_spec(trim_start_spec(s))
}

/// Trailing newline characters (only `'\n'`) removed.
pub open spec fn trim_end_newlines_spec(s: Seq<char>) -> Seq<char>
    decreases s.len(),
{
    if s.len() > 0 && s.last() == '\n' {
        trim_end_newlines_spec(s.drop_last())
    } else {
        s
    }
}

pub fn trim(s: &Vec<char>) -> (r: Vec<char>)
    ensures
        r@ == trim_spec(s@),
{
    proof {
        assert(s@.skip(0) =~= s@);
    }
    let mut i: usize = 0;
    while i < s.len() && space_char(s[i])
        invariant
            0 <= i <= s@.len(),
            trim_start_spec(s@) == trim_start_spec(s@.skip(i as int)),
        decreases s@.len() - i,
    {
        proof {
            assert(s@.skip(i as int).drop_first() =~= s@.skip(i + 1));
        }
        i += 1;
    }
    proof {
        assert(trim_start_spec(s@) == s@.skip(i as int));
    }
    proof {
        assert(s@.skip(i as int) =~= s@.subrange(i as int, s@.len() as int));
    }
    let mut j: usize = s.len();
    while j > i && space_char(s[j - 1])
        invariant
            i <= j <= s@.len(),
            trim_end_spec(s@.skip(i as int)) == trim_end_spec(s@.subrange(i as int, j as int)),
        decreases j,
    {
        proof {
            assert(s@.subrange(i as int, j as int).drop_last() =~= s@.subrange(
                i as int,
                j - 1,
            ));
        }
        j -= 1;
    }
    proof {
        assert(s@.skip(i as int) =~= s@.subrange(i as int, s@.len() as int));
        assert(trim_end_spec(s@.subrange(i as int, j as int)) == s@.subrange(i as int, j as int));
    }
    copy_range(s, i, j)
}

pub fn trim_end_newlines(s: &Vec<char>) -> (r: Vec<char>)
    ensures
        r@ == trim_end_newlines_spec(s@),
{
    proof {
        assert(s@ =~= s@.subrange(0, s@.len() as int));
    }
    let mut j: usize = s.len();
    while j > 0 && s[j - 1] == '\n'
        invariant
            0 <= j <= s@.len(),
            trim_end_newlines_spec(s@) == trim_end_newlines_spec(s@.subrange(0, j as int)),
        decreases j,
    {
        proof {
            assert(s@.subrange(0, j as int).drop_last() =~= s@.subrange(0, j - 1));
        }
        j -= 1;
    }
    proof {
        assert(s@ =~= s@.subrange(0, s@.len() as int));
        assert(trim_end_newlines_spec(s@.subrange(0, j as int)) == s@.subrange(0, j as int));
    }
    copy_range(s, 0, j)
}

/// The characters of `s` from `from` (inclusive) to `to` (exclusive), as a new vector.
pub fn copy_range(s: &Vec<char>, from: usize, to: usize) -> (r: Vec<char>)
    requires
        0 <= from <= to <= s@.len(),
    ensures
        r@ == s@.subrange(from as int, to as int),
{
    let mut r: Vec<char> = Vec::new();
    let mut k: usize = from;
    while k < to
        invariant
            from <= k <= to <= s@.len(),
            r@ == s@.subrange(from as int, k as int),
        decreases to - k,
    {
        r.push(s[k]);
        proof {
            assert(s@.subrange(from as int, k as int).push(s@[k as int]) =~= s@.subrange(
                from as int,
                k + 1,
            ));
        }
        k += 1;
    }
    r
}

/// Appends every character of `s` to `out`.
pub fn push_all(out: &mut Vec<char>, s: &Vec<char>)
    ensures
        final(out)@ == old(out)@ + s@,
{
    let mut k: usize = 0;
    while k < s.len()
        invariant
            0 <= k <= s@.len(),
            out@ == old(out)@ + s@.subrange(0, k as int),
        decreases s@.len() - k,
    {
        out.push(s[k]);
        proof {
            assert((old(out)@ + s@.subrange(0, k as int)).push(s@[k as int]) =~= old(out)@
                + s@.subrange(0, k + 1));
        }
        k += 1;
    }
    proof {
        assert(s@.subrange(0, s@.len() as int) =~= s@);
    }
}

/// Appends the characters of the string slice `s` to `out`.
pub fn push_str(out: &mut Vec<char>, s: &str)
    ensures
        final(out)@ == old(out)@ + s@,
{
    broadcast use vstd::string::axiom_spec_iter, vstd::string::next_postcondition;

    let mut it = s.chars();
    loop
        invariant
            it.decrease() is Some,
            out@ + it.remaining() == old(out)@ + s@,
        decreases it.decrease()->0,
    {
        match it.next() {
            Some(c) => {
                out.push(c);
            },
            None => {
                break ;
            },
        }
    }
}

/// A fresh copy of a character vector.
pub fn clone_chars(s: &Vec<char>) -> (r: Vec<char>)
    ensures
        r@ == s@,
{
    let mut r: Vec<char> = Vec::new();
    push_all(&mut r, s);
    r
}

/// Relies on `String::push`: appends one character to the string.
#[verifier::external_body]
fn push_char(s: &mut String, c: char)
    ensures
        final(s)@ == old(s)@.push(c),
{
    s.push(c);
}

/// Collects a character vector into a `String` with the same characters.
pub fn chars_to_string(v: &Vec<char>) -> (r: String)
    ensures
        r@ == v@,
{
    let mut r = String::new();
    let mut k: usize = 0;
    while k < v.len()
        invariant
            0 <= k <= v@.len(),
            r@ == v@.subrange(0, k as int),
        decreases v@.len() - k,
    {
        push_char(&mut r, v[k]);
        proof {
            assert(v@.subrange(0, k as int).push(v@[k as int]) =~= v@.subrange(0, k + 1));
        }
        k += 1;
    }
    proof {
        assert(v@.subrange(0, v@.len() as int) =~= v@);
    }
    r
}

/// The pattern `p` occurs in `s` starting at position `i`.
pub open spec fn matches_at(s: Seq<char>, p: Seq<char>, i: int) -> bool {
    0 <= i && i + p.len() <= s.len() && s.subrange(i, i + p.len()) == p
}

/// The pattern `p` occurs somewhere in `s`.
pub open spec fn contains_seq(s: Seq<char>, p: Seq<char>) -> bool {
    exists|i: int| matches_at(s, p, i)
}

/// Every occurrence of `from` in `s` replaced by `to`, scanning left to right
/// over non-overlapping matches; replacements are not re-scanned.
pub open spec fn replace_spec(s: Seq<char>, from: Seq<char>, to: Seq<char>) -> Seq<char>
    decreases s.len(),
        0int when from.len() > 0
{
    if s.len() < from.len() || from.len() == 0 {
        s
    } else if s.subrange(0, from.len() as int) == from {
        to + replace_spec(s.skip(from.len() as int), from, to)
    } else {
        seq![s[0]] + replace_spec(s.skip(1), from, to)
    }
}

/// Whether `p` occurs in `s` at position `i` (both vectors read, nothing written).
pub fn matches_range(s: &Vec<char>, p: &Vec<char>, i: usize) -> (r: bool)
    requires
        i + p@.len() <= s@.len(),
    ensures
        r == matches_at(s@, p@, i as int),
{
    let n = s.len();
    let mut k: usize = 0;
    while k < p.len()
        invariant
            0 <= k <= p@.len(),
            i + p@.len() <= s@.len(),
            n == s@.len(),
            forall|m: int| 0 <= m < k ==> s@[i + m] == p@[m],
        decreases p@.len() - k,
    {
        if s[i + k] != p[k] {
            proof {
                assert(s@.subrange(i as int, i + p@.len())[k as int] == s@[i + k]);
                assert(s@.subrange(i as int, i + p@.len()) != p@);
            }
            return false;
        }
        k += 1;
    }
    proof {
        assert(s@.subrange(i as int, i + p@.len()) =~= p@);
    }
    true
}

pub fn contains_chars(s: &Vec<char>, p: &Vec<char>) -> (r: bool)
    ensures
        r == contains_seq(s@, p@),
{
    if p.len() == 0 {
        proof {
            assert(s@.subrange(0, 0) =~= p@);
            assert(matches_at(s@, p@, 0));
        }
        return true;
    }
    if p.len() > s.len() {
        return false;
    }
    let mut i: usize = 0;
    while i <= s.len() - p.len()
        invariant
            1 <= p@.len() <= s@.len(),
            0 <= i <= s@.len() - p@.len() + 1,
            forall|m: int| 0 <= m < i ==> !matches_at(s@, p@, m),
        decreases s@.len() - p@.len() + 1 - i,
    {
        if matches_range(s, p, i) {
            return true;
        }
        i += 1;
    }
    false
}

/// Every occurrence of `from` replaced by `to`, as `replace_spec` describes.
pub fn replace_chars(s: &Vec<char>, from: &Vec<char>, to: &Vec<char>) -> (r: Vec<char>)
    requires
        from@.len() > 0,
    ensures
        r@ == replace_spec(s@, from@, to@),
{
    let mut out: Vec<char> = Vec::new();
    let mut i: usize = 0;
    proof {
        assert(s@.skip(0) =~= s@);
    }
    while i < s.len()
        invariant
            0 <= i <= s@.len(),
            from@.len() > 0,
            out@ + replace_spec(s@.skip(i as int), from@, to@) == replace_spec(s@, from@, to@),
        decreases s@.len() - i,
    {
        let ghost pre = out@;
        let ghost rest = s@.skip(i as int);
        if s.len() - i >= from.len() && matches_range(s, from, i) {
            proof {
                assert(rest.subrange(0, from@.len() as int) =~= s@.subrange(
                    i as int,
                    i + from@.len(),
                ));
                assert(rest.skip(from@.len() as int) =~= s@.skip(i + from@.len()));
                assert(replace_spec(rest, from@, to@) == to@ + replace_spec(
                    s@.skip(i + from@.len()),
                    from@,
                    to@,
                ));
            }
            push_all(&mut out, to);
            proof {
                assert(pre + replace_spec(rest, from@, to@) =~= out@ + replace_spec(
                    s@.skip(i + from@.len()),
                    from@,
                    to@,
                ));
            }
            i += from.len();
        } else {
            proof {
                if rest.len() >= from@.len() {
                    assert(rest.subrange(0, from@.len() as int) =~= s@.subrange(
                        i as int,
                        i + from@.len(),
                    ));
                    assert(rest.subrange(0, from@.len() as int) != from@);
                    assert(replace_spec(rest, from@, to@) == seq![rest[0]] + replace_spec(
                        rest.skip(1),
                        from@,
                        to@,
                    ));
                } else {
                    assert(replace_spec(rest, from@, to@) == rest);
                    assert(rest.skip(1).len() < from@.len());
                    assert(replace_spec(rest.skip(1), from@, to@) == rest.skip(1));
                    assert(rest =~= seq![rest[0]] + rest.skip(1));
                }
                assert(rest.skip(1) =~= s@.skip(i + 1));
                assert(pre + replace_spec(rest, from@, to@) =~= pre.push(s@[i as int])
                    + replace_spec(s@.skip(i + 1), from@, to@));
            }
            out.push(s[i]);
            i += 1;
        }
    }
    proof {
        assert(s@.skip(s@.len() as int) =~= Seq::<char>::empty());
        assert(out@ + replace_spec(s@.skip(i as int), from@, to@) =~= out@);
    }
    out
}

/// The decimal digit character for `d`.
pub open spec fn digit_spec(d: int) -> char {
    if d == 0 {
        '0'
    } else if d == 1 {
        '1'
    } else if d == 2 {
        '2'
    } else if d == 3 {
        '3'
    } else if d == 4 {
        '4'
    } else if d == 5 {
        '5'
    } else if d == 6 {
        '6'
    } else if d == 7 {
        '7'
    } else if d == 8 {
        '8'
    } else {
        '9'
    }
}

/// The decimal rendering of a non-negative integer, no leading zeros except for 0 itself.
pub open spec fn udec_spec(n: int) -> Seq<char>
    decreases n,
{
    if n < 10 {
        seq![digit_spec(n)]
    } else {
        udec_spec(n / 10).push(digit_spec(n % 10))
    }
}

/// The decimal rendering of a signed integer, `'-'`-prefixed when negative.
pub open spec fn dec_spec(n: int) -> Seq<char> {
    if n < 0 {
        seq!['-'] + udec_spec(-n)
    } else {
        udec_spec(n)
    }
}

fn digit_char(d: u64) -> (c: char)
    requires
        d < 10,
    ensures
        c == digit_spec(d as int),
{
    if d == 0 {
        '0'
    } else if d == 1 {
        '1'
    } else if d == 2 {
        '2'
    } else if d == 3 {
        '3'
    } else if d == 4 {
        '4'
    } else if d == 5 {
        '5'
    } else if d == 6 {
        '6'
    } else if d == 7 {
        '7'
    } else if d == 8 {
        '8'
    } else {
        '9'
    }
}

fn push_udec(out: &mut Vec<char>, n: u64)
    ensures
        final(out)@ == old(out)@ + udec_spec(n as int),
    decreases n,
{
    if n < 10 {
        out.push(digit_char(n));
        proof {
            assert(old(out)@.push(digit_spec(n as int)) =~= old(out)@ + udec_spec(n as int));
        }
    } else {
        push_udec(out, n / 10);
        out.push(digit_char(n % 10));
        proof {
            assert((old(out)@ + udec_spec(n as int / 10)).push(digit_spec(n as int % 10)) =~= old(
                out,
            )@ + udec_spec(n as int));
        }
    }
}

/// The decimal rendering of `n`, as `i64::to_string` would give it.
pub fn dec_chars(n: i64) -> (r: Vec<char>)
    ensures
        r@ == dec_spec(n as int),
{
    let mut out: Vec<char> = Vec::new();
    if n < 0 {
        out.push('-');
        let wide: i128 = n as i128;
        let mag: u64 = (-wide) as u64;
        proof {
            assert(seq!['-'] + udec_spec(mag as int) =~= out@ + udec_spec(mag as int));
        }
        push_udec(&mut out, mag);
    } else {
        let mag: u64 = n as u64;
        push_udec(&mut out, mag);
    }
    out
}

} // verus!
