//! Text operations on slices of characters.
//!
//! A string is turned into a vector of its characters once, and the operations
//! here then work on slices of it, so that a position is an index.
use vstd::prelude::*;
use vstd::slice::slice_subrange;

use crate::text;

verus! {

/// Appends a character to a string, as `String::push` documents.
pub assume_specification[ String::push ](s: &mut String, c: char)
    ensures
        final(s)@ == old(s)@.push(c),
;

/// The characters of a string.
pub fn of(s: &str) -> (r: Vec<char>)
    ensures
        r@ == s@,
{
    let mut v: Vec<char> = Vec::new();
    for c in it: s.chars()
        invariant
            v@ == it.seq().take(it.index()),
            it.seq() == s@,
    {
        v.push(c);
        assert(it.seq().take(it.index() + 1) =~= it.seq().take(it.index()).push(c));
    }
    assert(s@.take(s@.len() as int) =~= s@);
    v
}

/// The string made of some characters.
pub fn to_string(s: &[char]) -> (r: String)
    ensures
        r@ == s@,
{
    let mut out = String::new();
    let mut i: usize = 0;
    while i < s.len()
        invariant
            i <= s.len(),
            out@ == s@.take(i as int),
        decreases s.len() - i,
    {
        out.push(s[i]);
        i = i + 1;
        assert(s@.take(i as int) =~= s@.take(i - 1).push(s@[i - 1]));
    }
    assert(s@.take(s@.len() as int) =~= s@);
    out
}

/// The characters from position `i` to before position `j`.
pub fn range(s: &[char], i: usize, j: usize) -> (r: &[char])
    requires
        i <= j <= s@.len(),
    ensures
        r@ == s@.subrange(i as int, j as int),
{
    slice_subrange(s, i, j)
}

/// The first `n` characters.
pub fn take(s: &[char], n: usize) -> (r: &[char])
    requires
        n <= s@.len(),
    ensures
        r@ == s@.take(n as int),
{
    slice_subrange(s, 0, n)
}

/// What is left behind the first `n` characters.
pub fn skip(s: &[char], n: usize) -> (r: &[char])
    requires
        n <= s@.len(),
    ensures
        r@ == s@.skip(n as int),
{
    slice_subrange(s, n, s.len())
}

/// Appends characters to a vector.
pub fn append(v: &mut Vec<char>, s: &[char])
    ensures
        final(v)@ == old(v)@ + s@,
{
    let mut i: usize = 0;
    let ghost v0 = v@;
    while i < s.len()
        invariant
            i <= s.len(),
            v@ == v0 + s@.take(i as int),
        decreases s.len() - i,
    {
        v.push(s[i]);
        i = i + 1;
        assert(s@.take(i as int) =~= s@.take(i - 1).push(s@[i - 1]));
    }
    assert(s@.take(s@.len() as int) =~= s@);
}

/// Are two texts the same?
pub fn same(a: &[char], b: &[char]) -> (r: bool)
    ensures
        r == (a@ == b@),
{
    if a.len() != b.len() {
        return false;
    }
    let mut i: usize = 0;
    while i < a.len()
        invariant
            i <= a.len(),
            a.len() == b.len(),
            forall|k: int| 0 <= k < i ==> a@[k] == b@[k],
        decreases a.len() - i,
    {
        if a[i] != b[i] {
            return false;
        }
        i = i + 1;
    }
    assert(a@ =~= b@);
    true
}

/// Is a text the given literal?
pub fn is(a: &[char], b: &str) -> (r: bool)
    ensures
        r == (a@ == b@),
{
    let b = of(b);
    same(a, &b)
}

/// Are two strings the same text?
pub fn str_same(a: &str, b: &str) -> (r: bool)
    ensures
        r == (a@ == b@),
{
    let b = of(b);
    let a = of(a);
    same(&a, &b)
}

pub fn is_whitespace(c: char) -> (r: bool)
    ensures
        r == text::is_whitespace(c),
{
    ('\u{9}' <= c && c <= '\u{d}') || c == ' ' || c == '\u{85}' || c == '\u{a0}' || c == '\u{1680}'
        || ('\u{2000}' <= c && c <= '\u{200a}') || c == '\u{2028}' || c == '\u{2029}'
        || c == '\u{202f}' || c == '\u{205f}' || c == '\u{3000}'
}

pub fn is_digit(c: char) -> (r: bool)
    ensures
        r == text::is_digit(c),
{
    '0' <= c && c <= '9'
}

pub fn is_ascii_alnum(c: char) -> (r: bool)
    ensures
        r == text::is_ascii_alnum(c),
{
    is_digit(c) || ('a' <= c && c <= 'z') || ('A' <= c && c <= 'Z')
}

pub fn lower_char(c: char) -> (r: char)
    ensures
        r == text::lower_char(c),
{
    if 'A' <= c && c <= 'Z' {
        (c as u8 + 32) as char
    } else {
        c
    }
}

/// The text with its ASCII capitals made small.
pub fn ascii_lower(s: &[char]) -> (r: Vec<char>)
    ensures
        r@ == text::ascii_lower(s@),
{
    let mut out: Vec<char> = Vec::new();
    let mut i: usize = 0;
    while i < s.len()
        invariant
            i <= s.len(),
            out@.len() == i,
            forall|k: int| 0 <= k < i ==> out@[k] == text::lower_char(s@[k]),
        decreases s.len() - i,
    {
        out.push(lower_char(s[i]));
        i = i + 1;
    }
    assert(out@ =~= text::ascii_lower(s@));
    out
}

/// Does `p` stand in `s` at position `i`?
pub fn occurs_at(s: &[char], p: &[char], i: usize) -> (r: bool)
    ensures
        r == text::occurs_at(s@, p@, i as int),
{
    if i > s.len() || p.len() > s.len() - i {
        return false;
    }
    same(range(s, i, i + p.len()), p)
}

/// The first position at which `p` stands in `s`.
pub fn find(s: &[char], p: &[char]) -> (r: Option<usize>)
    ensures
        match r {
            Some(i) => text::find(s@, p@) == Some(i as int) && text::occurs_at(s@, p@, i as int),
            None => text::find(s@, p@) is None,
        },
{
    let mut i: usize = 0;
    loop
        invariant
            i <= s.len() + 1,
            text::find(s@, p@) == text::find_from(s@, p@, i as int),
        decreases s.len() + 1 - i,
    {
        if i > s.len() || p.len() > s.len() - i {
            return None;
        }
        if occurs_at(s, p, i) {
            return Some(i);
        }
        if i == s.len() {
            proof {
                assert(p@.len() == 0);
                assert(s@.subrange(i as int, i as int) =~= p@);
            }
            return None;
        }
        i = i + 1;
    }
}

/// The first position at which the character `c` stands in `s`.
pub fn find_char(s: &[char], c: char) -> (r: Option<usize>)
    ensures
        match r {
            Some(i) => text::find(s@, seq![c]) == Some(i as int) && i < s.len() && s@[i as int]
                == c,
            None => text::find(s@, seq![c]) is None,
        },
{
    let mut i: usize = 0;
    while i < s.len()
        invariant
            i <= s.len(),
            text::find(s@, seq![c]) == text::find_from(s@, seq![c], i as int),
        decreases s.len() - i,
    {
        proof {
            assert(s@.subrange(i as int, i + 1) =~= seq![s@[i as int]]);
            assert(seq![s@[i as int]][0] == s@[i as int]);
            assert(seq![c][0] == c);
        }
        if s[i] == c {
            return Some(i);
        }
        i = i + 1;
    }
    None
}

/// Does `p` stand somewhere in `s`?
pub fn contains(s: &[char], p: &str) -> (r: bool)
    ensures
        r == text::contains(s@, p@),
{
    let p = of(p);
    find(s, &p).is_some()
}

/// The last position at which the character `c` stands in `s`.
pub fn rfind(s: &[char], c: char) -> (r: Option<usize>)
    ensures
        match r {
            Some(i) => text::rfind(s@, c) == Some(i as int) && i < s.len(),
            None => text::rfind(s@, c) is None,
        },
{
    let mut i: usize = s.len();
    while i > 0
        invariant
            i <= s.len(),
            text::rfind(s@, c) == text::rfind_before(s@, c, i as int),
        decreases i,
    {
        if s[i - 1] == c {
            return Some(i - 1);
        }
        i = i - 1;
    }
    None
}

/// The last position at which `p` stands in `s`.
pub fn rfind_text(s: &[char], p: &str) -> (r: Option<usize>)
    ensures
        match r {
            Some(i) => text::rfind_text(s@, p@) == Some(i as int) && i + p@.len() <= s.len(),
            None => text::rfind_text(s@, p@) is None,
        },
{
    let pattern = of(p);
    let mut i: usize = s.len();
    loop
        invariant
            i <= s.len(),
            pattern@ == p@,
            text::rfind_text(s@, p@) == text::rfind_text_from(s@, p@, i as int),
        decreases i,
    {
        if occurs_at(s, &pattern, i) {
            return Some(i);
        }
        if i == 0 {
            return None;
        }
        i = i - 1;
    }
}

/// Is `c` one of the characters of `set`?
pub fn member(set: &[char], c: char) -> (r: bool)
    ensures
        r == set@.contains(c),
{
    let mut i: usize = 0;
    while i < set.len()
        invariant
            i <= set.len(),
            forall|k: int| 0 <= k < i ==> set@[k] != c,
        decreases set.len() - i,
    {
        if set[i] == c {
            assert(set@[i as int] == c);
            return true;
        }
        i = i + 1;
    }
    false
}

/// The first position whose character is one of `set`.
pub fn find_any(s: &[char], set: &str) -> (r: Option<usize>)
    ensures
        match r {
            Some(i) => text::find_any(s@, set@) == Some(i as int) && i < s.len(),
            None => text::find_any(s@, set@) is None,
        },
{
    let members = of(set);
    let mut i: usize = 0;
    while i < s.len()
        invariant
            i <= s.len(),
            members@ == set@,
            text::find_any(s@, set@) == text::find_any_from(s@, set@, i as int),
        decreases s.len() - i,
    {
        if member(&members, s[i]) {
            return Some(i);
        }
        i = i + 1;
    }
    None
}

pub fn starts_with(s: &[char], p: &str) -> (r: bool)
    ensures
        r == p@.is_prefix_of(s@),
{
    let p = of(p);
    occurs_at(s, &p, 0)
}

pub fn ends_with(s: &[char], p: &str) -> (r: bool)
    ensures
        r == p@.is_suffix_of(s@),
{
    let p = of(p);
    if p.len() > s.len() {
        return false;
    }
    same(skip(s, s.len() - p.len()), &p)
}

pub fn strip_prefix<'a>(s: &'a [char], p: &str) -> (r: Option<&'a [char]>)
    ensures
        match r {
            Some(t) => text::strip_prefix(s@, p@) == Some(t@),
            None => text::strip_prefix(s@, p@) is None,
        },
{
    let p = of(p);
    if occurs_at(s, &p, 0) {
        Some(skip(s, p.len()))
    } else {
        None
    }
}

pub fn strip_suffix<'a>(s: &'a [char], p: &str) -> (r: Option<&'a [char]>)
    ensures
        match r {
            Some(t) => text::strip_suffix(s@, p@) == Some(t@),
            None => text::strip_suffix(s@, p@) is None,
        },
{
    let p = of(p);
    if p.len() <= s.len() && same(skip(s, s.len() - p.len()), &p) {
        Some(take(s, s.len() - p.len()))
    } else {
        None
    }
}

/// What stands before and behind the first `p` in `s`.
pub fn split_once<'a>(s: &'a [char], p: &str) -> (r: Option<(&'a [char], &'a [char])>)
    ensures
        match r {
            Some(t) => text::split_once(s@, p@) == Some((t.0@, t.1@)),
            None => text::split_once(s@, p@) is None,
        },
{
    let p = of(p);
    match find(s, &p) {
        Some(i) => {
            assert(i + p.len() <= s.len());
            Some((take(s, i), skip(s, i + p.len())))
        },
        None => None,
    }
}

/// What stands before the first `c`, or all of `s`.
pub fn before(s: &[char], c: char) -> (r: &[char])
    ensures
        r@ == text::before(s@, c),
{
    match find_char(s, c) {
        Some(i) => take(s, i),
        None => s,
    }
}

/// The texts that a list of slices stands for.
pub open spec fn slice_views(v: Seq<&[char]>) -> Seq<Seq<char>> {
    Seq::new(v.len(), |i: int| v[i]@)
}

/// The pieces of `s` between the separators `c`.
pub fn split<'a>(s: &'a [char], c: char) -> (r: Vec<&'a [char]>)
    ensures
        slice_views(r@) == text::split(s@, c),
        r@.len() >= 1,
{
    let mut out: Vec<&'a [char]> = Vec::new();
    let mut rest: &'a [char] = s;
    loop
        invariant
            text::split(s@, c) == slice_views(out@) + text::split(rest@, c),
        decreases rest.len(),
    {
        let ghost out0 = out@;
        match find_char(rest, c) {
            Some(i) => {
                out.push(take(rest, i));
                proof {
                    assert(slice_views(out@) =~= slice_views(out0).push(rest@.take(i as int)));
                    assert(slice_views(out0) + (seq![rest@.take(i as int)] + text::split(
                        rest@.skip(i + 1),
                        c,
                    )) =~= slice_views(out@) + text::split(rest@.skip(i + 1), c));
                }
                rest = skip(rest, i + 1);
            },
            None => {
                out.push(rest);
                proof {
                    assert(slice_views(out@) =~= slice_views(out0) + seq![rest@]);
                }
                return out;
            },
        }
    }
}

/// The lines of `s`.
pub fn lines<'a>(s: &'a [char]) -> (r: Vec<&'a [char]>)
    ensures
        slice_views(r@) == text::lines(s@),
{
    let mut out: Vec<&'a [char]> = Vec::new();
    let mut rest: &'a [char] = s;
    proof {
        assert(slice_views(out@) + text::lines(rest@) =~= text::lines(s@));
    }
    while rest.len() > 0
        invariant
            text::lines(s@) == slice_views(out@) + text::lines(rest@),
        decreases rest.len(),
    {
        let ghost out0 = out@;
        match find_char(rest, '\n') {
            Some(i) => {
                let mut line: &'a [char] = take(rest, i);
                if i > 0 && rest[i - 1] == '\r' {
                    line = take(rest, i - 1);
                    assert(line@ =~= rest@.take(i as int).drop_last());
                }
                assert(line@ == text::strip_cr(rest@.take(i as int)));
                out.push(line);
                proof {
                    assert(slice_views(out@) =~= slice_views(out0).push(line@));
                    assert(slice_views(out0) + (seq![line@] + text::lines(rest@.skip(i + 1)))
                        =~= slice_views(out@) + text::lines(rest@.skip(i + 1)));
                }
                rest = skip(rest, i + 1);
            },
            None => {
                out.push(rest);
                proof {
                    assert(slice_views(out@) =~= slice_views(out0) + seq![rest@]);
                }
                return out;
            },
        }
    }
    assert(slice_views(out@) + text::lines(rest@) =~= slice_views(out@));
    out
}

pub fn trim_start(s: &[char]) -> (r: &[char])
    ensures
        r@ == text::trim_start(s@),
        r@.len() <= s@.len(),
{
    let mut i: usize = 0;
    assert(s@.skip(0) =~= s@);
    while i < s.len() && is_whitespace(s[i])
        invariant
            i <= s.len(),
            text::trim_start(s@) == text::trim_start(s@.skip(i as int)),
        decreases s.len() - i,
    {
        assert(s@.skip(i as int).skip(1) =~= s@.skip(i + 1));
        i = i + 1;
    }
    skip(s, i)
}

pub fn trim_end(s: &[char]) -> (r: &[char])
    ensures
        r@ == text::trim_end(s@),
        r@.len() <= s@.len(),
{
    let mut n: usize = s.len();
    assert(s@.take(n as int) =~= s@);
    while n > 0 && is_whitespace(s[n - 1])
        invariant
            n <= s.len(),
            text::trim_end(s@) == text::trim_end(s@.take(n as int)),
        decreases n,
    {
        assert(s@.take(n as int).drop_last() =~= s@.take(n - 1));
        n = n - 1;
    }
    take(s, n)
}

pub fn trim(s: &[char]) -> (r: &[char])
    ensures
        r@ == text::trim(s@),
        r@.len() <= s@.len(),
{
    trim_end(trim_start(s))
}

pub fn trim_start_set<'a>(s: &'a [char], set: &str) -> (r: &'a [char])
    ensures
        r@ == text::trim_start_set(s@, set@),
{
    let set = of(set);
    let mut i: usize = 0;
    assert(s@.skip(0) =~= s@);
    while i < s.len() && member(&set, s[i])
        invariant
            i <= s.len(),
            text::trim_start_set(s@, set@) == text::trim_start_set(s@.skip(i as int), set@),
        decreases s.len() - i,
    {
        assert(s@.skip(i as int).skip(1) =~= s@.skip(i + 1));
        i = i + 1;
    }
    skip(s, i)
}

pub fn trim_end_set<'a>(s: &'a [char], set: &str) -> (r: &'a [char])
    ensures
        r@ == text::trim_end_set(s@, set@),
{
    let set = of(set);
    let mut n: usize = s.len();
    assert(s@.take(n as int) =~= s@);
    while n > 0 && member(&set, s[n - 1])
        invariant
            n <= s.len(),
            text::trim_end_set(s@, set@) == text::trim_end_set(s@.take(n as int), set@),
        decreases n,
    {
        assert(s@.take(n as int).drop_last() =~= s@.take(n - 1));
        n = n - 1;
    }
    take(s, n)
}

pub fn trim_set<'a>(s: &'a [char], set: &str) -> (r: &'a [char])
    ensures
        r@ == text::trim_set(s@, set@),
{
    trim_end_set(trim_start_set(s, set), set)
}

pub fn trim_end_text<'a>(s: &'a [char], p: &str) -> (r: &'a [char])
    ensures
        r@ == text::trim_end_text(s@, p@),
{
    let suffix = of(p);
    let mut rest: &'a [char] = s;
    if suffix.len() == 0 {
        return rest;
    }
    while ends_with(rest, p)
        invariant
            suffix@ == p@,
            suffix@.len() > 0,
            text::trim_end_text(s@, p@) == text::trim_end_text(rest@, p@),
        decreases rest.len(),
    {
        rest = take(rest, rest.len() - suffix.len());
    }
    rest
}

pub fn trim_start_text<'a>(s: &'a [char], p: &str) -> (r: &'a [char])
    ensures
        r@ == text::trim_start_text(s@, p@),
{
    let prefix = of(p);
    let mut rest: &'a [char] = s;
    if prefix.len() == 0 {
        return rest;
    }
    while starts_with(rest, p)
        invariant
            prefix@ == p@,
            prefix@.len() > 0,
            text::trim_start_text(s@, p@) == text::trim_start_text(rest@, p@),
        decreases rest.len(),
    {
        rest = skip(rest, prefix.len());
    }
    rest
}

/// The number of leading characters that are not whitespace.
fn leading_word(s: &[char]) -> (n: usize)
    ensures
        n == text::leading_word(s@),
        n <= s@.len(),
        s@.len() > 0 && !text::is_whitespace(s@[0]) ==> n > 0,
{
    let mut i: usize = 0;
    assert(s@.skip(0) =~= s@);
    while i < s.len() && !is_whitespace(s[i])
        invariant
            i <= s.len(),
            text::leading_word(s@) == i + text::leading_word(s@.skip(i as int)),
            i == 0 ==> s@.skip(i as int) == s@,
        decreases s.len() - i,
    {
        assert(s@.skip(i as int).skip(1) =~= s@.skip(i + 1));
        i = i + 1;
    }
    i
}

/// The words of `s`.
pub fn words<'a>(s: &'a [char]) -> (r: Vec<&'a [char]>)
    ensures
        slice_views(r@) == text::words(s@),
{
    let mut out: Vec<&'a [char]> = Vec::new();
    let mut rest: &'a [char] = s;
    proof {
        assert(slice_views(out@) + text::words(rest@) =~= text::words(s@));
    }
    loop
        invariant
            text::words(s@) == slice_views(out@) + text::words(rest@),
        decreases rest.len(),
    {
        let ghost out0 = out@;
        let t = trim_start(rest);
        let n: usize = leading_word(t);
        if t.len() == 0 || n == 0 {
            proof {
                assert(slice_views(out@) + text::words(rest@) =~= slice_views(out@));
            }
            return out;
        }
        let w = take(t, n);
        out.push(w);
        proof {
            assert(slice_views(out@) =~= slice_views(out0).push(w@));
            assert(slice_views(out0) + (seq![w@] + text::words(t@.skip(n as int)))
                =~= slice_views(out@) + text::words(t@.skip(n as int)));
        }
        rest = skip(t, n);
    }
}

/// `s` with each `a` replaced by the text `b`.
pub fn replace_char(s: &[char], a: char, b: &str) -> (r: Vec<char>)
    ensures
        r@ == text::replace_char(s@, a, b@),
{
    let b = of(b);
    let mut out: Vec<char> = Vec::new();
    let mut i: usize = 0;
    while i < s.len()
        invariant
            i <= s.len(),
            out@ == text::replace_char(s@.take(i as int), a, b@),
        decreases s.len() - i,
    {
        proof {
            assert(s@.take(i + 1).drop_last() =~= s@.take(i as int));
            assert(s@.take(i + 1).last() == s@[i as int]);
        }
        if s[i] == a {
            append(&mut out, &b);
        } else {
            out.push(s[i]);
            assert(out@ =~= text::replace_char(s@.take(i as int), a, b@) + seq![s@[i as int]]);
        }
        i = i + 1;
    }
    assert(s@.take(s@.len() as int) =~= s@);
    out
}

/// The number of leading decimal digits.
pub fn leading_digits(s: &[char]) -> (n: usize)
    ensures
        n == text::leading_digits(s@),
        n <= s@.len(),
{
    let mut i: usize = 0;
    assert(s@.skip(0) =~= s@);
    while i < s.len() && is_digit(s[i])
        invariant
            i <= s.len(),
            text::leading_digits(s@) == i + text::leading_digits(s@.skip(i as int)),
        decreases s.len() - i,
    {
        assert(s@.skip(i as int).skip(1) =~= s@.skip(i + 1));
        i = i + 1;
    }
    i
}

/// Values of digit runs grow with the run.
proof fn value_grows(s: Seq<char>, n: int)
    requires
        0 <= n <= s.len(),
        text::all_digits(s),
    ensures
        text::value(s.take(n)) <= text::value(s),
    decreases s.len() - n,
{
    if n < s.len() {
        value_grows(s, n + 1);
        assert(s.take(n + 1).drop_last() =~= s.take(n));
    } else {
        assert(s.take(n) =~= s);
    }
}

/// The number that a run of digits stands for, unless it is over `max`.
pub fn bounded_value(s: &[char], max: u64) -> (r: Option<u64>)
    ensures
        match r {
            Some(n) => text::bounded_value(s@, max as nat) == Some(n as nat),
            None => text::bounded_value(s@, max as nat) is None,
        },
{
    if s.len() == 0 {
        return None;
    }
    let mut n: u64 = 0;
    let mut i: usize = 0;
    while i < s.len()
        invariant
            i <= s.len(),
            n == text::value(s@.take(i as int)),
            n <= max,
            forall|k: int| 0 <= k < i ==> text::is_digit(s@[k]),
        decreases s.len() - i,
    {
        if !is_digit(s[i]) {
            assert(!text::all_digits(s@));
            return None;
        }
        let d: u64 = (s[i] as u32 - 48) as u64;
        proof {
            assert(s@.take(i + 1).drop_last() =~= s@.take(i as int));
            assert(text::value(s@.take(i + 1)) == n * 10 + d);
            if text::all_digits(s@) {
                value_grows(s@, i + 1);
            }
        }
        if n > max / 10 {
            assert(n * 10 > max) by {
                assert(n >= max / 10 + 1);
            }
            return None;
        }
        if d > max || n * 10 > max - d {
            return None;
        }
        n = n * 10 + d;
        i = i + 1;
    }
    assert(s@.take(s@.len() as int) =~= s@);
    Some(n)
}

/// The unsigned number that `s` stands for, with at most one plus sign before it.
pub fn parse_u64(s: &[char]) -> (r: Option<u64>)
    ensures
        match r {
            Some(n) => text::parse_unsigned(s@, u64::MAX as nat) == Some(n as nat),
            None => text::parse_unsigned(s@, u64::MAX as nat) is None,
        },
{
    if s.len() > 0 && s[0] == '+' {
        bounded_value(skip(s, 1), u64::MAX)
    } else {
        bounded_value(s, u64::MAX)
    }
}

/// The unsigned number below 2^32 that `s` stands for, with at most one plus
/// sign before it.
pub fn parse_u32(s: &[char]) -> (r: Option<u32>)
    ensures
        match r {
            Some(n) => text::parse_unsigned(s@, u32::MAX as nat) == Some(n as nat),
            None => text::parse_unsigned(s@, u32::MAX as nat) is None,
        },
{
    let n: Option<u64> = if s.len() > 0 && s[0] == '+' {
        bounded_value(skip(s, 1), u32::MAX as u64)
    } else {
        bounded_value(s, u32::MAX as u64)
    };
    match n {
        Some(n) => Some(n as u32),
        None => None,
    }
}

/// A number written in decimal.
pub fn decimal(n: u128) -> (r: Vec<char>)
    ensures
        r@ == text::decimal(n as nat),
    decreases n,
{
    if n < 10 {
        let mut v: Vec<char> = Vec::new();
        v.push((48 + n as u8) as char);
        assert(v@ =~= seq![text::digit_char(n as nat)]);
        v
    } else {
        let mut v = decimal(n / 10);
        v.push((48 + (n % 10) as u8) as char);
        v
    }
}

/// Does `a` come before `b` in the order of texts?
pub fn less(a: &[char], b: &[char]) -> (r: bool)
    ensures
        r == text::less(a@, b@),
{
    let mut i: usize = 0;
    assert(a@.skip(0) =~= a@);
    assert(b@.skip(0) =~= b@);
    while i < a.len() && i < b.len()
        invariant
            i <= a.len(),
            i <= b.len(),
            text::less(a@, b@) == text::less(a@.skip(i as int), b@.skip(i as int)),
        decreases a.len() - i,
    {
        if a[i] != b[i] {
            return a[i] < b[i];
        }
        assert(a@.skip(i as int).skip(1) =~= a@.skip(i + 1));
        assert(b@.skip(i as int).skip(1) =~= b@.skip(i + 1));
        i = i + 1;
    }
    i < b.len()
}

/// The texts of `parts` with `sep` between each two.
pub fn join(parts: &[String], sep: &str) -> (r: String)
    ensures
        r@ == text::join(text::views(parts@), sep@),
{
    let ghost texts = text::views(parts@);
    let mut out = String::new();
    let mut i: usize = 0;
    assert(out@ =~= text::join(texts.take(0), sep@));
    while i < parts.len()
        invariant
            i <= parts.len(),
            texts == text::views(parts@),
            out@ == text::join(texts.take(i as int), sep@),
        decreases parts.len() - i,
    {
        proof {
            assert(texts.take(i + 1).drop_last() =~= texts.take(i as int));
            assert(texts.take(i + 1).last() == parts@[i as int]@);
        }
        if i > 0 {
            out.append(sep);
        }
        out.append(parts[i].as_str());
        assert(out@ =~= text::join(texts.take(i + 1), sep@));
        i = i + 1;
    }
    assert(texts.take(i as int) =~= texts);
    out
}

/// `s` with `b` in place of each `a`, from the start on.
pub fn replace_text(s: &[char], a: &str, b: &str) -> (r: Vec<char>)
    requires
        a@.len() > 0,
    ensures
        r@ == text::replace_text(s@, a@, b@),
{
    let pattern = of(a);
    let with = of(b);
    let mut out: Vec<char> = Vec::new();
    let mut rest: &[char] = s;
    assert(out@ + text::replace_text(rest@, a@, b@) =~= text::replace_text(s@, a@, b@));
    loop
        invariant
            pattern@ == a@,
            with@ == b@,
            a@.len() > 0,
            text::replace_text(s@, a@, b@) == out@ + text::replace_text(rest@, a@, b@),
        decreases rest.len(),
    {
        let ghost before = out@;
        match find(rest, &pattern) {
            Some(i) => {
                assert(i + pattern.len() <= rest.len());
                append(&mut out, take(rest, i));
                append(&mut out, &with);
                proof {
                    let tail = rest@.skip(i + a@.len());
                    assert(before + (rest@.take(i as int) + b@ + text::replace_text(
                        tail,
                        a@,
                        b@,
                    )) =~= out@ + text::replace_text(tail, a@, b@));
                }
                rest = skip(rest, i + pattern.len());
            },
            None => {
                append(&mut out, rest);
                return out;
            },
        }
    }
}

/// The number that `s` stands for, where it fits.
pub fn parse_u16(s: &[char]) -> (r: Option<u16>)
    ensures
        match r {
            Some(n) => text::parse_unsigned(s@, u16::MAX as nat) == Some(n as nat),
            None => text::parse_unsigned(s@, u16::MAX as nat) is None,
        },
{
    match parse_u64(s) {
        Some(n) => if n <= 0xffff {
            Some(n as u16)
        } else {
            None
        },
        None => None,
    }
}

} // verus!
