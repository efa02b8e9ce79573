//! What holds of texts and of what is found in them, cut off them and made of them.
use vstd::prelude::*;

use crate::text;

verus! {

// ── Searches ────────────────────────────────────────────────────────────────
proof fn find_from_is_first(s: Seq<char>, p: Seq<char>, i: int)
    requires
        0 <= i,
    ensures
        match text::find_from(s, p, i) {
            Some(k) => i <= k && text::occurs_at(s, p, k) && forall|j: int|
                i <= j < k ==> !text::occurs_at(s, p, j),
            None => forall|j: int| i <= j ==> !text::occurs_at(s, p, j),
        },
    decreases s.len() + 1 - i,
{
    if i + p.len() <= s.len() && s.subrange(i, i + p.len()) != p {
        find_from_is_first(s, p, i + 1);
    }
}

/// A search gives the first place at which a text occurs in another, and nothing where
/// it occurs nowhere.
pub proof fn find_is_first(s: Seq<char>, p: Seq<char>)
    ensures
        match text::find(s, p) {
            Some(k) => 0 <= k && k + p.len() <= s.len() && s.subrange(k, k + p.len()) == p
                && forall|j: int|
                0 <= j < k && j + p.len() <= s.len() ==> #[trigger] s.subrange(j, j + p.len()) != p,
            None => forall|j: int|
                0 <= j && j + p.len() <= s.len() ==> #[trigger] s.subrange(j, j + p.len()) != p,
        },
        text::contains(s, p) == exists|j: int|
            0 <= j && j + p.len() <= s.len() && #[trigger] s.subrange(j, j + p.len()) == p,
{
    find_from_is_first(s, p, 0);
    match text::find(s, p) {
        Some(k) => {
            assert forall|j: int| 0 <= j < k && j + p.len() <= s.len() implies #[trigger] s.subrange(
                j,
                j + p.len(),
            ) != p by {
                assert(!text::occurs_at(s, p, j));
            }
        },
        None => {
            assert forall|j: int| 0 <= j && j + p.len() <= s.len() implies #[trigger] s.subrange(
                j,
                j + p.len(),
            ) != p by {
                assert(!text::occurs_at(s, p, j));
            }
        },
    }
}

proof fn rfind_text_from_is_last(s: Seq<char>, p: Seq<char>, i: int)
    ensures
        match text::rfind_text_from(s, p, i) {
            Some(k) => 0 <= k <= i && text::occurs_at(s, p, k) && forall|j: int|
                k < j <= i ==> !text::occurs_at(s, p, j),
            None => forall|j: int| j <= i ==> !text::occurs_at(s, p, j),
        },
    decreases i + 1,
{
    if i >= 0 && !text::occurs_at(s, p, i) {
        rfind_text_from_is_last(s, p, i - 1);
    }
}

/// A search from the end gives the last place at which a text occurs in another.
pub proof fn rfind_text_is_last(s: Seq<char>, p: Seq<char>)
    ensures
        match text::rfind_text(s, p) {
            Some(k) => 0 <= k && k + p.len() <= s.len() && s.subrange(k, k + p.len()) == p
                && forall|j: int|
                k < j && j + p.len() <= s.len() ==> #[trigger] s.subrange(j, j + p.len()) != p,
            None => forall|j: int|
                0 <= j && j + p.len() <= s.len() ==> #[trigger] s.subrange(j, j + p.len()) != p,
        },
{
    rfind_text_from_is_last(s, p, s.len() as int);
    match text::rfind_text(s, p) {
        Some(k) => {
            assert forall|j: int| k < j && j + p.len() <= s.len() implies #[trigger] s.subrange(
                j,
                j + p.len(),
            ) != p by {
                assert(!text::occurs_at(s, p, j));
            }
        },
        None => {
            assert forall|j: int| 0 <= j && j + p.len() <= s.len() implies #[trigger] s.subrange(
                j,
                j + p.len(),
            ) != p by {
                assert(!text::occurs_at(s, p, j));
            }
        },
    }
}

proof fn rfind_before_is_last(s: Seq<char>, c: char, i: int)
    requires
        i <= s.len(),
    ensures
        match text::rfind_before(s, c, i) {
            Some(k) => 0 <= k < i && s[k] == c && forall|j: int| k < j < i ==> s[j] != c,
            None => forall|j: int| 0 <= j < i ==> s[j] != c,
        },
    decreases i,
{
    if i > 0 && s[i - 1] != c {
        rfind_before_is_last(s, c, i - 1);
    }
}

/// A search from the end for a character gives its last place.
pub proof fn rfind_is_last(s: Seq<char>, c: char)
    ensures
        match text::rfind(s, c) {
            Some(k) => 0 <= k < s.len() && s[k] == c && forall|j: int|
                k < j < s.len() ==> s[j] != c,
            None => !s.contains(c),
        },
{
    rfind_before_is_last(s, c, s.len() as int);
}

pub proof fn find_absent(s: Seq<char>, c: char, i: int)
    requires
        0 <= i,
        forall|k: int| i <= k < s.len() ==> s[k] != c,
    ensures
        text::find_from(s, seq![c], i) is None,
    decreases s.len() - i,
{
    if i < s.len() {
        assert(s.subrange(i, i + 1)[0] == s[i]);
        find_absent(s, c, i + 1);
    }
}

pub proof fn find_present(s: Seq<char>, c: char, i: int)
    requires
        0 <= i,
    ensures
        text::find_from(s, seq![c], i) matches Some(k) ==> i <= k < s.len() && s[k] == c
            && forall|j: int| i <= j < k ==> s[j] != c,
        text::find_from(s, seq![c], i) is None ==> forall|j: int| i <= j < s.len() ==> s[j] != c,
    decreases s.len() - i,
{
    if i < s.len() {
        assert(s.subrange(i, i + 1)[0] == s[i]);
        if s.subrange(i, i + 1) != seq![c] {
            assert(s[i] != c) by {
                if s[i] == c {
                    assert(s.subrange(i, i + 1) =~= seq![c]);
                }
            }
            find_present(s, c, i + 1);
        }
    }
}

pub proof fn find_kept(a: Seq<char>, b: Seq<char>, c: char, i: int)
    requires
        0 <= i <= a.len(),
        b.len() > 0,
        b[0] == c,
    ensures
        text::find_from(a + b, seq![c], i) == match text::find_from(a, seq![c], i) {
            Some(k) => Some(k),
            None => Some(a.len() as int),
        },
    decreases a.len() - i,
{
    let s = a + b;
    if i < a.len() {
        assert(s.subrange(i, i + 1) =~= a.subrange(i, i + 1));
        if a.subrange(i, i + 1) != seq![c] {
            find_kept(a, b, c, i + 1);
        }
    } else {
        assert(s.subrange(i, i + 1) =~= seq![c]);
    }
}

/// What stands before the first place of a character, or the whole text where it has
/// none.
pub proof fn before_ends_at_first(a: Seq<char>, c: char, b: Seq<char>)
    requires
        !a.contains(c),
    ensures
        text::before(a, c) == a,
        text::before(a + seq![c] + b, c) == a,
        text::split_once(a, seq![c]) is None,
        text::split_once(a + seq![c] + b, seq![c]) == Some((a, b)),
{
    assert forall|k: int| 0 <= k < a.len() implies a[k] != c by {
        assert(a.contains(a[k]));
    }
    find_absent(a, c, 0);
    let rest = seq![c] + b;
    find_kept(a, rest, c, 0);
    let s = a + seq![c] + b;
    assert(s =~= a + rest);
    assert(s.take(a.len() as int) =~= a);
    assert(s.skip(a.len() as int + 1) =~= b);
}

/// A text that differs from the start of another is not what it starts with.
pub proof fn no_prefix(k: Seq<char>, s: Seq<char>, i: int)
    requires
        0 <= i < k.len(),
        i < s.len() ==> k[i] != s[i],
    ensures
        !k.is_prefix_of(s),
{
    if k.is_prefix_of(s) {
        assert(s.subrange(0, k.len() as int)[i] == s[i]);
    }
}

/// A text that differs from the end of another is not what it ends in.
pub proof fn no_suffix(k: Seq<char>, s: Seq<char>, i: int)
    requires
        1 <= i <= k.len(),
        i <= s.len() ==> k[k.len() - i] != s[s.len() - i],
    ensures
        !k.is_suffix_of(s),
{
    if k.is_suffix_of(s) {
        let t = s.subrange(s.len() - k.len(), s.len() as int);
        assert(t[k.len() - i] == s[s.len() - i]);
    }
}

/// A text starts with what it is made of first, and ends in what it is made of last.
pub proof fn joined_ends(a: Seq<char>, b: Seq<char>)
    ensures
        a.is_prefix_of(a + b),
        b.is_suffix_of(a + b),
        (a + b).skip(a.len() as int) == b,
        (a + b).take(a.len() as int) == a,
{
    let s = a + b;
    assert(s.subrange(0, a.len() as int) =~= a);
    assert(s.subrange(a.len() as int, s.len() as int) =~= b);
    assert(s.skip(a.len() as int) =~= b);
    assert(s.take(a.len() as int) =~= a);
}

/// A text contains what it is made of.
pub proof fn contains_part(a: Seq<char>, p: Seq<char>, b: Seq<char>)
    ensures
        text::contains(a + p + b, p),
{
    let s = a + p + b;
    let n = a.len() as int;
    find_is_first(s, p);
    assert(s.subrange(n, n + p.len()) =~= p);
}

// ── Pieces ──────────────────────────────────────────────────────────────────
/// The last piece of a text is what stands behind its last separator.
pub proof fn split_last(a: Seq<char>, c: char, d: Seq<char>)
    requires
        forall|i: int| 0 <= i < d.len() ==> d[i] != c,
    ensures
        text::split(a + seq![c] + d, c) == text::split(a, c).push(d),
    decreases a.len(),
{
    let b = seq![c] + d;
    let s = a + seq![c] + d;
    assert(s =~= a + b);
    find_kept(a, b, c, 0);
    find_present(a, c, 0);
    match text::find(a, seq![c]) {
        Some(i) => {
            assert(s.take(i) =~= a.take(i));
            assert(s.skip(i + 1) =~= a.skip(i + 1) + seq![c] + d);
            split_last(a.skip(i + 1), c, d);
            assert(text::split(s, c) =~= text::split(a, c).push(d));
        },
        None => {
            let i = a.len() as int;
            assert(s.take(i) =~= a);
            assert(s.skip(i + 1) =~= d);
            find_absent(d, c, 0);
            assert(text::split(d, c) == seq![d]);
            assert(text::find(s, seq![c]) == Some(i));
            assert(text::split(s, c) == seq![a] + seq![d]);
            assert(seq![a] + seq![d] =~= seq![a].push(d));
        },
    }
}

/// A text without the separator is one piece.
pub proof fn split_single(s: Seq<char>, c: char)
    requires
        !s.contains(c),
    ensures
        text::split(s, c) == seq![s],
{
    assert forall|k: int| 0 <= k < s.len() implies s[k] != c by {
        assert(s.contains(s[k]));
    }
    find_absent(s, c, 0);
}

/// Pieces without the separator that are put together with it are the pieces again.
pub proof fn joined_is_split(parts: Seq<Seq<char>>, c: char)
    requires
        parts.len() > 0,
        forall|i: int| 0 <= i < parts.len() ==> !(#[trigger] parts[i]).contains(c),
    ensures
        text::split(text::join(parts, seq![c]), c) == parts,
    decreases parts.len(),
{
    if parts.len() == 1 {
        split_single(parts[0], c);
        assert(parts =~= seq![parts[0]]);
    } else {
        let front = parts.drop_last();
        assert forall|i: int| 0 <= i < front.len() implies !(#[trigger] front[i]).contains(c) by {
            assert(front[i] == parts[i]);
        }
        joined_is_split(front, c);
        let last = parts[parts.len() - 1];
        assert forall|k: int| 0 <= k < last.len() implies last[k] != c by {
            assert(last.contains(last[k]));
        }
        split_last(text::join(front, seq![c]), c, last);
        assert(front.push(last) =~= parts);
    }
}

proof fn join_front(first: Seq<char>, rest: Seq<Seq<char>>, sep: Seq<char>)
    requires
        rest.len() > 0,
    ensures
        text::join(seq![first] + rest, sep) == first + sep + text::join(rest, sep),
    decreases rest.len(),
{
    let all = seq![first] + rest;
    assert(all.drop_last() =~= seq![first] + rest.drop_last());
    assert(all.last() == rest.last());
    if rest.len() == 1 {
        assert(rest.drop_last() =~= Seq::<Seq<char>>::empty());
        assert(seq![first] + rest.drop_last() =~= seq![first]);
        assert(text::join(seq![first], sep) == first);
    } else {
        join_front(first, rest.drop_last(), sep);
        assert(first + sep + text::join(rest.drop_last(), sep) + sep + rest.last() =~= first + sep
            + (text::join(rest.drop_last(), sep) + sep + rest.last()));
    }
}

/// The pieces of a text between a separator do not hold it, and put together with it
/// they are the text again.
pub proof fn split_is_joined(s: Seq<char>, c: char)
    ensures
        text::split(s, c).len() > 0,
        forall|i: int|
            0 <= i < text::split(s, c).len() ==> !(#[trigger] text::split(s, c)[i]).contains(c),
        text::join(text::split(s, c), seq![c]) == s,
    decreases s.len(),
{
    find_present(s, c, 0);
    match text::find(s, seq![c]) {
        Some(i) => {
            let rest = s.skip(i + 1);
            split_is_joined(rest, c);
            let first = s.take(i);
            let all = text::split(s, c);
            assert forall|k: int| 0 <= k < all.len() implies !(#[trigger] all[k]).contains(c) by {
                if k > 0 {
                    assert(all[k] == text::split(rest, c)[k - 1]);
                }
            }
            join_front(first, text::split(rest, c), seq![c]);
            assert(first + seq![c] + rest =~= s);
        },
        None => {},
    }
}

// ── Ends ────────────────────────────────────────────────────────────────────
/// A text of spaces only.
pub open spec fn is_blank(s: Seq<char>) -> bool {
    forall|i: int| 0 <= i < s.len() ==> text::is_whitespace(#[trigger] s[i])
}

proof fn trim_start_cuts(s: Seq<char>)
    ensures
        exists|a: Seq<char>| is_blank(a) && s == #[trigger] (a + text::trim_start(s)),
        text::trim_start(s).len() > 0 ==> !text::is_whitespace(text::trim_start(s)[0]),
    decreases s.len(),
{
    if s.len() > 0 && text::is_whitespace(s[0]) {
        trim_start_cuts(s.skip(1));
        let a = choose|a: Seq<char>|
            is_blank(a) && s.skip(1) == #[trigger] (a + text::trim_start(s.skip(1)));
        let b = seq![s[0]] + a;
        assert(is_blank(b)) by {
            assert forall|i: int| 0 <= i < b.len() implies text::is_whitespace(#[trigger] b[i]) by {
                if i > 0 {
                    assert(b[i] == a[i - 1]);
                }
            }
        }
        assert(s =~= seq![s[0]] + s.skip(1));
        assert(s =~= b + text::trim_start(s));
    } else {
        let a = Seq::<char>::empty();
        assert(is_blank(a));
        assert(s =~= a + text::trim_start(s));
    }
}

proof fn trim_end_cuts(s: Seq<char>)
    ensures
        exists|b: Seq<char>| is_blank(b) && s == #[trigger] (text::trim_end(s) + b),
        text::trim_end(s).len() > 0 ==> !text::is_whitespace(text::trim_end(s).last()),
        text::trim_end(s).len() > 0 ==> text::trim_end(s)[0] == s[0],
    decreases s.len(),
{
    if s.len() > 0 && text::is_whitespace(s.last()) {
        let front = s.drop_last();
        trim_end_cuts(front);
        let b = choose|b: Seq<char>| is_blank(b) && front == #[trigger] (text::trim_end(front) + b);
        let c = b.push(s.last());
        assert(is_blank(c)) by {
            assert forall|i: int| 0 <= i < c.len() implies text::is_whitespace(#[trigger] c[i]) by {
                if i < b.len() {
                    assert(c[i] == b[i]);
                }
            }
        }
        assert(s =~= front.push(s.last()));
        assert(s =~= text::trim_end(s) + c);
    } else {
        let b = Seq::<char>::empty();
        assert(is_blank(b));
        assert(s =~= text::trim_end(s) + b);
    }
}

/// Trimming takes spaces off both ends, and all that are there: what is left starts and
/// ends with no space, and only spaces are gone.
pub proof fn trim_takes_spaces(s: Seq<char>)
    ensures
        exists|a: Seq<char>, b: Seq<char>|
            is_blank(a) && is_blank(b) && s == #[trigger] (a + text::trim(s) + b),
        text::trim(s).len() > 0 ==> !text::is_whitespace(text::trim(s)[0])
            && !text::is_whitespace(text::trim(s).last()),
{
    let t = text::trim_start(s);
    trim_start_cuts(s);
    trim_end_cuts(t);
    let a = choose|a: Seq<char>| is_blank(a) && s == #[trigger] (a + t);
    let b = choose|b: Seq<char>| is_blank(b) && t == #[trigger] (text::trim_end(t) + b);
    assert(s =~= a + text::trim(s) + b);
}

/// The space, the tab and the ends of lines are spaces; letters, digits and the signs
/// of ASCII are not.
pub proof fn spaces_of_ascii(c: char)
    requires
        c as u32 <= 127,
    ensures
        text::is_whitespace(c) == (c == ' ' || c == '\t' || c == '\n' || c == '\r' || c == '\u{b}'
            || c == '\u{c}'),
{
}

// ── Lines ───────────────────────────────────────────────────────────────────
/// The lines of a text are the first one, up to the first newline and without a
/// carriage return at its end, and those of the rest. A text without newlines is one
/// line, and an empty one none.
pub proof fn lines_are_between_newlines(line: Seq<char>, rest: Seq<char>)
    requires
        !line.contains('\n'),
    ensures
        text::lines(line + seq!['\n'] + rest) == seq![
            if line.len() > 0 && line.last() == '\r' {
                line.drop_last()
            } else {
                line
            },
        ] + text::lines(rest),
        line.len() > 0 ==> text::lines(line) == seq![line],
        text::lines(Seq::<char>::empty()) == Seq::<Seq<char>>::empty(),
{
    assert forall|k: int| 0 <= k < line.len() implies line[k] != '\n' by {
        assert(line.contains(line[k]));
    }
    find_absent(line, '\n', 0);
    let b = seq!['\n'] + rest;
    find_kept(line, b, '\n', 0);
    let s = line + seq!['\n'] + rest;
    assert(s =~= line + b);
    assert(s.take(line.len() as int) =~= line);
    assert(s.skip(line.len() as int + 1) =~= rest);
}

// ── Words ───────────────────────────────────────────────────────────────────
/// A text without spaces.
pub open spec fn is_one_word(s: Seq<char>) -> bool {
    s.len() > 0 && forall|i: int| 0 <= i < s.len() ==> !text::is_whitespace(#[trigger] s[i])
}

proof fn leading_word_of(w: Seq<char>, rest: Seq<char>)
    requires
        forall|i: int| 0 <= i < w.len() ==> !text::is_whitespace(#[trigger] w[i]),
        rest.len() == 0 || text::is_whitespace(rest[0]),
    ensures
        text::leading_word(w + rest) == w.len(),
    decreases w.len(),
{
    if w.len() == 0 {
        assert(w + rest =~= rest);
    } else {
        assert((w + rest)[0] == w[0]);
        assert((w + rest).skip(1) =~= w.skip(1) + rest);
        leading_word_of(w.skip(1), rest);
    }
}

/// The words of a text are what stands between its spaces.
pub proof fn words_are_between_spaces(w: Seq<char>, c: char, rest: Seq<char>)
    requires
        is_one_word(w),
        text::is_whitespace(c),
    ensures
        text::words(w) == seq![w],
        text::words(w + seq![c] + rest) == seq![w] + text::words(rest),
        text::words(seq![c] + rest) == text::words(rest),
        text::words(Seq::<char>::empty()) == Seq::<Seq<char>>::empty(),
{
    assert(!text::is_whitespace(w[0]));
    assert(text::trim_start(w) == w);
    assert(w + Seq::<char>::empty() =~= w);
    leading_word_of(w, Seq::empty());
    assert(w.take(w.len() as int) =~= w);
    assert(w.skip(w.len() as int) =~= Seq::<char>::empty());
    assert(text::words(Seq::<char>::empty()) =~= Seq::<Seq<char>>::empty());
    assert(seq![w] + Seq::<Seq<char>>::empty() =~= seq![w]);
    let spaced = seq![c] + rest;
    assert(spaced.skip(1) =~= rest);
    trim_start_shrinks(rest);
    assert(text::trim_start(spaced) == text::trim_start(rest));
    words_of_trimmed(rest);
    words_of_trimmed(spaced);
    let s = w + seq![c] + rest;
    assert(s =~= w + spaced);
    assert(s[0] == w[0]);
    leading_word_of(w, spaced);
    assert(s.take(w.len() as int) =~= w);
    assert(s.skip(w.len() as int) =~= spaced);
}

proof fn trim_start_shrinks(s: Seq<char>)
    ensures
        text::trim_start(s).len() <= s.len(),
        text::trim_start(text::trim_start(s)) == text::trim_start(s),
    decreases s.len(),
{
    if s.len() > 0 && text::is_whitespace(s[0]) {
        trim_start_shrinks(s.skip(1));
    }
}

proof fn words_of_trimmed(s: Seq<char>)
    ensures
        text::words(s) == text::words(text::trim_start(s)),
{
    trim_start_shrinks(s);
}

// ── Numbers ─────────────────────────────────────────────────────────────────
/// A number in decimal, with a plus sign before it or none, is read where it is within
/// the bound, and is not where it is beyond. No other character is part of a number.
pub proof fn numbers_are_read(n: nat, max: nat, s: Seq<char>)
    ensures
        text::parse_unsigned(text::decimal(n), max) == (if n <= max {
            Some(n)
        } else {
            None
        }),
        text::parse_unsigned(seq!['+'] + text::decimal(n), max) == (if n <= max {
            Some(n)
        } else {
            None
        }),
        (exists|i: int| 0 < i < s.len() && !('0' <= #[trigger] s[i] <= '9'))
            ==> text::parse_unsigned(s, max) is None,
        s.len() > 0 && !('0' <= s[0] <= '9') && s[0] != '+' ==> text::parse_unsigned(s, max) is None,
        text::parse_unsigned(Seq::empty(), max) is None,
{
    let d = text::decimal(n);
    text::decimal_is_read(n);
    assert(text::is_digit(d[0]));
    let plus = seq!['+'] + d;
    assert(plus.skip(1) =~= d);
    if exists|i: int| 0 < i < s.len() && !('0' <= #[trigger] s[i] <= '9') {
        let i = choose|i: int| 0 < i < s.len() && !('0' <= #[trigger] s[i] <= '9');
        assert(!text::is_digit(s[i]));
        assert(s.skip(1)[i - 1] == s[i]);
        assert(!text::is_digit(s.skip(1)[i - 1]));
    }
    if s.len() > 0 {
        assert(!text::all_digits(s) || text::is_digit(s[0]));
    }
}

// ── Order ───────────────────────────────────────────────────────────────────
/// Texts are ordered by the first character in which they differ, and a text comes
/// before those that it starts.
pub proof fn less_by_first_difference(front: Seq<char>, a: Seq<char>, b: Seq<char>)
    requires
        a.len() == 0 || b.len() == 0 || a[0] != b[0],
    ensures
        text::less(front + a, front + b) == (b.len() > 0 && (a.len() == 0 || a[0] < b[0])),
    decreases front.len(),
{
    if front.len() == 0 {
        assert(front + a =~= a);
        assert(front + b =~= b);
    } else {
        less_by_first_difference(front.skip(1), a, b);
        assert((front + a).skip(1) =~= front.skip(1) + a);
        assert((front + b).skip(1) =~= front.skip(1) + b);
        assert((front + a)[0] == front[0] && (front + b)[0] == front[0]);
    }
}

// ── Replacements ────────────────────────────────────────────────────────────
/// A character is replaced wherever it stands, and the others stay.
pub proof fn replacing_is_by_character(a: Seq<char>, b: Seq<char>, c: char, d: char, by: Seq<char>)
    requires
        c != d,
    ensures
        text::replace_char(a + b, c, by) == text::replace_char(a, c, by) + text::replace_char(
            b,
            c,
            by,
        ),
        text::replace_char(seq![c], c, by) == by,
        text::replace_char(seq![d], c, by) == seq![d],
    decreases b.len(),
{
    assert(seq![c].drop_last() =~= Seq::<char>::empty());
    assert(seq![d].drop_last() =~= Seq::<char>::empty());
    assert(text::replace_char(Seq::<char>::empty(), c, by) =~= Seq::<char>::empty());
    assert(Seq::<char>::empty() + by =~= by);
    assert(Seq::<char>::empty() + seq![d] =~= seq![d]);
    if b.len() == 0 {
        assert(a + b =~= a);
        assert(text::replace_char(a, c, by) + b =~= text::replace_char(a, c, by));
    } else {
        replacing_is_by_character(a, b.drop_last(), c, d, by);
        assert((a + b).drop_last() =~= a + b.drop_last());
        assert((a + b).last() == b.last());
        let e = if b.last() == c {
            by
        } else {
            seq![b.last()]
        };
        assert(text::replace_char(a, c, by) + text::replace_char(b.drop_last(), c, by) + e
            =~= text::replace_char(a, c, by) + (text::replace_char(b.drop_last(), c, by) + e));
    }
}

// ── Letters ─────────────────────────────────────────────────────────────────
/// Small letters stand for the capital ones of ASCII, and every other character stands
/// for itself; a text in small letters has no capital one of ASCII, and two texts that
/// differ in the case of ASCII letters alone have the same one.
pub proof fn lower_is_by_letter(s: Seq<char>, i: int)
    requires
        0 <= i < s.len(),
    ensures
        text::ascii_lower(s).len() == s.len(),
        !('A' <= text::ascii_lower(s)[i] <= 'Z'),
        !('A' <= s[i] <= 'Z') ==> text::ascii_lower(s)[i] == s[i],
        'A' <= s[i] <= 'Z' ==> text::ascii_lower(s)[i] as u32 - 'a' as u32 == s[i] as u32
            - 'A' as u32,
        text::ascii_lower(text::ascii_lower(s)) == text::ascii_lower(s),
{
    assert(text::ascii_lower(text::ascii_lower(s)) =~= text::ascii_lower(s));
}

/// Every occurrence of a text is replaced, from the first on, and what is between them
/// stays.
pub proof fn replacing_takes_every_occurrence(
    front: Seq<char>,
    p: Seq<char>,
    back: Seq<char>,
    by: Seq<char>,
)
    requires
        p.len() > 0,
        text::find(front + p + back, p) == Some(front.len() as int),
    ensures
        text::replace_text(front + p + back, p, by) == front + by + text::replace_text(
            back,
            p,
            by,
        ),
        !text::contains(front, p) ==> text::replace_text(front, p, by) == front,
{
    let s = front + p + back;
    assert(s.take(front.len() as int) =~= front);
    assert(s.skip(front.len() + p.len() as int) =~= back);
}

} // verus!
