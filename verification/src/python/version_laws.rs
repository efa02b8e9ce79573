//! What holds of versions and specifiers as texts.
use vstd::prelude::*;

use crate::python::pep440;
use crate::python::pep440::ClauseModel;
use crate::python::pep440::Op;
use crate::python::pep440::VersionModel;
use crate::text;
use crate::text_laws;

verus! {

// ── Joined texts ────────────────────────────────────────────────────────────
/// A text behind another in which a character does not stand does not change where
/// that character is found.
proof fn find_joined(a: Seq<char>, b: Seq<char>, c: char, i: int)
    requires
        0 <= i <= a.len(),
        forall|k: int| 0 <= k < b.len() ==> b[k] != c,
    ensures
        text::find_from(a + b, seq![c], i) == text::find_from(a, seq![c], i),
    decreases a.len() - i,
{
    let s = a + b;
    if i < a.len() {
        assert(s.subrange(i, i + 1) =~= a.subrange(i, i + 1));
        if a.subrange(i, i + 1) != seq![c] {
            find_joined(a, b, c, i + 1);
        }
    } else {
        assert forall|k: int| i <= k < s.len() implies s[k] != c by {
            assert(s[k] == b[k - a.len()]);
        }
        text_laws::find_absent(s, c, i);
    }
}

proof fn trim_start_joined(a: Seq<char>, b: Seq<char>, set: Seq<char>)
    ensures
        text::trim_start_set(a + b, set) == if text::trim_start_set(a, set).len() == 0 {
            text::trim_start_set(b, set)
        } else {
            text::trim_start_set(a, set) + b
        },
    decreases a.len(),
{
    if a.len() == 0 {
        assert(a + b =~= b);
    } else if set.contains(a[0]) {
        assert((a + b).skip(1) =~= a.skip(1) + b);
        trim_start_joined(a.skip(1), b, set);
    }
}

proof fn trim_start_first(s: Seq<char>, set: Seq<char>)
    ensures
        ({
            let t = text::trim_start_set(s, set);
            t.len() > 0 ==> !set.contains(t[0])
        }),
    decreases s.len(),
{
    if s.len() > 0 && set.contains(s[0]) {
        trim_start_first(s.skip(1), set);
    }
}

proof fn trim_end_keeps(s: Seq<char>, set: Seq<char>)
    ensures
        text::trim_end_set(s, set).len() <= s.len(),
        s.len() > 0 && !set.contains(s[0]) ==> text::trim_end_set(s, set).len() > 0,
    decreases s.len(),
{
    if s.len() > 0 && set.contains(s.last()) {
        trim_end_keeps(s.drop_last(), set);
    }
}

proof fn digits_joined(a: Seq<char>, b: Seq<char>)
    ensures
        text::leading_digits(a) <= a.len(),
        text::leading_digits(a + b) == if text::leading_digits(a) == a.len() {
            a.len() + text::leading_digits(b)
        } else {
            text::leading_digits(a)
        },
    decreases a.len(),
{
    if a.len() == 0 {
        assert(a + b =~= b);
    } else if text::is_digit(a[0]) {
        assert((a + b).skip(1) =~= a.skip(1) + b);
        digits_joined(a.skip(1), b);
    }
}

/// The release at the start of two texts, one behind the other.
pub proof fn release_joined(a: Seq<char>, b: Seq<char>)
    ensures
        pep440::leading_release(a) <= a.len(),
        pep440::leading_release(a + b) == if pep440::leading_release(a) == a.len() {
            a.len() + pep440::leading_release(b)
        } else {
            pep440::leading_release(a)
        },
    decreases a.len(),
{
    if a.len() == 0 {
        assert(a + b =~= b);
    } else if text::is_digit(a[0]) || a[0] == '.' {
        assert((a + b).skip(1) =~= a.skip(1) + b);
        release_joined(a.skip(1), b);
    }
}

proof fn prefix_joined(keyword: Seq<char>, a: Seq<char>, b: Seq<char>)
    requires
        b.len() > 0,
        b[0] == '.',
        forall|i: int| 0 <= i < keyword.len() ==> keyword[i] != '.',
    ensures
        keyword.is_prefix_of(a + b) == keyword.is_prefix_of(a),
        keyword.is_prefix_of(a) ==> (a + b).skip(keyword.len() as int) == a.skip(
            keyword.len() as int,
        ) + b,
{
    let s = a + b;
    if keyword.is_prefix_of(a) {
        assert(keyword =~= s.subrange(0, keyword.len() as int));
        assert(s.skip(keyword.len() as int) =~= a.skip(keyword.len() as int) + b);
    } else if keyword.is_prefix_of(s) {
        if keyword.len() > a.len() {
            assert(s[a.len() as int] == '.');
            assert(keyword[a.len() as int] == s[a.len() as int]);
        } else {
            assert(keyword =~= a.subrange(0, keyword.len() as int));
        }
    }
}

// ── Development releases ────────────────────────────────────────────────────
/// The text of a development release without the point before it.
spec fn dev_word(n: u64) -> Seq<char> {
    "dev"@ + text::decimal(n as nat)
}

/// The text that makes a development release of a version.
pub open spec fn dev_suffix(n: u64) -> Seq<char> {
    ".dev"@ + text::decimal(n as nat)
}

/// What is left of a version, and what is left of it with the suffix behind it.
spec fn left_over(t: Seq<char>, with_dev: Seq<char>, n: u64) -> bool {
    with_dev == t + dev_suffix(n) || (t.len() == 0 && with_dev == dev_word(n))
}

proof fn suffix_form(n: u64)
    ensures
        dev_suffix(n) == seq!['.'] + dev_word(n),
        dev_suffix(n).len() > 0,
        dev_suffix(n)[0] == '.',
        dev_word(n).len() > 3,
        dev_word(n)[0] == 'd',
        dev_word(n)[1] == 'e',
        dev_word(n)[2] == 'v',
        pep440::strip_sep(dev_suffix(n)) == dev_word(n),
        pep440::strip_sep(dev_word(n)) == dev_word(n),
        text::leading_digits(dev_word(n)) == 0,
        text::leading_digits(dev_suffix(n)) == 0,
        pep440::leading_release(dev_suffix(n)) == 1,
        forall|i: int|
            0 <= i < dev_suffix(n).len() ==> {
                let c = #[trigger] dev_suffix(n)[i];
                !text::is_whitespace(c) && c != '+' && c != '!' && c != ',' && text::lower_char(c)
                    == c
            },
{
    reveal_strlit("dev");
    reveal_strlit(".dev");
    text::decimal_is_read(n as nat);
    assert(dev_suffix(n) =~= seq!['.'] + dev_word(n));
    assert(dev_suffix(n).skip(1) =~= dev_word(n));
    let seps = pep440::separators();
    assert(seps[0] == '.');
    assert(seps.contains('.'));
    assert(!seps.contains('d'));
    assert(text::trim_start_set(dev_word(n), seps) == dev_word(n));
    assert(text::trim_start_set(dev_suffix(n), seps) == text::trim_start_set(
        dev_suffix(n).skip(1),
        seps,
    ));
    assert(pep440::leading_release(dev_word(n)) == 0);
    let d = text::decimal(n as nat);
    assert forall|i: int| 0 <= i < dev_suffix(n).len() implies ({
        let c = #[trigger] dev_suffix(n)[i];
        !text::is_whitespace(c) && c != '+' && c != '!' && c != ',' && text::lower_char(c) == c
    }) by {
        if i >= 4 {
            assert(dev_suffix(n)[i] == d[i - 4]);
            assert(text::is_digit(d[i - 4]));
        }
    }
}

proof fn number_with_dev(after: Seq<char>, n: u64)
    ensures
        ({
            let (m, tail) = pep440::number_after(after);
            let (m2, tail2) = pep440::number_after(after + dev_suffix(n));
            m == m2 && left_over(tail, tail2, n)
        }),
{
    suffix_form(n);
    let suf = dev_suffix(n);
    let x = pep440::strip_sep(after);
    trim_start_joined(after, suf, pep440::separators());
    if x.len() == 0 {
        let w = dev_word(n);
        assert(w.take(0) =~= Seq::<char>::empty());
        assert(w.skip(0) =~= w);
        assert(x.take(0) =~= Seq::<char>::empty());
    } else {
        digits_joined(x, suf);
        let k = text::leading_digits(x) as int;
        assert((x + suf).take(k) =~= x.take(k));
        assert((x + suf).skip(k) =~= x.skip(k) + suf);
    }
}

proof fn pre_keyword_with_dev(x: Seq<char>, n: u64)
    ensures
        pep440::pre_keyword(x + dev_suffix(n)) == match pep440::pre_keyword(x) {
            Some((kind, after)) => Some((kind, after + dev_suffix(n))),
            None => None,
        },
{
    suffix_form(n);
    let suf = dev_suffix(n);
    reveal_strlit("alpha");
    reveal_strlit("beta");
    reveal_strlit("preview");
    reveal_strlit("pre");
    reveal_strlit("rc");
    reveal_strlit("a");
    reveal_strlit("b");
    reveal_strlit("c");
    prefix_joined("alpha"@, x, suf);
    prefix_joined("beta"@, x, suf);
    prefix_joined("preview"@, x, suf);
    prefix_joined("pre"@, x, suf);
    prefix_joined("rc"@, x, suf);
    prefix_joined("a"@, x, suf);
    prefix_joined("b"@, x, suf);
    prefix_joined("c"@, x, suf);
}

/// A text that does not start as the keywords do has none.
proof fn dev_is_no_keyword(n: u64)
    ensures
        pep440::pre_keyword(dev_word(n)) is None,
        pep440::post_keyword(dev_word(n)) is None,
        pep440::pre_keyword(Seq::empty()) is None,
        pep440::post_keyword(Seq::empty()) is None,
{
    suffix_form(n);
    reveal_strlit("alpha");
    reveal_strlit("beta");
    reveal_strlit("preview");
    reveal_strlit("pre");
    reveal_strlit("rc");
    reveal_strlit("a");
    reveal_strlit("b");
    reveal_strlit("c");
    reveal_strlit("post");
    reveal_strlit("rev");
    reveal_strlit("r");
    let w = dev_word(n);
    assert("alpha"@[0] != w[0] && "beta"@[0] != w[0] && "preview"@[0] != w[0] && "pre"@[0] != w[0]
        && "rc"@[0] != w[0] && "a"@[0] != w[0] && "b"@[0] != w[0] && "c"@[0] != w[0] && "post"@[0]
        != w[0] && "rev"@[0] != w[0] && "r"@[0] != w[0]);
}

proof fn pre_with_dev(s: Seq<char>, n: u64)
    ensures
        ({
            let (pre, tail) = pep440::pre_part(s);
            let (pre2, tail2) = pep440::pre_part(s + dev_suffix(n));
            pre == pre2 && left_over(tail, tail2, n)
        }),
{
    suffix_form(n);
    dev_is_no_keyword(n);
    let suf = dev_suffix(n);
    let x = pep440::strip_sep(s);
    trim_start_joined(s, suf, pep440::separators());
    if x.len() == 0 {
        assert(x =~= Seq::<char>::empty());
    } else {
        pre_keyword_with_dev(x, n);
        if let Some((_, after)) = pep440::pre_keyword(x) {
            number_with_dev(after, n);
        }
    }
}

proof fn post_with_dev(t: Seq<char>, with_dev: Seq<char>, n: u64)
    requires
        left_over(t, with_dev, n),
    ensures
        ({
            let (post, tail) = pep440::post_part(t);
            let (post2, tail2) = pep440::post_part(with_dev);
            post == post2 && left_over(tail, tail2, n)
        }),
{
    suffix_form(n);
    dev_is_no_keyword(n);
    let suf = dev_suffix(n);
    let x = pep440::strip_sep(t);
    if with_dev == t + suf {
        if t.len() >= 2 {
            assert(with_dev[0] == t[0] && with_dev[1] == t[1]);
        } else if t.len() == 1 {
            assert(with_dev[1] == '.');
        } else {
            assert(with_dev[0] == '.');
        }
        assert(pep440::is_implicit_post(with_dev) == pep440::is_implicit_post(t));
        if pep440::is_implicit_post(t) {
            let y = t.skip(1);
            assert(with_dev.skip(1) =~= y + suf);
            digits_joined(y, suf);
            let k = text::leading_digits(y) as int;
            assert((y + suf).take(k) =~= y.take(k));
            assert((y + suf).skip(k) =~= y.skip(k) + suf);
        } else {
            trim_start_joined(t, suf, pep440::separators());
            if x.len() == 0 {
                assert(x =~= Seq::<char>::empty());
            } else {
                reveal_strlit("post");
                reveal_strlit("rev");
                reveal_strlit("r");
                prefix_joined("post"@, x, suf);
                prefix_joined("rev"@, x, suf);
                prefix_joined("r"@, x, suf);
                if let Some(after) = pep440::post_keyword(x) {
                    number_with_dev(after, n);
                }
            }
        }
    } else {
        assert(t =~= Seq::<char>::empty());
        assert(x =~= Seq::<char>::empty());
    }
}

proof fn dev_with_dev(t: Seq<char>, with_dev: Seq<char>, n: u64)
    requires
        left_over(t, with_dev, n),
        pep440::dev_part(t).0 is None,
        text::trim_set(pep440::dev_part(t).1, pep440::separators()).len() == 0,
    ensures
        pep440::dev_part(with_dev).0 == Some(n),
        text::trim_set(pep440::dev_part(with_dev).1, pep440::separators()).len() == 0,
{
    suffix_form(n);
    text::decimal_is_read(n as nat);
    let seps = pep440::separators();
    let suf = dev_suffix(n);
    let x = pep440::strip_sep(t);
    trim_start_first(t, seps);
    trim_end_keeps(x, seps);
    assert(x.len() == 0);
    trim_start_joined(t, suf, seps);
    assert(pep440::strip_sep(with_dev) == dev_word(n));
    reveal_strlit("dev");
    let d = text::decimal(n as nat);
    let w = dev_word(n);
    assert("dev"@ =~= w.subrange(0, 3));
    assert(w.skip(3) =~= d);
    assert(text::is_digit(d[0]));
    assert(!seps.contains(d[0])) by {
        assert(seps[0] == '.' && seps[1] == '-' && seps[2] == '_');
    }
    assert(pep440::strip_sep(d) == d);
    assert(d.take(d.len() as int) =~= d);
    assert(d.skip(d.len() as int) =~= Seq::<char>::empty());
    assert(text::trim_start_set(Seq::<char>::empty(), seps) =~= Seq::<char>::empty());
}

/// Texts without space are not trimmed.
pub proof fn nothing_to_trim(s: Seq<char>)
    requires
        forall|i: int| 0 <= i < s.len() ==> !text::is_whitespace(#[trigger] s[i]),
    ensures
        text::trim(s) == s,
{
    if s.len() > 0 {
        assert(!text::is_whitespace(s[0]));
        assert(!text::is_whitespace(s[s.len() - 1]));
    }
}

/// With `.devN` behind it, a version that is no development release stands for its
/// Nth development release, which comes before it, whether it is a final release, a
/// pre-release or a post-release.
pub proof fn dev_suffix_lowers(s: Seq<char>, n: u64)
    requires
        forall|i: int| 0 <= i < s.len() ==> !text::is_whitespace(#[trigger] s[i]) && s[i] != '+',
        pep440::parse(s) matches Some(a) && a.dev is None,
    ensures
        ({
            let a = pep440::parse(s)->0;
            pep440::parse(s + dev_suffix(n)) matches Some(b) && b == (VersionModel {
                dev: Some(n),
                ..a
            }) && pep440::order(b, a) == -1
        }),
{
    let suf = dev_suffix(n);
    let all = s + suf;
    let a = pep440::parse(s)->0;
    suffix_form(n);
    nothing_to_trim(s);
    assert forall|i: int| 0 <= i < all.len() implies !text::is_whitespace(#[trigger] all[i]) by {
        if i < s.len() {
            assert(all[i] == s[i]);
        } else {
            assert(all[i] == suf[i - s.len()]);
        }
    }
    nothing_to_trim(all);
    let z = pep440::normalized(s);
    assert(s.len() > 0);
    assert(all[0] == s[0]);
    assert(all.skip(1) =~= s.skip(1) + suf);
    assert(text::ascii_lower(s + suf) =~= text::ascii_lower(s) + suf);
    assert(text::ascii_lower(s.skip(1) + suf) =~= text::ascii_lower(s.skip(1)) + suf);
    assert(pep440::normalized(all) == z + suf);
    assert forall|i: int| 0 <= i < z.len() implies z[i] != '+' by {
        if s[0] == 'v' || s[0] == 'V' {
            assert(z[i] == text::lower_char(s[i + 1]));
        } else {
            assert(z[i] == text::lower_char(s[i]));
        }
    }
    text_laws::find_absent(z, '+', 0);
    assert forall|i: int| 0 <= i < (z + suf).len() implies (z + suf)[i] != '+' by {
        if i < z.len() {
            assert((z + suf)[i] == z[i]);
        } else {
            assert((z + suf)[i] == suf[i - z.len()]);
        }
    }
    text_laws::find_absent(z + suf, '+', 0);
    assert forall|k: int| 0 <= k < suf.len() implies suf[k] != '!' by {}
    find_joined(z, suf, '!', 0);
    text_laws::find_present(z, '!', 0);
    let (epoch, rest) = pep440::epoch_part(z)->0;
    if let Some(i) = text::find(z, seq!['!']) {
        assert((z + suf).take(i) =~= z.take(i));
        assert((z + suf).skip(i + 1) =~= z.skip(i + 1) + suf);
    }
    assert(pep440::epoch_part(z + suf) == Some((epoch, rest + suf)));
    release_with_dev(rest, n);
    let (release, suffix) = pep440::release_part(rest)->0;
    assert(pep440::release_part(rest + suf) == Some((release, suffix + suf)));
    pre_with_dev(suffix, n);
    let (pre, behind_pre) = pep440::pre_part(suffix);
    let (pre2, behind_pre2) = pep440::pre_part(suffix + suf);
    post_with_dev(behind_pre, behind_pre2, n);
    let (post, behind_post) = pep440::post_part(behind_pre);
    let (post2, behind_post2) = pep440::post_part(behind_pre2);
    dev_with_dev(behind_post, behind_post2, n);
    let b = pep440::parse(all)->0;
    pep440::dev_comes_before(b, a);
}

proof fn release_with_dev(rest: Seq<char>, n: u64)
    requires
        pep440::release_part(rest) is Some,
    ensures
        ({
            let (release, suffix) = pep440::release_part(rest)->0;
            pep440::release_part(rest + dev_suffix(n)) == Some((release, suffix + dev_suffix(n)))
        }),
{
    suffix_form(n);
    let suf = dev_suffix(n);
    release_joined(rest, suf);
    let k = pep440::leading_release(rest) as int;
    let digits = rest.take(k);
    let r = pep440::release_text(rest);
    trim_end_keeps(digits, seq!['.']);
    if k < rest.len() {
        assert((rest + suf).take(k) =~= digits);
    } else {
        let more = (rest + suf).take(k + 1);
        assert(more =~= rest.push('.'));
        assert(more.drop_last() =~= rest);
        assert(digits =~= rest);
        assert(seq!['.'][0] == '.');
        assert(seq!['.'].contains('.'));
    }
    assert(pep440::release_text(rest + suf) == r);
    assert((rest + suf).skip(r.len() as int) =~= rest.skip(r.len() as int) + suf);
}

// ── Space around texts ──────────────────────────────────────────────────────
proof fn space_before(a: Seq<char>, b: Seq<char>)
    ensures
        text::trim_start(a + b) == if text::trim_start(a).len() == 0 {
            text::trim_start(b)
        } else {
            text::trim_start(a) + b
        },
    decreases a.len(),
{
    if a.len() == 0 {
        assert(a + b =~= b);
    } else if text::is_whitespace(a[0]) {
        assert((a + b).skip(1) =~= a.skip(1) + b);
        space_before(a.skip(1), b);
    }
}

proof fn space_behind(a: Seq<char>, b: Seq<char>)
    ensures
        text::trim_end(a + b) == if text::trim_end(b).len() == 0 {
            text::trim_end(a)
        } else {
            a + text::trim_end(b)
        },
    decreases b.len(),
{
    if b.len() == 0 {
        assert(a + b =~= a);
    } else {
        assert((a + b).last() == b.last());
        if text::is_whitespace(b.last()) {
            assert((a + b).drop_last() =~= a + b.drop_last());
            space_behind(a, b.drop_last());
        }
    }
}

proof fn space_is_gone(w: Seq<char>)
    ensures
        ({
            let s = text::trim_start(w);
            s.len() > 0 ==> !text::is_whitespace(s[0])
        }),
        ({
            let s = text::trim_end(w);
            s.len() > 0 ==> !text::is_whitespace(s.last())
        }),
    decreases w.len(),
{
    if w.len() > 0 {
        if text::is_whitespace(w[0]) {
            space_is_gone(w.skip(1));
        }
        if text::is_whitespace(w.last()) {
            space_is_gone(w.drop_last());
        }
    }
}

proof fn either_end_first(w: Seq<char>)
    ensures
        text::trim_start(text::trim_end(w)) == text::trim_end(text::trim_start(w)),
    decreases w.len(),
{
    if w.len() > 0 {
        let rest = w.drop_last();
        let end = seq![w.last()];
        assert(w =~= rest + end);
        space_before(rest, end);
        assert(end.skip(1) =~= Seq::<char>::empty());
        assert(text::trim_start(Seq::<char>::empty()) =~= Seq::<char>::empty());
        assert(text::trim_end(Seq::<char>::empty()) =~= Seq::<char>::empty());
        if text::is_whitespace(w.last()) {
            either_end_first(rest);
            let s = text::trim_start(rest);
            if s.len() > 0 {
                assert((s + end).drop_last() =~= s);
                assert((s + end).last() == w.last());
            } else {
                assert(s =~= Seq::<char>::empty());
                assert(text::trim_start(end) == text::trim_start(end.skip(1)));
            }
        } else {
            let s = text::trim_start(w);
            assert(text::trim_start(end) == end);
            assert(s.len() > 0 && s.last() == w.last());
        }
    }
}

/// Trimming a text that is trimmed at one end or at both gives what trimming gives.
proof fn trimmed_once(w: Seq<char>)
    ensures
        text::trim(text::trim_end(w)) == text::trim(w),
        text::trim(text::trim_start(w)) == text::trim(w),
        text::trim(text::trim(w)) == text::trim(w),
{
    either_end_first(w);
    let t = text::trim(w);
    space_is_gone(w);
    space_is_gone(text::trim_start(w));
    space_is_gone(text::trim_end(w));
    assert(text::trim_start(text::trim_start(w)) == text::trim_start(w));
    assert(text::trim_end(t) == t);
    assert(text::trim_start(t) == t);
}

// ── Clauses ─────────────────────────────────────────────────────────────────
/// An operator that orders or compares, as it is written.
pub open spec fn op_text(op: Op) -> Seq<char> {
    match op {
        Op::Eq => "=="@,
        Op::Ne => "!="@,
        Op::Ge => ">="@,
        Op::Le => "<="@,
        Op::Gt => ">"@,
        Op::Lt => "<"@,
        Op::Compatible => "~="@,
        _ => Seq::empty(),
    }
}

/// The operators that are written in front of a whole version.
pub open spec fn takes_version(op: Op) -> bool {
    match op {
        Op::Eq | Op::Ne | Op::Ge | Op::Le | Op::Gt | Op::Lt | Op::Compatible => true,
        _ => false,
    }
}

proof fn operator_is_read(op: Op, r: Seq<char>)
    requires
        takes_version(op),
        r.len() > 0,
        r[0] != '=',
    ensures
        pep440::operator(op_text(op) + r) == Some((op, r)),
        op_text(op).len() > 0,
        forall|i: int|
            0 <= i < op_text(op).len() ==> !text::is_whitespace(#[trigger] op_text(op)[i])
                && op_text(op)[i] != ',',
{
    reveal_strlit("===");
    reveal_strlit("==");
    reveal_strlit("!=");
    reveal_strlit(">=");
    reveal_strlit("<=");
    reveal_strlit("~=");
    reveal_strlit(">");
    reveal_strlit("<");
    let o = op_text(op);
    let s = o + r;
    assert(s.skip(o.len() as int) =~= r);
    assert(o =~= s.subrange(0, o.len() as int));
    assert(s[0] == o[0]);
    assert(s[o.len() as int] == r[0]);
    if o.len() == 2 {
        assert(s[1] == o[1]);
    }
    assert("==="@.is_prefix_of(s) ==> s[0] == '=' && s[1] == '=' && s[2] == '=') by {
        if "==="@.is_prefix_of(s) {
            assert(s[0] == "==="@[0] && s[1] == "==="@[1] && s[2] == "==="@[2]);
        }
    }
    assert("=="@.is_prefix_of(s) ==> s[0] == "=="@[0] && s[1] == "=="@[1]);
    assert("!="@.is_prefix_of(s) ==> s[0] == "!="@[0] && s[1] == "!="@[1]);
    assert(">="@.is_prefix_of(s) ==> s[0] == ">="@[0] && s[1] == ">="@[1]);
    assert("<="@.is_prefix_of(s) ==> s[0] == "<="@[0] && s[1] == "<="@[1]);
    assert("~="@.is_prefix_of(s) ==> s[0] == "~="@[0] && s[1] == "~="@[1]);
    assert(">"@.is_prefix_of(s) ==> s[0] == ">"@[0]);
    assert("<"@.is_prefix_of(s) ==> s[0] == "<"@[0]);
}

/// No version starts with `=`.
proof fn version_start(t: Seq<char>)
    requires
        text::trim(t) == t,
        pep440::parse(t) is Some,
    ensures
        t.len() > 0,
        t[0] != '=',
{
    if t[0] == '=' {
        let z = pep440::normalized(t);
        assert(z == text::ascii_lower(t));
        assert(z[0] == '=');
        text_laws::find_present(z, '+', 0);
        let (public, _) = pep440::local_part(z)->0;
        assert(public[0] == '=');
        text_laws::find_present(public, '!', 0);
        if let Some(i) = text::find(public, seq!['!']) {
            let epoch = public.take(i);
            assert(i > 0);
            assert(epoch[0] == '=');
            assert(!text::all_digits(epoch)) by {
                assert(!text::is_digit(epoch[0]));
            }
        } else {
            assert(pep440::leading_release(public) == 0);
            assert(public.take(0) =~= Seq::<char>::empty());
            assert(text::trim_end_set(public.take(0), seq!['.']).len() == 0);
        }
    }
}

/// What stands behind an operator is read without the space around it.
proof fn part_is_read(op: Op, w: Seq<char>)
    requires
        takes_version(op),
        text::trim(w).len() > 0,
        text::trim(w)[0] != '=',
    ensures
        pep440::clause(text::trim(op_text(op) + w)) == pep440::clause_with(op, text::trim(w)),
{
    let o = op_text(op);
    let r = text::trim_end(w);
    either_end_first(w);
    trimmed_once(w);
    assert(text::trim_start(Seq::<char>::empty()) =~= Seq::<char>::empty());
    if r.len() == 0 {
        assert(r =~= Seq::<char>::empty());
    }
    if r[0] == '=' {
        assert(text::trim_start(r) == r);
    }
    operator_is_read(op, r);
    assert((o + w)[0] == o[0]);
    assert(text::trim_start(o + w) == o + w);
    space_behind(o, w);
}

proof fn one_part(s: Seq<char>)
    requires
        forall|i: int| 0 <= i < s.len() ==> s[i] != ',',
    ensures
        text::split(s, ',') == seq![s],
        pep440::clauses(s) == match pep440::clause(text::trim(s)) {
            Some(c) => seq![c],
            None => Seq::empty(),
        },
{
    text_laws::find_absent(s, ',', 0);
    let parts = seq![s];
    assert(parts.drop_last() =~= Seq::<Seq<char>>::empty());
    assert(parts.last() == s);
    assert(pep440::clauses_among(parts.drop_last()) =~= Seq::empty());
    if let Some(c) = pep440::clause(text::trim(s)) {
        assert(pep440::clauses_among(parts) =~= seq![c]);
    }
}

/// A text that ends in a star.
spec fn ends_in_star(s: Seq<char>) -> bool {
    s.len() > 0 && s.last() == '*'
}

/// A star at the end of a text stays when what precedes it is read.
proof fn star_stays(s: Seq<char>, keyword: Seq<char>)
    requires
        ends_in_star(s),
        forall|i: int| 0 <= i < keyword.len() ==> keyword[i] != '*',
    ensures
        ends_in_star(pep440::strip_sep(s)),
        ends_in_star(s.skip(pep440::leading_release(s) as int)),
        pep440::leading_release(s) < s.len(),
        ends_in_star(s.skip(text::leading_digits(s) as int)),
        keyword.is_prefix_of(s) ==> ends_in_star(s.skip(keyword.len() as int)),
{
    let a = s.drop_last();
    let star = seq!['*'];
    assert(s =~= a + star);
    trim_start_joined(a, star, pep440::separators());
    assert(!pep440::separators().contains('*'));
    assert(text::trim_start_set(star, pep440::separators()) == star);
    release_joined(a, star);
    digits_joined(a, star);
    assert(s.skip(pep440::leading_release(s) as int).last() == '*');
    assert(s.skip(text::leading_digits(s) as int).last() == '*');
    if keyword.is_prefix_of(s) {
        if keyword.len() == s.len() {
            assert(keyword[s.len() - 1] == s[s.len() - 1]);
        }
        assert(s.skip(keyword.len() as int).last() == '*');
    }
}

proof fn star_behind_number(s: Seq<char>)
    requires
        ends_in_star(s),
    ensures
        ends_in_star(pep440::number_after(s).1),
        ends_in_star(pep440::take_number(s).1),
{
    star_stays(s, Seq::empty());
    star_stays(pep440::strip_sep(s), Seq::empty());
}

proof fn star_behind_pre(s: Seq<char>)
    requires
        ends_in_star(s),
    ensures
        ends_in_star(pep440::pre_part(s).1),
{
    reveal_strlit("alpha");
    reveal_strlit("beta");
    reveal_strlit("preview");
    reveal_strlit("pre");
    reveal_strlit("rc");
    reveal_strlit("a");
    reveal_strlit("b");
    reveal_strlit("c");
    star_stays(s, Seq::empty());
    let x = pep440::strip_sep(s);
    star_stays(x, "alpha"@);
    star_stays(x, "beta"@);
    star_stays(x, "preview"@);
    star_stays(x, "pre"@);
    star_stays(x, "rc"@);
    star_stays(x, "a"@);
    star_stays(x, "b"@);
    star_stays(x, "c"@);
    if let Some((_, after)) = pep440::pre_keyword(x) {
        star_behind_number(after);
    }
}

proof fn star_behind_post(s: Seq<char>)
    requires
        ends_in_star(s),
    ensures
        ends_in_star(pep440::post_part(s).1),
{
    reveal_strlit("post");
    reveal_strlit("rev");
    reveal_strlit("r");
    if pep440::is_implicit_post(s) {
        assert(s.skip(1).last() == '*');
        star_behind_number(s.skip(1));
    } else {
        star_stays(s, Seq::empty());
        let x = pep440::strip_sep(s);
        star_stays(x, "post"@);
        star_stays(x, "rev"@);
        star_stays(x, "r"@);
        if let Some(after) = pep440::post_keyword(x) {
            star_behind_number(after);
        }
    }
}

proof fn star_behind_dev(s: Seq<char>)
    requires
        ends_in_star(s),
    ensures
        text::trim_set(pep440::dev_part(s).1, pep440::separators()).len() > 0,
{
    reveal_strlit("dev");
    star_stays(s, Seq::empty());
    let x = pep440::strip_sep(s);
    star_stays(x, "dev"@);
    if let Some(after) = text::strip_prefix(x, "dev"@) {
        star_behind_number(after);
    }
    let tail = pep440::dev_part(s).1;
    star_stays(tail, Seq::empty());
    assert(!pep440::separators().contains('*'));
}

/// A text without `+` that ends in a star is no version.
proof fn star_is_no_version(w: Seq<char>)
    requires
        ends_in_star(text::trim(w)),
        forall|i: int| 0 <= i < w.len() ==> w[i] != '+',
    ensures
        pep440::parse(w) is None,
{
    let t = text::trim(w);
    trimmed_within(w);
    let z = pep440::normalized(w);
    if t[0] == 'v' || t[0] == 'V' {
        assert(t.len() > 1);
        assert(z.last() == text::lower_char(t.last()));
        assert forall|i: int| 0 <= i < z.len() implies z[i] != '+' by {
            assert(z[i] == text::lower_char(t[i + 1]));
        }
    } else {
        assert(z.last() == text::lower_char(t.last()));
        assert forall|i: int| 0 <= i < z.len() implies z[i] != '+' by {
            assert(z[i] == text::lower_char(t[i]));
        }
    }
    text_laws::find_absent(z, '+', 0);
    text_laws::find_present(z, '!', 0);
    if let Some((_, rest)) = pep440::epoch_part(z) {
        if let Some(i) = text::find(z, seq!['!']) {
            assert(i < z.len() - 1);
            assert(rest == z.skip(i + 1));
            assert(rest.last() == '*');
        }
        if let Some((_, suffix)) = pep440::release_part(rest) {
            star_stays(rest, Seq::empty());
            let digits = rest.take(pep440::leading_release(rest) as int);
            trim_end_keeps(digits, seq!['.']);
            assert(suffix.last() == '*');
            star_behind_pre(suffix);
            star_behind_post(pep440::pre_part(suffix).1);
            star_behind_dev(pep440::post_part(pep440::pre_part(suffix).1).1);
        }
    }
}

/// What trimming leaves stood in the text.
proof fn trimmed_within(w: Seq<char>)
    ensures
        forall|i: int|
            0 <= i < text::trim(w).len() ==> w.contains(#[trigger] text::trim(w)[i]),
    decreases w.len(),
{
    either_end_first(w);
    if w.len() > 0 {
        if text::is_whitespace(w[0]) {
            trimmed_within(w.skip(1));
            assert forall|i: int| 0 <= i < text::trim(w).len() implies w.contains(
                #[trigger] text::trim(w)[i],
            ) by {
                let c = text::trim(w.skip(1))[i];
                let k = choose|k: int| 0 <= k < w.skip(1).len() && w.skip(1)[k] == c;
                assert(w[k + 1] == c);
            }
        } else if text::is_whitespace(w.last()) {
            either_end_first(w.drop_last());
            trimmed_within(w.drop_last());
            assert(text::trim_end(w) == text::trim_end(w.drop_last()));
            assert(text::trim(w) == text::trim(w.drop_last()));
            assert forall|i: int| 0 <= i < text::trim(w).len() implies w.contains(
                #[trigger] text::trim(w)[i],
            ) by {
                let c = text::trim(w.drop_last())[i];
                let k = choose|k: int| 0 <= k < w.drop_last().len() && w.drop_last()[k] == c;
                assert(w[k] == c);
            }
        } else {
            assert(text::trim(w) == w);
            assert forall|i: int| 0 <= i < w.len() implies w.contains(#[trigger] w[i]) by {}
        }
    }
}

proof fn same_version(w: Seq<char>, t: Seq<char>)
    requires
        text::trim(t) == text::trim(w),
    ensures
        pep440::parse(t) == pep440::parse(w),
{
}

/// An operator in front of a version asks for the versions that stand so to it:
/// `==`, `!=`, `>=`, `<=`, `>` and `<` compare with the version that the text
/// stands for. A local version that ends in `.*` is the one text that is read as
/// a prefix instead.
pub proof fn operator_compares(op: Op, w: Seq<char>, v: VersionModel)
    requires
        op == Op::Eq || op == Op::Ne || op == Op::Ge || op == Op::Le || op == Op::Gt || op
            == Op::Lt,
        forall|i: int| 0 <= i < w.len() ==> w[i] != ',',
        pep440::parse(w) is Some,
        !w.contains('+') || !".*"@.is_suffix_of(text::trim(w)),
    ensures
        ({
            let by = pep440::order(v, pep440::parse(w)->0);
            pep440::satisfies(pep440::clauses(op_text(op) + w), v) == match op {
                Op::Eq => by == 0,
                Op::Ne => by != 0,
                Op::Ge => by >= 0,
                Op::Le => by <= 0,
                Op::Gt => by > 0,
                _ => by < 0,
            }
        }),
{
    clause_is_read(op, w);
    let c = ClauseModel { op, raw: text::trim(w), ver: pep440::parse(w) };
    let cs = pep440::clauses(op_text(op) + w);
    assert(cs =~= seq![c]);
    assert(cs[0] == c);
}

/// A version behind an operator is read as a clause with that version.
pub proof fn clause_is_read(op: Op, w: Seq<char>)
    requires
        takes_version(op),
        forall|i: int| 0 <= i < w.len() ==> w[i] != ',',
        pep440::parse(w) is Some,
        !w.contains('+') || !".*"@.is_suffix_of(text::trim(w)),
    ensures
        pep440::clause(text::trim(op_text(op) + w)) == Some(
            ClauseModel { op, raw: text::trim(w), ver: pep440::parse(w) },
        ),
        pep440::clauses(op_text(op) + w) == seq![
            ClauseModel { op, raw: text::trim(w), ver: pep440::parse(w) },
        ],
{
    let t = text::trim(w);
    let o = op_text(op);
    trimmed_once(w);
    same_version(w, t);
    version_start(t);
    part_is_read(op, w);
    reveal_strlit(".*");
    if ".*"@.is_suffix_of(t) {
        assert(t.last() == ".*"@.last());
        assert forall|i: int| 0 <= i < w.len() implies w[i] != '+' by {}
        star_is_no_version(w);
    }
    operator_is_read(op, seq!['0']);
    assert forall|i: int| 0 <= i < (o + w).len() implies (o + w)[i] != ',' by {
        if i < o.len() {
            assert((o + w)[i] == o[i]);
        } else {
            assert((o + w)[i] == w[i - o.len()]);
        }
    }
    one_part(o + w);
}

/// `==` and `!=` in front of a version with `.*` behind it compare the release
/// segments of that version, in its epoch.
proof fn prefix_is_read(op: Op, w: Seq<char>)
    requires
        op == Op::Eq || op == Op::Ne,
        forall|i: int| 0 <= i < w.len() ==> w[i] != ',',
        pep440::parse(w) is Some,
    ensures
        ({
            let s = op_text(op) + (w + ".*"@);
            let c = ClauseModel {
                op: if op == Op::Eq {
                    Op::EqStar
                } else {
                    Op::NeStar
                },
                raw: text::trim_start(w) + ".*"@,
                ver: pep440::parse(w),
            };
            &&& forall|i: int| 0 <= i < s.len() ==> #[trigger] s[i] != ','
            &&& pep440::clause(text::trim(s)) == Some(c)
            &&& pep440::clauses(s) == seq![c]
        }),
{
    reveal_strlit(".*");
    let o = op_text(op);
    let star = ".*"@;
    let whole = w + star;
    let start = text::trim_start(w);
    let t = text::trim(w);
    trimmed_once(w);
    same_version(w, t);
    same_version(w, start);
    version_start(t);
    assert(text::trim_end(Seq::<char>::empty()) =~= Seq::<char>::empty());
    if start.len() == 0 {
        assert(start =~= Seq::<char>::empty());
    }
    space_before(w, star);
    let raw = start + star;
    assert(raw.last() == '*');
    assert(text::trim(whole) == raw);
    trim_end_is_prefix(start);
    assert(raw[0] == start[0]);
    part_is_read(op, whole);
    assert(star =~= raw.subrange(raw.len() - 2, raw.len() as int));
    assert(raw.take(raw.len() - 2) =~= start);
    operator_is_read(op, seq!['0']);
    let s = o + whole;
    assert forall|i: int| 0 <= i < s.len() implies #[trigger] s[i] != ',' by {
        if i < o.len() {
            assert(s[i] == o[i]);
        } else if i < o.len() + w.len() {
            assert(s[i] == w[i - o.len()]);
        } else {
            assert(s[i] == star[i - o.len() - w.len()]);
        }
    }
    one_part(s);
}

proof fn trim_end_is_prefix(s: Seq<char>)
    ensures
        text::trim_end(s).len() <= s.len(),
        text::trim_end(s) == s.take(text::trim_end(s).len() as int),
    decreases s.len(),
{
    if s.len() > 0 && text::is_whitespace(s.last()) {
        trim_end_is_prefix(s.drop_last());
        let n = text::trim_end(s).len() as int;
        assert(s.drop_last().take(n) =~= s.take(n));
    } else {
        assert(s.take(s.len() as int) =~= s);
    }
}

/// `==W.*` asks for the versions whose release starts with that of `W`, in its
/// epoch, and `!=W.*` for the others.
pub proof fn star_compares_prefix(w: Seq<char>, v: VersionModel)
    requires
        forall|i: int| 0 <= i < w.len() ==> w[i] != ',',
        pep440::parse(w) is Some,
    ensures
        ({
            let x = pep440::parse(w)->0;
            let starts = pep440::has_prefix(v, x.epoch, x.release);
            &&& pep440::satisfies(pep440::clauses("=="@ + (w + ".*"@)), v) == starts
            &&& pep440::satisfies(pep440::clauses("!="@ + (w + ".*"@)), v) == !starts
        }),
{
    prefix_is_read(Op::Eq, w);
    prefix_is_read(Op::Ne, w);
    let eq = pep440::clauses("=="@ + (w + ".*"@));
    let ne = pep440::clauses("!="@ + (w + ".*"@));
    assert(eq.len() == 1 && ne.len() == 1);
    assert(eq[0].op == Op::EqStar && ne[0].op == Op::NeStar);
}

// ── Compatible releases ─────────────────────────────────────────────────────
/// Release segments as they are written, with points between them.
pub open spec fn dotted(release: Seq<u64>) -> Seq<char>
    decreases release.len(),
{
    if release.len() == 0 {
        Seq::empty()
    } else if release.len() == 1 {
        text::decimal(release[0] as nat)
    } else {
        dotted(release.drop_last()) + seq!['.'] + text::decimal(release.last() as nat)
    }
}

/// How such segments look.
pub proof fn dotted_form(release: Seq<u64>)
    requires
        release.len() > 0,
    ensures
        ({
            let s = dotted(release);
            &&& s.len() > 0
            &&& text::is_digit(s[0])
            &&& text::is_digit(s.last())
            &&& forall|i: int| 0 <= i < s.len() ==> text::is_digit(#[trigger] s[i]) || s[i] == '.'
            &&& pep440::leading_release(s) == s.len()
            &&& text::split(s, '.') == Seq::new(
                release.len(),
                |i: int| text::decimal(release[i] as nat),
            )
        }),
    decreases release.len(),
{
    let s = dotted(release);
    let d = text::decimal(release.last() as nat);
    text::decimal_is_read(release.last() as nat);
    assert(forall|i: int| 0 <= i < d.len() ==> text::is_digit(#[trigger] d[i]));
    let pieces = Seq::new(release.len(), |i: int| text::decimal(release[i] as nat));
    all_release(d);
    if release.len() == 1 {
        text_laws::find_absent(d, '.', 0);
        assert(text::split(s, '.') =~= pieces);
    } else {
        let rest = release.drop_last();
        let a = dotted(rest);
        dotted_form(rest);
        text_laws::split_last(a, '.', d);
        assert(text::split(s, '.') =~= pieces);
        assert forall|i: int| 0 <= i < s.len() implies text::is_digit(#[trigger] s[i]) || s[i]
            == '.' by {
            if i < a.len() {
                assert(s[i] == a[i]);
            } else if i > a.len() {
                assert(s[i] == d[i - a.len() - 1]);
            }
        }
        all_release(s);
        assert(s[0] == a[0]);
    }
}

proof fn all_release(s: Seq<char>)
    requires
        forall|i: int| 0 <= i < s.len() ==> text::is_digit(#[trigger] s[i]) || s[i] == '.',
    ensures
        pep440::leading_release(s) == s.len(),
    decreases s.len(),
{
    if s.len() > 0 {
        assert(text::is_digit(s[0]) || s[0] == '.');
        assert forall|i: int| 0 <= i < s.skip(1).len() implies text::is_digit(
            #[trigger] s.skip(1)[i],
        ) || s.skip(1)[i] == '.' by {
            assert(s.skip(1)[i] == s[i + 1]);
        }
        all_release(s.skip(1));
    }
}

/// Release segments that are written out are read back, as a final release.
pub proof fn release_is_read(release: Seq<u64>)
    requires
        release.len() > 0,
    ensures
        pep440::parse(dotted(release)) == Some(
            VersionModel { epoch: 0, release, pre: None, post: None, dev: None, local: None },
        ),
{
    let s = dotted(release);
    dotted_form(release);
    assert(forall|i: int| 0 <= i < s.len() ==> text::is_digit(#[trigger] s[i]) || s[i] == '.');
    nothing_to_trim(s);
    assert(text::ascii_lower(s) =~= s);
    text_laws::find_absent(s, '+', 0);
    text_laws::find_absent(s, '!', 0);
    assert(s.take(s.len() as int) =~= s);
    assert(s.skip(s.len() as int) =~= Seq::<char>::empty());
    assert(!seq!['.'].contains(s.last()));
    assert(pep440::release_text(s) == s);
    let parts = text::split(s, '.');
    assert forall|i: int| 0 <= i < parts.len() implies text::bounded_value(
        #[trigger] parts[i],
        u64::MAX as nat,
    ) == Some(release[i] as nat) by {
        text::decimal_is_read(release[i] as nat);
    }
    assert(pep440::numbers(parts)->0 =~= release);
    let none = Seq::<char>::empty();
    let seps = pep440::separators();
    assert(pep440::strip_sep(none) =~= none);
    dev_is_no_keyword(0);
    reveal_strlit("dev");
    assert(text::trim_end_set(none, seps) =~= none);
}

/// Two texts with a comma between them are two clauses.
proof fn two_parts(first: Seq<char>, second: Seq<char>, c: ClauseModel, d: ClauseModel)
    requires
        forall|i: int| 0 <= i < first.len() ==> first[i] != ',',
        forall|i: int| 0 <= i < second.len() ==> second[i] != ',',
        pep440::clause(text::trim(first)) == Some(c),
        pep440::clause(text::trim(second)) == Some(d),
    ensures
        pep440::clauses(first + seq![','] + second) == seq![c, d],
{
    text_laws::split_last(first, ',', second);
    one_part(first);
    let parts = text::split(first + seq![','] + second, ',');
    assert(parts =~= seq![first].push(second));
    assert(parts.drop_last() =~= seq![first]);
    assert(parts.last() == second);
    assert(pep440::clauses_among(parts.drop_last()) == seq![c]);
    assert(pep440::clauses_among(parts) == seq![c].push(d));
    assert(seq![c].push(d) =~= seq![c, d]);
}

proof fn dotted_is_plain(release: Seq<u64>)
    requires
        release.len() > 0,
    ensures
        forall|i: int| 0 <= i < dotted(release).len() ==> dotted(release)[i] != ',',
        !dotted(release).contains('+'),
{
    let s = dotted(release);
    dotted_form(release);
    assert forall|i: int| 0 <= i < s.len() implies s[i] != ',' && s[i] != '+' by {
        assert(text::is_digit(s[i]) || s[i] == '.');
    }
}

/// The clauses of `~=A.B` and of `>=A.B,==A.*`.
proof fn compatible_clauses(release: Seq<u64>, last: u64)
    requires
        release.len() > 0,
    ensures
        ({
            let all = release.push(last);
            let whole = dotted(all);
            let v = VersionModel {
                epoch: 0,
                release: all,
                pre: None,
                post: None,
                dev: None,
                local: None,
            };
            let short = VersionModel { release, ..v };
            let raw = text::trim(whole);
            let prefix = text::trim_start(dotted(release)) + ".*"@;
            &&& pep440::clauses("~="@ + whole) == seq![
                ClauseModel { op: Op::Compatible, raw, ver: Some(v) },
            ]
            &&& pep440::clauses(">="@ + whole + seq![','] + ("=="@ + (dotted(release) + ".*"@)))
                == seq![
                ClauseModel { op: Op::Ge, raw, ver: Some(v) },
                ClauseModel { op: Op::EqStar, raw: prefix, ver: Some(short) },
            ]
        }),
{
    let all = release.push(last);
    let whole = dotted(all);
    let short = dotted(release);
    release_is_read(all);
    release_is_read(release);
    dotted_is_plain(all);
    dotted_is_plain(release);
    clause_is_read(Op::Compatible, whole);
    clause_is_read(Op::Ge, whole);
    prefix_is_read(Op::Eq, short);
    let bound = ">="@ + whole;
    let prefix = "=="@ + (short + ".*"@);
    assert forall|i: int| 0 <= i < bound.len() implies bound[i] != ',' by {
        operator_is_read(Op::Ge, seq!['0']);
        if i < ">="@.len() {
            assert(bound[i] == op_text(Op::Ge)[i]);
        } else {
            assert(bound[i] == whole[i - ">="@.len()]);
        }
    }
    let ge = pep440::clause(text::trim(bound))->0;
    let star = pep440::clause(text::trim(prefix))->0;
    two_parts(bound, prefix, ge, star);
}

/// `~=A.B` asks for what `>=A.B,==A.*` asks for, `~=A.B.C` for what
/// `>=A.B.C,==A.B.*` asks for, and so on.
pub proof fn compatible_is_two_clauses(release: Seq<u64>, last: u64, v: VersionModel)
    requires
        release.len() > 0,
    ensures
        ({
            let whole = dotted(release.push(last));
            pep440::satisfies(pep440::clauses("~="@ + whole), v) == pep440::satisfies(
                pep440::clauses(">="@ + whole + seq![','] + ("=="@ + (dotted(release) + ".*"@))),
                v,
            )
        }),
{
    let whole = dotted(release.push(last));
    compatible_clauses(release, last);
    let one = pep440::clauses("~="@ + whole);
    let both = pep440::clauses(
        ">="@ + whole + seq![','] + ("=="@ + (dotted(release) + ".*"@)),
    );
    assert(release.push(last).drop_last() =~= release);
    assert(one.len() == 1 && both.len() == 2);
    assert(pep440::clause_matches(one[0], v) == (pep440::clause_matches(both[0], v)
        && pep440::clause_matches(both[1], v)));
}

// ── Sets with commas ────────────────────────────────────────────────────────
/// The clauses of a set that is made of two by a comma are those of the first and then
/// those of the second, where the second has no comma of its own.
pub proof fn comma_adds_clauses(s: Seq<char>, t: Seq<char>)
    requires
        !t.contains(','),
    ensures
        pep440::clauses(s + ","@ + t) == pep440::clauses(s) + pep440::clauses(t),
{
    reveal_strlit(",");
    assert(","@ =~= seq![',']);
    assert forall|i: int| 0 <= i < t.len() implies t[i] != ',' by {
        assert(t.contains(t[i]));
    }
    text_laws::split_last(s, ',', t);
    one_part(t);
    let front = text::split(s, ',');
    assert(front.push(t).drop_last() =~= front);
    assert(front.push(t).last() == t);
    assert(pep440::clauses(s + ","@ + t) =~= pep440::clauses(s) + pep440::clauses(t));
}

/// A version satisfies two sets that a comma joins exactly where it satisfies both.
pub proof fn comma_is_both(s: Seq<char>, t: Seq<char>, v: VersionModel)
    requires
        !t.contains(','),
    ensures
        pep440::satisfies(pep440::clauses(s + ","@ + t), v) == (pep440::satisfies(
            pep440::clauses(s),
            v,
        ) && pep440::satisfies(pep440::clauses(t), v)),
{
    comma_adds_clauses(s, t);
    let a = pep440::clauses(s);
    let b = pep440::clauses(t);
    let both = a + b;
    if pep440::satisfies(both, v) {
        assert forall|i: int| 0 <= i < a.len() implies pep440::clause_matches(
            #[trigger] a[i],
            v,
        ) by {
            assert(both[i] == a[i]);
        }
        assert forall|i: int| 0 <= i < b.len() implies pep440::clause_matches(
            #[trigger] b[i],
            v,
        ) by {
            assert(both[a.len() + i] == b[i]);
        }
    }
}

/// A version satisfies a set of any number of parts between commas exactly where it
/// satisfies each of the parts.
pub proof fn set_is_all_of_its_parts(parts: Seq<Seq<char>>, v: VersionModel)
    requires
        parts.len() > 0,
        forall|i: int| 0 <= i < parts.len() ==> !(#[trigger] parts[i]).contains(','),
    ensures
        pep440::satisfies(pep440::clauses(text::join(parts, ","@)), v) == forall|i: int|
            0 <= i < parts.len() ==> pep440::satisfies(
                pep440::clauses(#[trigger] parts[i]),
                v,
            ),
    decreases parts.len(),
{
    if parts.len() > 1 {
        let front = parts.drop_last();
        assert forall|i: int| 0 <= i < front.len() implies !(#[trigger] front[i]).contains(
            ',',
        ) by {
            assert(front[i] == parts[i]);
        }
        set_is_all_of_its_parts(front, v);
        let last = parts[parts.len() - 1];
        comma_is_both(text::join(front, ","@), last, v);
        let whole = text::join(parts, ","@);
        assert(whole == text::join(front, ","@) + ","@ + last);
        if pep440::satisfies(pep440::clauses(whole), v) {
            assert forall|i: int| 0 <= i < parts.len() implies pep440::satisfies(
                pep440::clauses(#[trigger] parts[i]),
                v,
            ) by {
                if i < front.len() {
                    assert(front[i] == parts[i]);
                }
            }
        } else if pep440::satisfies(pep440::clauses(last), v) {
            let i = choose|i: int|
                0 <= i < front.len() && !pep440::satisfies(
                    pep440::clauses(#[trigger] front[i]),
                    v,
                );
            assert(front[i] == parts[i]);
        }
    } else {
        assert(text::join(parts, ","@) == parts[0]);
    }
}

/// `===V` admits the versions that are equal to V, and none where V is no version.
pub proof fn identity_is_equality(w: Seq<char>, v: VersionModel)
    requires
        w.len() > 0,
        forall|i: int| 0 <= i < w.len() ==> w[i] != ',' && !text::is_whitespace(#[trigger] w[i]),
        !".*"@.is_suffix_of(w),
    ensures
        pep440::satisfies(pep440::clauses("==="@ + w), v) == (pep440::parse(w) matches Some(t)
            && pep440::order(t, v) == 0),
{
    reveal_strlit("===");
    let s = "==="@ + w;
    assert forall|i: int| 0 <= i < s.len() implies s[i] != ',' && !text::is_whitespace(
        #[trigger] s[i],
    ) by {
        if i < 3 {
            assert(s[i] == "==="@[i]);
            text_laws::spaces_of_ascii('=');
        } else {
            assert(s[i] == w[i - 3]);
        }
    }
    nothing_to_trim(s);
    nothing_to_trim(w);
    text_laws::joined_ends("==="@, w);
    one_part(s);
    let c = ClauseModel { op: Op::Arbitrary, raw: w, ver: None };
    assert(pep440::clause(s) == Some(c));
    let cs = pep440::clauses(s);
    assert(cs =~= seq![c]);
    assert(cs[0] == c);
}

} // verus!
