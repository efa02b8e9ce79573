//! What holds of versions: how their parts are spelled, and how they are ordered and
//! selected.
use vstd::prelude::*;

use crate::python::pep440;
use crate::python::pep440::ClauseModel;
use crate::python::pep440::PreKind;
use crate::python::pep440::VersionModel;
use crate::python::version_laws;
use crate::text;
use crate::text_laws;

verus! {

// ── Spelling ────────────────────────────────────────────────────────────────
/// What may stand between the parts of a version: nothing, a point, a hyphen or an
/// underscore.
pub open spec fn is_sep(s: Seq<char>) -> bool {
    s == Seq::<char>::empty() || s == seq!['.'] || s == seq!['-'] || s == seq!['_']
}

/// A word with a number, behind a separator and with one between them.
pub open spec fn numbered(before: Seq<char>, word: Seq<char>, between: Seq<char>, n: u64) -> Seq<
    char,
> {
    before + word + between + text::decimal(n as nat)
}

/// A rest behind a number: nothing, or what does not go on with digits.
spec fn is_rest(s: Seq<char>) -> bool {
    s.len() == 0 || !text::is_digit(s[0])
}

proof fn sep_chars(c: char)
    ensures
        pep440::separators().contains(c) == (c == '.' || c == '-' || c == '_'),
{
    let seps = pep440::separators();
    assert(seps[0] == '.' && seps[1] == '-' && seps[2] == '_');
    assert(seps.len() == 3);
}

proof fn sep_is_stripped(sep: Seq<char>, rest: Seq<char>)
    requires
        is_sep(sep),
        rest.len() == 0 || (rest[0] != '.' && rest[0] != '-' && rest[0] != '_'),
    ensures
        pep440::strip_sep(sep + rest) == rest,
{
    let s = sep + rest;
    if rest.len() > 0 {
        sep_chars(rest[0]);
    }
    assert(text::trim_start_set(rest, pep440::separators()) == rest);
    if sep.len() == 0 {
        assert(s =~= rest);
    } else {
        sep_chars(sep[0]);
        assert(s[0] == sep[0]);
        assert(s.skip(1) =~= rest);
    }
}

proof fn number_is_read(sep: Seq<char>, n: u64, rest: Seq<char>)
    requires
        is_sep(sep),
        is_rest(rest),
    ensures
        pep440::number_after(sep + text::decimal(n as nat) + rest) == (n, rest),
        pep440::take_number(text::decimal(n as nat) + rest) == (n, rest),
{
    let d = text::decimal(n as nat);
    text::decimal_is_read(n as nat);
    assert(text::is_digit(d[0]));
    assert(sep + d + rest =~= sep + (d + rest));
    assert((d + rest)[0] == d[0]);
    sep_is_stripped(sep, d + rest);
    leading_of(d, rest);
    assert((d + rest).take(d.len() as int) =~= d);
    assert((d + rest).skip(d.len() as int) =~= rest);
}

proof fn leading_of(d: Seq<char>, rest: Seq<char>)
    requires
        text::all_digits(d),
        is_rest(rest),
    ensures
        text::leading_digits(d + rest) == d.len(),
    decreases d.len(),
{
    if d.len() == 0 {
        assert(d + rest =~= rest);
    } else {
        assert(text::is_digit(d[0]));
        assert((d + rest).skip(1) =~= d.skip(1) + rest);
        assert forall|i: int| 0 <= i < d.skip(1).len() implies text::is_digit(
            #[trigger] d.skip(1)[i],
        ) by {
            assert(text::is_digit(d[i + 1]));
        }
        leading_of(d.skip(1), rest);
    }
}

/// The words for the kinds of pre-releases.
pub open spec fn is_pre_word(word: Seq<char>, kind: PreKind) -> bool {
    match kind {
        PreKind::Alpha => word == "a"@ || word == "alpha"@,
        PreKind::Beta => word == "b"@ || word == "beta"@,
        PreKind::Rc => word == "rc"@ || word == "c"@ || word == "pre"@ || word == "preview"@,
    }
}

/// The words for post-releases.
pub open spec fn is_post_word(word: Seq<char>) -> bool {
    word == "post"@ || word == "rev"@ || word == "r"@
}

proof fn words()
    ensures
        "alpha"@ == seq!['a', 'l', 'p', 'h', 'a'],
        "a"@ == seq!['a'],
        "beta"@ == seq!['b', 'e', 't', 'a'],
        "b"@ == seq!['b'],
        "rc"@ == seq!['r', 'c'],
        "c"@ == seq!['c'],
        "pre"@ == seq!['p', 'r', 'e'],
        "preview"@ == seq!['p', 'r', 'e', 'v', 'i', 'e', 'w'],
        "post"@ == seq!['p', 'o', 's', 't'],
        "rev"@ == seq!['r', 'e', 'v'],
        "r"@ == seq!['r'],
        "dev"@ == seq!['d', 'e', 'v'],
{
    reveal_strlit("alpha");
    reveal_strlit("a");
    reveal_strlit("beta");
    reveal_strlit("b");
    reveal_strlit("rc");
    reveal_strlit("c");
    reveal_strlit("pre");
    reveal_strlit("preview");
    reveal_strlit("post");
    reveal_strlit("rev");
    reveal_strlit("r");
    reveal_strlit("dev");
    assert("alpha"@ =~= seq!['a', 'l', 'p', 'h', 'a']);
    assert("a"@ =~= seq!['a']);
    assert("beta"@ =~= seq!['b', 'e', 't', 'a']);
    assert("b"@ =~= seq!['b']);
    assert("rc"@ =~= seq!['r', 'c']);
    assert("c"@ =~= seq!['c']);
    assert("pre"@ =~= seq!['p', 'r', 'e']);
    assert("preview"@ =~= seq!['p', 'r', 'e', 'v', 'i', 'e', 'w']);
    assert("post"@ =~= seq!['p', 'o', 's', 't']);
    assert("rev"@ =~= seq!['r', 'e', 'v']);
    assert("r"@ =~= seq!['r']);
    assert("dev"@ =~= seq!['d', 'e', 'v']);
}

/// What follows a word: a separator or a digit.
spec fn ends_word(s: Seq<char>) -> bool {
    s.len() > 0 && (text::is_digit(s[0]) || s[0] == '.' || s[0] == '-' || s[0] == '_')
}

proof fn pre_word_is_read(word: Seq<char>, kind: PreKind, after: Seq<char>)
    requires
        is_pre_word(word, kind),
        ends_word(after),
    ensures
        pep440::pre_keyword(word + after) == Some((kind, after)),
        (word + after)[0] != '.' && (word + after)[0] != '-' && (word + after)[0] != '_',
{
    words();
    let s = word + after;
    text_laws::joined_ends(word, after);
    assert(s[0] == word[0]);
    assert(s[word.len() as int] == after[0]);
    if word.len() > 1 {
        assert(s[1] == word[1]);
    }
    if word != "alpha"@ {
        if word == "a"@ {
            text_laws::no_prefix("alpha"@, s, 1);
        } else {
            text_laws::no_prefix("alpha"@, s, 0);
        }
        if word != "beta"@ {
            if word == "b"@ {
                text_laws::no_prefix("beta"@, s, 1);
            } else {
                text_laws::no_prefix("beta"@, s, 0);
            }
            if word != "preview"@ {
                if word == "pre"@ {
                    text_laws::no_prefix("preview"@, s, 3);
                } else {
                    text_laws::no_prefix("preview"@, s, 0);
                    text_laws::no_prefix("pre"@, s, 0);
                    if word != "rc"@ {
                        text_laws::no_prefix("rc"@, s, 0);
                        if word != "a"@ {
                            text_laws::no_prefix("a"@, s, 0);
                            if word != "b"@ {
                                text_laws::no_prefix("b"@, s, 0);
                            }
                        }
                    }
                }
            }
        }
    }
}

proof fn other_word_is_no_pre(word: Seq<char>, after: Seq<char>)
    requires
        is_post_word(word) || word == "dev"@,
        ends_word(after),
    ensures
        pep440::pre_keyword(word + after) is None,
        (word + after)[0] != '.' && (word + after)[0] != '-' && (word + after)[0] != '_',
{
    words();
    let s = word + after;
    assert(s[0] == word[0]);
    assert(s[word.len() as int] == after[0]);
    if word.len() > 1 {
        assert(s[1] == word[1]);
    }
    text_laws::no_prefix("alpha"@, s, 0);
    text_laws::no_prefix("beta"@, s, 0);
    text_laws::no_prefix("a"@, s, 0);
    text_laws::no_prefix("b"@, s, 0);
    text_laws::no_prefix("c"@, s, 0);
    text_laws::no_prefix("preview"@, s, 1);
    text_laws::no_prefix("pre"@, s, 1);
    text_laws::no_prefix("rc"@, s, 1);
}

proof fn post_word_is_read(word: Seq<char>, after: Seq<char>)
    requires
        is_post_word(word),
        ends_word(after),
    ensures
        pep440::post_keyword(word + after) == Some(after),
        pep440::post_keyword("dev"@ + after) is None,
{
    words();
    let s = word + after;
    text_laws::joined_ends(word, after);
    assert(s[0] == word[0]);
    assert(s[word.len() as int] == after[0]);
    if word != "post"@ {
        text_laws::no_prefix("post"@, s, 0);
        if word != "rev"@ {
            text_laws::no_prefix("rev"@, s, 1);
        }
    }
    let d = "dev"@ + after;
    assert(d[0] == 'd');
    text_laws::no_prefix("post"@, d, 0);
    text_laws::no_prefix("rev"@, d, 0);
    text_laws::no_prefix("r"@, d, 0);
}

/// A part of a version that is spelled out: its separators and its word, and its
/// number.
pub struct Part {
    pub before: Seq<char>,
    pub word: Seq<char>,
    pub between: Seq<char>,
    pub n: u64,
}

/// How such a part is written; one that is not there is not.
pub open spec fn part_text(p: Option<Part>) -> Seq<char> {
    match p {
        Some(p) => numbered(p.before, p.word, p.between, p.n),
        None => Seq::empty(),
    }
}

/// Its separators are some.
pub open spec fn is_part(p: Option<Part>) -> bool {
    p matches Some(p) ==> is_sep(p.before) && is_sep(p.between)
}

proof fn part_form(p: Part, rest: Seq<char>)
    requires
        is_sep(p.before),
        is_sep(p.between),
        p.word.len() > 0,
    ensures
        ({
            let after = p.between + text::decimal(p.n as nat) + rest;
            &&& part_text(Some(p)) + rest == p.before + (p.word + after)
            &&& ends_word(after)
        }),
{
    let d = text::decimal(p.n as nat);
    text::decimal_is_read(p.n as nat);
    assert(text::is_digit(d[0]));
    let after = p.between + d + rest;
    assert(part_text(Some(p)) + rest =~= p.before + (p.word + after));
    if p.between.len() > 0 {
        assert(after[0] == p.between[0]);
    } else {
        assert(after[0] == d[0]);
    }
}

proof fn pre_is_read(p: Part, kind: PreKind, rest: Seq<char>)
    requires
        is_sep(p.before),
        is_sep(p.between),
        is_pre_word(p.word, kind),
        is_rest(rest),
    ensures
        pep440::pre_part(part_text(Some(p)) + rest) == (Some((kind, p.n)), rest),
{
    words();
    part_form(p, rest);
    let after = p.between + text::decimal(p.n as nat) + rest;
    pre_word_is_read(p.word, kind, after);
    sep_is_stripped(p.before, p.word + after);
    number_is_read(p.between, p.n, rest);
}

proof fn no_pre_is_read(p: Part, rest: Seq<char>)
    requires
        is_sep(p.before),
        is_sep(p.between),
        is_post_word(p.word) || p.word == "dev"@,
    ensures
        pep440::pre_part(part_text(Some(p)) + rest) == (
            None::<(PreKind, u64)>,
            part_text(Some(p)) + rest,
        ),
{
    words();
    part_form(p, rest);
    let after = p.between + text::decimal(p.n as nat) + rest;
    other_word_is_no_pre(p.word, after);
    sep_is_stripped(p.before, p.word + after);
}

proof fn post_is_read(p: Part, rest: Seq<char>)
    requires
        is_sep(p.before),
        is_sep(p.between),
        is_post_word(p.word) || p.word == "dev"@,
        is_rest(rest),
    ensures
        is_post_word(p.word) ==> pep440::post_part(part_text(Some(p)) + rest) == (Some(p.n), rest),
        p.word == "dev"@ ==> pep440::post_part(part_text(Some(p)) + rest) == (
            None::<u64>,
            part_text(Some(p)) + rest,
        ),
{
    words();
    part_form(p, rest);
    let after = p.between + text::decimal(p.n as nat) + rest;
    let s = part_text(Some(p)) + rest;
    let w = p.word + after;
    assert(w[0] == p.word[0]);
    assert(!pep440::is_implicit_post(s)) by {
        if p.before.len() == 0 {
            assert(s =~= w);
        } else {
            assert(s[1] == w[0]);
        }
    }
    sep_is_stripped(p.before, w);
    if is_post_word(p.word) {
        post_word_is_read(p.word, after);
        number_is_read(p.between, p.n, rest);
    } else {
        post_word_is_read("r"@, after);
    }
}

proof fn dev_is_read(p: Part)
    requires
        is_sep(p.before),
        is_sep(p.between),
        p.word == "dev"@,
    ensures
        pep440::dev_part(part_text(Some(p))) == (Some(p.n), Seq::<char>::empty()),
{
    words();
    let none = Seq::<char>::empty();
    part_form(p, none);
    assert(part_text(Some(p)) + none =~= part_text(Some(p)));
    let after = p.between + text::decimal(p.n as nat) + none;
    let w = p.word + after;
    assert(w[0] == 'd');
    sep_is_stripped(p.before, w);
    text_laws::joined_ends(p.word, after);
    number_is_read(p.between, p.n, none);
}

proof fn nothing_is_read()
    ensures
        pep440::pre_part(Seq::<char>::empty()) == (
            None::<(PreKind, u64)>,
            Seq::<char>::empty(),
        ),
        pep440::post_part(Seq::<char>::empty()) == (None::<u64>, Seq::<char>::empty()),
        pep440::dev_part(Seq::<char>::empty()) == (None::<u64>, Seq::<char>::empty()),
{
    words();
    let none = Seq::<char>::empty();
    assert(pep440::strip_sep(none) == none);
}

/// The parts of a version in their order.
pub open spec fn tail_text(pre: Option<Part>, post: Option<Part>, dev: Option<Part>) -> Seq<char> {
    part_text(pre) + (part_text(post) + part_text(dev))
}

proof fn tail_is_read(
    pre: Option<Part>,
    kind: PreKind,
    post: Option<Part>,
    dev: Option<Part>,
)
    requires
        is_part(pre) && is_part(post) && is_part(dev),
        pre matches Some(p) ==> is_pre_word(p.word, kind),
        post matches Some(p) ==> is_post_word(p.word),
        dev matches Some(p) ==> p.word == "dev"@,
    ensures
        ({
            let s = tail_text(pre, post, dev);
            let (a, s1) = pep440::pre_part(s);
            let (b, s2) = pep440::post_part(s1);
            let (c, s3) = pep440::dev_part(s2);
            &&& a == match pre {
                Some(p) => Some((kind, p.n)),
                None => None,
            }
            &&& b == match post {
                Some(p) => Some(p.n),
                None => None,
            }
            &&& c == match dev {
                Some(p) => Some(p.n),
                None => None,
            }
            &&& s3 == Seq::<char>::empty()
        }),
{
    words();
    let none = Seq::<char>::empty();
    let d = part_text(dev);
    let q = part_text(post) + d;
    let s = tail_text(pre, post, dev);
    nothing_is_read();
    assert(is_rest(d)) by {
        if let Some(p) = dev {
            part_starts(p);
        }
    }
    assert(is_rest(q)) by {
        if let Some(p) = post {
            part_starts(p);
            assert(q[0] == part_text(post)[0]);
        } else {
            assert(q =~= d);
        }
    }
    match pre {
        Some(p) => {
            pre_is_read(p, kind, q);
        },
        None => {
            assert(s =~= q);
            match post {
                Some(p) => no_pre_is_read(p, d),
                None => {
                    assert(q =~= d);
                    if let Some(p) = dev {
                        no_pre_is_read(p, none);
                        assert(d + none =~= d);
                    }
                },
            }
        },
    }
    assert(pep440::pre_part(s).1 == q);
    match post {
        Some(p) => post_is_read(p, d),
        None => {
            assert(q =~= d);
            if let Some(p) = dev {
                post_is_read(p, none);
                assert(d + none =~= d);
            }
        },
    }
    assert(pep440::post_part(q).1 == d);
    if let Some(p) = dev {
        dev_is_read(p);
    }
}

proof fn part_starts(p: Part)
    requires
        is_sep(p.before),
        is_sep(p.between),
        p.word.len() > 0,
        !text::is_digit(p.word[0]),
        p.word[0] != '.',
    ensures
        part_text(Some(p)).len() > 1,
        !text::is_digit(part_text(Some(p))[0]),
        part_text(Some(p))[0] == '.' ==> part_text(Some(p))[1] == p.word[0],
        p.before.len() == 0 ==> part_text(Some(p))[0] == p.word[0],
{
    text::decimal_is_read(p.n as nat);
    let s = part_text(Some(p));
    if p.before.len() == 0 {
        assert(s[0] == p.word[0]);
    } else {
        assert(s[0] == p.before[0]);
        assert(s[1] == p.word[0]);
    }
}

/// Characters of versions that have no other meaning.
spec fn is_plain(s: Seq<char>) -> bool {
    forall|i: int|
        0 <= i < s.len() ==> {
            let c = #[trigger] s[i];
            text::is_digit(c) || 'a' <= c <= 'z' || c == '.' || c == '-' || c == '_'
        }
}

proof fn plain_joined(a: Seq<char>, b: Seq<char>)
    requires
        is_plain(a),
        is_plain(b),
    ensures
        is_plain(a + b),
{
    assert forall|i: int| 0 <= i < (a + b).len() implies {
        let c = #[trigger] (a + b)[i];
        text::is_digit(c) || 'a' <= c <= 'z' || c == '.' || c == '-' || c == '_'
    } by {
        if i < a.len() {
            assert((a + b)[i] == a[i]);
        } else {
            assert((a + b)[i] == b[i - a.len()]);
        }
    }
}

proof fn plain_decimal(n: nat)
    ensures
        is_plain(text::decimal(n)),
{
    text::decimal_is_read(n);
    let d = text::decimal(n);
    assert forall|i: int| 0 <= i < d.len() implies text::is_digit(#[trigger] d[i]) by {}
}

proof fn plain_part(p: Option<Part>)
    requires
        is_part(p),
        p matches Some(p) ==> is_plain(p.word),
    ensures
        is_plain(part_text(p)),
{
    if let Some(p) = p {
        plain_decimal(p.n as nat);
        plain_joined(p.before, p.word);
        plain_joined(p.before + p.word, p.between);
        plain_joined(p.before + p.word + p.between, text::decimal(p.n as nat));
    }
}

proof fn plain_dotted(release: Seq<u64>)
    ensures
        is_plain(version_laws::dotted(release)),
    decreases release.len(),
{
    if release.len() == 1 {
        plain_decimal(release[0] as nat);
    } else if release.len() > 1 {
        plain_dotted(release.drop_last());
        plain_decimal(release.last() as nat);
        plain_joined(version_laws::dotted(release.drop_last()), seq!['.']);
        plain_joined(
            version_laws::dotted(release.drop_last()) + seq!['.'],
            text::decimal(release.last() as nat),
        );
    }
}

/// A version is read by its parts, whatever words and separators they are spelled
/// with: `1.0a2`, `1.0.alpha-2` and `1.0_a.2` are one version, `rc`, `c`, `pre` and
/// `preview` are one word, and so are `post`, `rev` and `r`.
pub proof fn parts_are_read(
    release: Seq<u64>,
    pre: Option<Part>,
    kind: PreKind,
    post: Option<Part>,
    dev: Option<Part>,
)
    requires
        release.len() > 0,
        is_part(pre) && is_part(post) && is_part(dev),
        pre matches Some(p) ==> is_pre_word(p.word, kind),
        post matches Some(p) ==> is_post_word(p.word),
        dev matches Some(p) ==> p.word == "dev"@,
    ensures
        pep440::parse(version_laws::dotted(release) + tail_text(pre, post, dev)) == Some(
            VersionModel {
                epoch: 0,
                release,
                pre: match pre {
                    Some(p) => Some((kind, p.n)),
                    None => None,
                },
                post: match post {
                    Some(p) => Some(p.n),
                    None => None,
                },
                dev: match dev {
                    Some(p) => Some(p.n),
                    None => None,
                },
                local: None,
            },
        ),
{
    words();
    let front = version_laws::dotted(release);
    let t = tail_text(pre, post, dev);
    let s = front + t;
    plain_part(pre);
    plain_part(post);
    plain_part(dev);
    plain_joined(part_text(post), part_text(dev));
    plain_joined(part_text(pre), part_text(post) + part_text(dev));
    plain_dotted(release);
    plain_joined(front, t);
    assert(t.len() > 0 ==> !text::is_digit(t[0]) && (t[0] == '.' ==> t.len() > 1
        && !text::is_digit(t[1]) && t[1] != '.')) by {
        tail_starts(pre, kind, post, dev);
    }
    plain_version_is_read(release, t);
    tail_is_read(pre, kind, post, dev);
    let none = Seq::<char>::empty();
    assert(text::trim_set(none, pep440::separators()) == none);
}

proof fn tail_starts(pre: Option<Part>, kind: PreKind, post: Option<Part>, dev: Option<Part>)
    requires
        is_part(pre) && is_part(post) && is_part(dev),
        pre matches Some(p) ==> is_pre_word(p.word, kind),
        post matches Some(p) ==> is_post_word(p.word),
        dev matches Some(p) ==> p.word == "dev"@,
    ensures
        ({
            let t = tail_text(pre, post, dev);
            t.len() > 0 ==> !text::is_digit(t[0]) && (t[0] == '.' ==> t.len() > 1
                && !text::is_digit(t[1]) && t[1] != '.')
        }),
{
    words();
    let t = tail_text(pre, post, dev);
    if let Some(p) = pre {
        part_starts(p);
        assert(t[0] == part_text(pre)[0] && t[1] == part_text(pre)[1]);
    } else if let Some(p) = post {
        part_starts(p);
        assert(t =~= part_text(post) + part_text(dev));
        assert(t[0] == part_text(post)[0] && t[1] == part_text(post)[1]);
    } else if let Some(p) = dev {
        part_starts(p);
        assert(t =~= part_text(dev));
    } else {
        assert(t.len() == 0);
    }
}

proof fn plain_version_is_read(release: Seq<u64>, t: Seq<char>)
    requires
        release.len() > 0,
        is_plain(version_laws::dotted(release) + t),
        t.len() > 0 ==> !text::is_digit(t[0]) && (t[0] == '.' ==> t.len() > 1 && !text::is_digit(
            t[1],
        ) && t[1] != '.'),
    ensures
        ({
            let (pre, s1) = pep440::pre_part(t);
            let (post, s2) = pep440::post_part(s1);
            let (dev, s3) = pep440::dev_part(s2);
            pep440::parse(version_laws::dotted(release) + t) == (if text::trim_set(
                s3,
                pep440::separators(),
            ).len() == 0 {
                Some(VersionModel { epoch: 0, release, pre, post, dev, local: None })
            } else {
                None
            })
        }),
{
    let front = version_laws::dotted(release);
    let s = front + t;
    version_laws::dotted_form(release);
    assert forall|i: int| 0 <= i < s.len() implies !text::is_whitespace(#[trigger] s[i]) && s[i]
        != '+' && s[i] != '!' && text::lower_char(s[i]) == s[i] by {
        let c = s[i];
        assert(text::is_digit(c) || 'a' <= c <= 'z' || c == '.' || c == '-' || c == '_');
    }
    version_laws::nothing_to_trim(s);
    assert(s[0] == front[0]);
    assert(text::ascii_lower(s) =~= s);
    assert(pep440::normalized(s) == s);
    text_laws::find_absent(s, '+', 0);
    text_laws::find_absent(s, '!', 0);
    version_laws::release_joined(front, t);
    let dot = seq!['.'];
    assert(dot[0] == '.');
    assert(dot.contains('.'));
    assert(!dot.contains(front.last()));
    assert(text::trim_end_set(front, dot) == front);
    if t.len() > 0 && t[0] == '.' {
        assert(t.skip(1)[0] == t[1]);
        assert(pep440::leading_release(t.skip(1)) == 0);
        assert(pep440::leading_release(t) == 1);
        let more = s.take(front.len() as int + 1);
        assert(more =~= front.push('.'));
        assert(more.drop_last() =~= front);
    } else {
        assert(pep440::leading_release(t) == 0);
        assert(s.take(front.len() as int) =~= front);
    }
    assert(pep440::release_text(s) == front);
    let parts = text::split(front, '.');
    assert forall|i: int| 0 <= i < parts.len() implies text::bounded_value(
        #[trigger] parts[i],
        u64::MAX as nat,
    ) == Some(release[i] as nat) by {
        text::decimal_is_read(release[i] as nat);
    }
    assert(pep440::numbers(parts)->0 =~= release);
    assert(s.skip(front.len() as int) =~= t);
}

/// A hyphen and a number behind a release is a post-release: `1.0-3` is `1.0.post3`.
pub proof fn hyphen_is_post(release: Seq<u64>, n: u64)
    requires
        release.len() > 0,
    ensures
        pep440::parse(version_laws::dotted(release) + (seq!['-'] + text::decimal(n as nat)))
            == Some(
            VersionModel {
                epoch: 0,
                release,
                pre: None,
                post: Some(n),
                dev: None,
                local: None,
            },
        ),
{
    words();
    let d = text::decimal(n as nat);
    let t = seq!['-'] + d;
    let none = Seq::<char>::empty();
    text::decimal_is_read(n as nat);
    assert(text::is_digit(d[0]));
    plain_dotted(release);
    plain_decimal(n as nat);
    assert(is_plain(seq!['-']));
    plain_joined(seq!['-'], d);
    plain_joined(version_laws::dotted(release), t);
    plain_version_is_read(release, t);
    sep_is_stripped(seq!['-'], d);
    text_laws::no_prefix("alpha"@, d, 0);
    text_laws::no_prefix("beta"@, d, 0);
    text_laws::no_prefix("preview"@, d, 0);
    text_laws::no_prefix("pre"@, d, 0);
    text_laws::no_prefix("rc"@, d, 0);
    text_laws::no_prefix("a"@, d, 0);
    text_laws::no_prefix("b"@, d, 0);
    text_laws::no_prefix("c"@, d, 0);
    assert(t.skip(1) =~= d);
    assert(d + none =~= d);
    number_is_read(none, n, none);
    nothing_is_read();
    assert(text::trim_set(none, pep440::separators()) == none);
}

/// The case of letters, a `v` before the number and spaces round it play no part.
pub proof fn spelling_is_free(s: Seq<char>, t: Seq<char>)
    requires
        s.len() > 0,
        forall|i: int| 0 <= i < s.len() ==> !text::is_whitespace(#[trigger] s[i]),
        forall|i: int| 0 <= i < t.len() ==> !text::is_whitespace(#[trigger] t[i]),
        '0' <= s[0] <= '9',
    ensures
        pep440::parse(seq!['v'] + s) == pep440::parse(s),
        pep440::parse(seq!['V'] + s) == pep440::parse(s),
        text::ascii_lower(s) == text::ascii_lower(t) ==> pep440::parse(s) == pep440::parse(t),
{
    version_laws::nothing_to_trim(s);
    version_laws::nothing_to_trim(t);
    let v = seq!['v'] + s;
    let w = seq!['V'] + s;
    assert forall|i: int| 0 <= i < v.len() implies !text::is_whitespace(#[trigger] v[i]) by {
        if i > 0 {
            assert(v[i] == s[i - 1]);
        }
    }
    assert forall|i: int| 0 <= i < w.len() implies !text::is_whitespace(#[trigger] w[i]) by {
        if i > 0 {
            assert(w[i] == s[i - 1]);
        }
    }
    version_laws::nothing_to_trim(v);
    version_laws::nothing_to_trim(w);
    assert(v.skip(1) =~= s);
    assert(w.skip(1) =~= s);
    if text::ascii_lower(s) == text::ascii_lower(t) {
        assert(t.len() == text::ascii_lower(t).len());
        assert(text::ascii_lower(t)[0] == text::ascii_lower(s)[0]);
        assert(text::lower_char(t[0]) == text::lower_char(s[0]));
    }
}

/// A number and `!` before a version is its epoch; `+` and a text behind it is its
/// local part, in small letters.
pub proof fn epoch_and_local_are_read(epoch: u64, release: Seq<u64>, local: Seq<char>)
    requires
        release.len() > 0,
        local.len() > 0,
        forall|i: int|
            0 <= i < local.len() ==> !text::is_whitespace(#[trigger] local[i]) && local[i] != '+',
    ensures
        pep440::parse(
            text::decimal(epoch as nat) + seq!['!'] + version_laws::dotted(release) + seq!['+']
                + local,
        ) == Some(
            VersionModel {
                epoch,
                release,
                pre: None,
                post: None,
                dev: None,
                local: Some(text::ascii_lower(local)),
            },
        ),
{
    let d = text::decimal(epoch as nat);
    let r = version_laws::dotted(release);
    let public = d + seq!['!'] + r;
    let s = public + seq!['+'] + local;
    text::decimal_is_read(epoch as nat);
    version_laws::dotted_form(release);
    assert forall|i: int| 0 <= i < d.len() implies text::is_digit(#[trigger] d[i]) by {}
    assert forall|i: int| 0 <= i < s.len() implies !text::is_whitespace(#[trigger] s[i]) by {
        if i < d.len() {
            assert(s[i] == d[i]);
        } else if d.len() < i < public.len() {
            assert(s[i] == r[i - d.len() - 1]);
        } else if i > public.len() {
            assert(s[i] == local[i - public.len() - 1]);
        }
    }
    version_laws::nothing_to_trim(s);
    assert(s[0] == d[0]);
    let low = text::ascii_lower(local);
    let z = public + seq!['+'] + low;
    assert(text::ascii_lower(s) =~= z) by {
        assert forall|i: int| 0 <= i < s.len() implies text::lower_char(s[i]) == z[i] by {
            if i < d.len() {
                assert(s[i] == d[i]);
            } else if d.len() < i < public.len() {
                assert(s[i] == r[i - d.len() - 1]);
            } else if i > public.len() {
                assert(s[i] == local[i - public.len() - 1]);
            }
        }
    }
    assert forall|i: int| 0 <= i < public.len() implies public[i] != '+' by {
        if i < d.len() {
            assert(public[i] == d[i]);
        } else if d.len() < i {
            assert(public[i] == r[i - d.len() - 1]);
        }
    }
    assert(!public.contains('+'));
    text_laws::before_ends_at_first(public, '+', low);
    assert(!d.contains('!')) by {
        assert forall|i: int| 0 <= i < d.len() implies d[i] != '!' by {
            assert(text::is_digit(d[i]));
        }
    }
    text_laws::before_ends_at_first(d, '!', r);
    version_laws::release_is_read(release);
    assert(text::ascii_lower(r) =~= r) by {
        assert forall|i: int| 0 <= i < r.len() implies text::lower_char(r[i]) == r[i] by {
            assert(text::is_digit(r[i]) || r[i] == '.');
        }
    }
    release_of_dotted(release);
    nothing_is_read();
    let none = Seq::<char>::empty();
    assert(text::trim_set(none, pep440::separators()) == none);
}

proof fn release_of_dotted(release: Seq<u64>)
    requires
        release.len() > 0,
    ensures
        pep440::release_part(version_laws::dotted(release)) == Some(
            (release, Seq::<char>::empty()),
        ),
{
    let s = version_laws::dotted(release);
    version_laws::dotted_form(release);
    assert(s.take(s.len() as int) =~= s);
    assert(s.skip(s.len() as int) =~= Seq::<char>::empty());
    assert(!seq!['.'].contains(s.last()));
    assert(pep440::release_text(s) == s);
    let parts = text::split(s, '.');
    assert forall|i: int| 0 <= i < parts.len() implies text::bounded_value(
        #[trigger] parts[i],
        u64::MAX as nat,
    ) == Some(release[i] as nat) by {
        text::decimal_is_read(release[i] as nat);
    }
    assert(pep440::numbers(parts)->0 =~= release);
}

/// Other texts are no versions: nothing at all, and what does not start with a number
/// once a `v` and spaces are gone.
pub proof fn others_are_no_versions(s: Seq<char>)
    requires
        s.len() == 0 || (!text::is_whitespace(s[0]) && !text::is_digit(s[0]) && s[0] != '.' && s[0]
            != 'v' && s[0] != 'V'),
        forall|i: int| 0 <= i < s.len() ==> !text::is_whitespace(#[trigger] s[i]) && s[i] != '!',
    ensures
        pep440::parse(s) is None,
{
    version_laws::nothing_to_trim(s);
    if s.len() > 0 {
        let z = text::ascii_lower(s);
        assert(pep440::normalized(s) == z);
        assert forall|i: int| 0 <= i < z.len() implies z[i] != '!' by {
            assert(s[i] != '!');
        }
        text_laws::find_present(z, '+', 0);
        if let Some((public, local)) = pep440::local_part(z) {
            assert forall|i: int| 0 <= i < public.len() implies public[i] != '!' by {
                assert(public[i] == z[i]);
            }
            text_laws::find_absent(public, '!', 0);
            assert(pep440::epoch_part(public) == Some((0u64, public)));
            if public.len() > 0 {
                assert(public[0] == z[0]);
                assert(z[0] == text::lower_char(s[0]));
                assert(!text::is_digit(public[0]) && public[0] != '.');
            }
            assert(pep440::leading_release(public) == 0);
            assert(public.take(0) =~= Seq::<char>::empty());
            assert(pep440::release_text(public).len() == 0);
        }
    }
}

// ── Order ───────────────────────────────────────────────────────────────────
/// Versions of one epoch are ordered by the first release segment in which they
/// differ, as numbers, whatever follows it: `1.9` comes before `1.10`, and so do its
/// post-releases.
pub proof fn segments_are_ordered(
    front: Seq<u64>,
    x: u64,
    y: u64,
    a: VersionModel,
    b: VersionModel,
    rest: Seq<u64>,
    other: Seq<u64>,
)
    requires
        a.epoch == b.epoch,
        a.release == front.push(x) + rest,
        b.release == front.push(y) + other,
        x < y,
    ensures
        pep440::order(a, b) == -1,
        pep440::order(b, a) == 1,
{
    let n = pep440::longer(a.release.len(), b.release.len());
    let p = pep440::padded(a.release, n);
    let q = pep440::padded(b.release, n);
    let k = front.len() as int;
    assert forall|i: int| 0 <= i < k implies p[i] == q[i] by {
        assert(a.release[i] == front[i] && b.release[i] == front[i]);
    }
    assert(a.release[k] == x && b.release[k] == y);
    pep440::lex_at(p, q, k);
    pep440::order_total(a, b);
}

/// A release that goes on with a segment above zero comes after the shorter one.
pub proof fn longer_release_is_higher(a: VersionModel, b: VersionModel, x: u64, rest: Seq<u64>)
    requires
        a.epoch == b.epoch,
        b.release == a.release.push(x) + rest,
        x > 0,
    ensures
        pep440::order(a, b) == -1,
{
    let n = pep440::longer(a.release.len(), b.release.len());
    let p = pep440::padded(a.release, n);
    let q = pep440::padded(b.release, n);
    let k = a.release.len() as int;
    assert forall|i: int| 0 <= i < k implies p[i] == q[i] by {
        assert(b.release[i] == a.release[i]);
    }
    assert(b.release[k] == x);
    pep440::lex_at(p, q, k);
}

/// Within one release, alphas come before betas, betas before release candidates, and
/// those of one kind are ordered by their numbers.
pub proof fn pre_releases_are_ordered(a: VersionModel, b: VersionModel, m: u64, n: u64)
    requires
        a.epoch == b.epoch,
        a.release == b.release,
    ensures
        a.pre == Some((PreKind::Alpha, m)) && b.pre == Some((PreKind::Beta, n)) ==> pep440::order(
            a,
            b,
        ) == -1,
        a.pre == Some((PreKind::Beta, m)) && b.pre == Some((PreKind::Rc, n)) ==> pep440::order(
            a,
            b,
        ) == -1,
        a.pre == Some((PreKind::Alpha, m)) && b.pre == Some((PreKind::Rc, n)) ==> pep440::order(
            a,
            b,
        ) == -1,
        m < n && a.pre is Some && b.pre is Some && (a.pre->0).0 == (b.pre->0).0 && (a.pre->0).1
            == m && (b.pre->0).1 == n ==> pep440::order(a, b) == -1,
        a.pre is Some && b.pre is None && b.dev is None ==> pep440::order(a, b) == -1,
        a.pre is None && a.post is None && a.dev is Some && b.pre is Some ==> pep440::order(a, b)
            == -1,
{
    let k = pep440::longer(a.release.len(), b.release.len());
    same_is_level(pep440::padded(a.release, k));
    let x = pep440::phase_key(a);
    let y = pep440::phase_key(b);
    if a.pre is Some && b.pre is Some {
        assert(x[0] == 0 && y[0] == 0);
        if (a.pre->0).0 == (b.pre->0).0 {
            assert(x[1] == y[1]);
            if (a.pre->0).1 < (b.pre->0).1 {
                pep440::lex_at(x, y, 2);
            }
        } else if x[1] < y[1] {
            pep440::lex_at(x, y, 1);
        }
    } else if x[0] < y[0] {
        pep440::lex_at(x, y, 0);
    }
}

proof fn same_is_level(s: Seq<int>)
    ensures
        pep440::lex(s, s) == 0,
    decreases s.len(),
{
    if s.len() > 0 {
        same_is_level(s.skip(1));
    }
}

/// Development releases of one version are ordered by their numbers.
pub proof fn dev_numbers_are_ordered(a: VersionModel, b: VersionModel)
    requires
        a == (VersionModel { dev: a.dev, ..b }),
        a.dev is Some,
        b.dev is Some,
        a.dev->0 < b.dev->0,
    ensures
        pep440::order(a, b) == -1,
{
    let k = pep440::longer(a.release.len(), b.release.len());
    same_is_level(pep440::padded(a.release, k));
    let x = pep440::phase_key(a);
    let y = pep440::phase_key(b);
    assert forall|i: int| 0 <= i < 6 implies x[i] == y[i] by {}
    pep440::lex_at(x, y, 6);
}

/// Two versions are equal only where their epochs, pre-releases, post-releases and
/// development releases are the same.
pub proof fn equal_versions_agree(a: VersionModel, b: VersionModel)
    requires
        pep440::order(a, b) == 0,
    ensures
        a.epoch == b.epoch,
        a.pre is Some == b.pre is Some,
        a.pre is Some ==> (a.pre->0).1 == (b.pre->0).1,
        a.post == b.post,
        a.dev == b.dev,
{
    let x = pep440::phase_key(a);
    let y = pep440::phase_key(b);
    level_is_same(x, y, 0);
    level_is_same(x, y, 1);
    level_is_same(x, y, 2);
    level_is_same(x, y, 3);
    level_is_same(x, y, 4);
    level_is_same(x, y, 5);
    level_is_same(x, y, 6);
}

proof fn level_is_same(x: Seq<int>, y: Seq<int>, i: int)
    requires
        pep440::lex(x, y) == 0,
        0 <= i < x.len(),
        x.len() == y.len(),
    ensures
        x[i] == y[i],
    decreases x.len(),
{
    if i > 0 {
        level_is_same(x.skip(1), y.skip(1), i - 1);
    }
}

// ── Prefixes ────────────────────────────────────────────────────────────────
/// A release that goes on from a prefix has it, one that differs from it in a segment
/// does not, and a shorter one has it where what is missing is zero.
pub proof fn prefix_is_of_segments(
    v: VersionModel,
    prefix: Seq<u64>,
    rest: Seq<u64>,
    k: int,
    zeros: nat,
)
    ensures
        v.release == prefix + rest ==> pep440::has_prefix(v, v.epoch, prefix),
        0 <= k < prefix.len() && k < v.release.len() && v.release[k] != prefix[k]
            ==> !pep440::has_prefix(v, v.epoch, prefix),
        prefix == v.release + Seq::new(zeros, |i: int| 0u64) ==> pep440::has_prefix(
            v,
            v.epoch,
            prefix,
        ),
        v.release.len() <= k < prefix.len() && prefix[k] != 0 ==> !pep440::has_prefix(
            v,
            v.epoch,
            prefix,
        ),
        !pep440::has_prefix(v, (if v.epoch == 0 { 1u64 } else { 0u64 }), prefix),
{
    if v.release == prefix + rest {
        assert forall|i: int| 0 <= i < prefix.len() implies (if i < v.release.len() {
            v.release[i]
        } else {
            0
        }) == #[trigger] prefix[i] by {
            assert(v.release[i] == prefix[i]);
        }
    }
    if prefix == v.release + Seq::new(zeros, |i: int| 0u64) {
        assert forall|i: int| 0 <= i < prefix.len() implies (if i < v.release.len() {
            v.release[i]
        } else {
            0
        }) == #[trigger] prefix[i] by {
            if i < v.release.len() {
                assert(prefix[i] == v.release[i]);
            }
        }
    }
}

// ── Selection ───────────────────────────────────────────────────────────────
/// What is selected is one of the versions, satisfies the clauses, and is not below any
/// stable version that does. It is a pre-release only where no stable version
/// satisfies the clauses or they ask for one by name, and with them all a pre-release
/// above it is left aside only for a stable version.
pub proof fn selected_is_highest(
    available: Seq<Seq<char>>,
    cs: Seq<ClauseModel>,
    i: int,
    j: int,
)
    requires
        pep440::is_best(available, cs, i),
        0 <= j < available.len(),
        pep440::parse(available[j]) is Some,
        pep440::satisfies(cs, pep440::parse(available[j])->0),
    ensures
        ({
            let best = pep440::parse(available[i])->0;
            let other = pep440::parse(available[j])->0;
            let stable = other.pre is None && other.dev is None;
            let best_stable = best.pre is None && best.dev is None;
            &&& 0 <= i < available.len()
            &&& pep440::parse(available[i]) is Some
            &&& pep440::satisfies(cs, best)
            &&& stable ==> pep440::order(other, best) <= 0
            &&& stable && pep440::order(other, best) == 0 ==> j <= i
            &&& !best_stable ==> pep440::order(other, best) <= 0
            &&& !best_stable && stable ==> pep440::targets_pre(cs)
            &&& pep440::targets_pre(cs) ==> pep440::order(other, best) <= 0
        }),
{
    assert(pep440::is_candidate(available, cs, j));
    let other = pep440::parse(available[j])->0;
    let best = pep440::parse(available[i])->0;
    if other.pre is None && other.dev is None {
        assert(pep440::is_stable_candidate(available, cs, j));
        assert(pep440::is_eligible(available, cs, j));
    }
    if best.pre is Some || best.dev is Some || pep440::targets_pre(cs) {
        assert(pep440::is_eligible(available, cs, j));
    }
}

/// A clause asks for a pre-release by name where its version is one: `>=1.0rc1` does,
/// `>=1.0` and `!=1.0rc1` do not.
pub proof fn only_named_pre_releases_count(c: ClauseModel)
    ensures
        c.op == pep440::Op::Ne || c.op == pep440::Op::NeStar ==> !pep440::targets_pre(seq![c]),
        c.op != pep440::Op::Ne && c.op != pep440::Op::NeStar && c.op != pep440::Op::Arbitrary
            && c.ver is Some ==> pep440::targets_pre(seq![c]) == ((c.ver->0).pre is Some
            || (c.ver->0).dev is Some),
{
    let one = seq![c];
    assert(one[0] == c);
    if pep440::names_pre(c) {
        assert(pep440::names_pre(one[0]));
    }
}

} // verus!
