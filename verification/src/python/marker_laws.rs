//! What holds of markers as texts: how a marker is made up of others, and what the
//! names of extras come to.
use vstd::prelude::*;

use crate::python::markers;
use crate::python::markers::EnvModel;
use crate::python::markers::TokModel;
use crate::text;

verus! {

// ── Tokens of joined texts ──────────────────────────────────────────────────
/// The first occurrence of a character stays the first where text is added.
proof fn find_stays(s: Seq<char>, t: Seq<char>, c: char, i: int)
    requires
        0 <= i,
        text::find_from(s, seq![c], i) is Some,
    ensures
        text::find_from(s + t, seq![c], i) == text::find_from(s, seq![c], i),
        i <= text::find_from(s, seq![c], i)->0 < s.len(),
    decreases s.len() - i,
{
    assert(s.subrange(i, i + 1) =~= (s + t).subrange(i, i + 1));
    if s.subrange(i, i + 1) != seq![c] {
        find_stays(s, t, c, i + 1);
    }
}

/// A text behind which another may stand without changing its tokens.
pub open spec fn breaks(s: Seq<char>) -> bool {
    s.len() == 0 || (!markers::is_op_char(s[0]) && !markers::is_ident_char(s[0]))
}

proof fn op_run_stays(s: Seq<char>, t: Seq<char>)
    requires
        breaks(t),
    ensures
        markers::op_run(s + t) == markers::op_run(s),
        markers::op_run(s) <= s.len(),
    decreases s.len(),
{
    if s.len() == 0 {
        assert(s + t =~= t);
    } else if markers::is_op_char(s[0]) {
        assert((s + t).skip(1) =~= s.skip(1) + t);
        op_run_stays(s.skip(1), t);
    }
}

proof fn ident_run_stays(s: Seq<char>, t: Seq<char>)
    requires
        breaks(t),
    ensures
        markers::ident_run(s + t) == markers::ident_run(s),
        markers::ident_run(s) <= s.len(),
    decreases s.len(),
{
    if s.len() == 0 {
        assert(s + t =~= t);
    } else if markers::is_ident_char(s[0]) {
        assert((s + t).skip(1) =~= s.skip(1) + t);
        ident_run_stays(s.skip(1), t);
    }
}

/// The tokens of two texts, one behind the other, are those of the one and then those
/// of the other.
proof fn tokens_join(s: Seq<char>, t: Seq<char>)
    requires
        markers::tokens(s) is Some,
        markers::tokens(t) is Some,
        breaks(t),
    ensures
        markers::tokens(s + t) == Some(markers::tokens(s)->0 + markers::tokens(t)->0),
    decreases s.len(),
{
    let all = s + t;
    if s.len() == 0 {
        assert(all =~= t);
        assert(markers::tokens(s)->0 + markers::tokens(t)->0 =~= markers::tokens(t)->0);
    } else if text::is_whitespace(s[0]) {
        assert(all.skip(1) =~= s.skip(1) + t);
        tokens_join(s.skip(1), t);
    } else {
        let c = s[0];
        let (tok, n) = markers::first_token(s)->0;
        op_run_stays(s, t);
        ident_run_stays(s, t);
        if c == '"' || c == '\'' {
            find_stays(s.skip(1), t, c, 0);
            assert(all.skip(1) =~= s.skip(1) + t);
            let k = text::find(s.skip(1), seq![c])->0;
            assert(all.skip(1).take(k) =~= s.skip(1).take(k));
        } else if markers::is_op_char(c) {
            assert(all.take(n) =~= s.take(n));
        } else if markers::is_ident_char(c) {
            assert(all.take(n) =~= s.take(n));
        }
        assert(markers::first_token(all) == Some((tok, n)));
        assert(all.skip(n) =~= s.skip(n) + t);
        tokens_join(s.skip(n), t);
        let rest = markers::tokens(s.skip(n))->0;
        assert(seq![tok] + (rest + markers::tokens(t)->0) =~= (seq![tok] + rest)
            + markers::tokens(t)->0);
    }
}

/// The tokens of a text that starts with a token of one character.
proof fn starts_with_paren(s: Seq<char>)
    requires
        s.len() > 0,
        s[0] == '(' || s[0] == ')',
        markers::tokens(s.skip(1)) is Some,
    ensures
        markers::tokens(s) == Some(
            seq![
                if s[0] == '(' {
                    TokModel::LParen
                } else {
                    TokModel::RParen
                },
            ] + markers::tokens(s.skip(1))->0,
        ),
{
}

/// The tokens of a text that starts with a word and a space.
proof fn starts_with_word(word: Seq<char>, rest: Seq<char>)
    requires
        word.len() > 0,
        forall|i: int|
            0 <= i < word.len() ==> markers::is_ident_char(#[trigger] word[i])
                && !text::is_whitespace(word[i]) && !markers::is_op_char(word[i]) && word[i] != '('
                && word[i] != ')' && word[i] != '"' && word[i] != '\'',
        rest.len() > 0,
        rest[0] == ' ',
        markers::tokens(rest) is Some,
    ensures
        markers::tokens(word + rest) == Some(
            seq![TokModel::Ident(word)] + markers::tokens(rest)->0,
        ),
{
    whole_word(word);
    ident_run_stays(word, rest);
    let all = word + rest;
    assert(all[0] == word[0]);
    assert(all.take(word.len() as int) =~= word);
    assert(all.skip(word.len() as int) =~= rest);
}

proof fn whole_word(word: Seq<char>)
    requires
        forall|i: int| 0 <= i < word.len() ==> markers::is_ident_char(#[trigger] word[i]),
    ensures
        markers::ident_run(word) == word.len(),
    decreases word.len(),
{
    if word.len() > 0 {
        whole_word(word.skip(1));
    }
}

proof fn starts_with_space(s: Seq<char>)
    requires
        s.len() > 0,
        s[0] == ' ',
    ensures
        markers::tokens(s) == markers::tokens(s.skip(1)),
{
}

// ── Markers within markers ──────────────────────────────────────────────────
/// The tokens with others before and behind them, the first of which is a closing
/// parenthesis.
spec fn within(front: Seq<TokModel>, toks: Seq<TokModel>, back: Seq<TokModel>) -> Seq<TokModel> {
    front + toks + back
}

proof fn comparison_within(
    front: Seq<TokModel>,
    toks: Seq<TokModel>,
    back: Seq<TokModel>,
    pos: int,
    env: EnvModel,
    extras: Seq<Seq<char>>,
)
    requires
        0 <= pos,
        markers::comparison_at(toks, pos, env, extras) is Some,
    ensures
        ({
            let (v, p) = markers::comparison_at(toks, pos, env, extras)->0;
            &&& pos < p <= toks.len()
            &&& markers::comparison_at(within(front, toks, back), front.len() + pos, env, extras)
                == Some((v, front.len() + p))
        }),
{
    let all = within(front, toks, back);
    let n = front.len() as int;
    assert(all[n + pos] == toks[pos]);
    assert(all[n + pos + 1] == toks[pos + 1]);
    let (op, at) = markers::operator_at(toks, pos + 1)->0;
    if pos + 2 < toks.len() {
        assert(all[n + pos + 2] == toks[pos + 2]);
    }
    assert(markers::operator_at(all, n + pos + 1) == Some((op, n + at)));
    assert(all[n + at] == toks[at]);
}

/// A marker that ends before a closing parenthesis means the same there.
proof fn atom_within(
    front: Seq<TokModel>,
    toks: Seq<TokModel>,
    back: Seq<TokModel>,
    pos: int,
    env: EnvModel,
    extras: Seq<Seq<char>>,
)
    requires
        0 <= pos,
        back.len() > 0,
        back[0] is RParen,
        markers::atom_at(toks, pos, env, extras) is Some,
    ensures
        ({
            let (v, p) = markers::atom_at(toks, pos, env, extras)->0;
            &&& pos < p <= toks.len()
            &&& markers::atom_at(within(front, toks, back), front.len() + pos, env, extras)
                == Some((v, front.len() + p))
        }),
    decreases toks.len() - pos, 0int,
{
    let all = within(front, toks, back);
    let n = front.len() as int;
    if pos < toks.len() && toks[pos] == TokModel::LParen {
        assert(all[n + pos] == toks[pos]);
        or_within(front, toks, back, pos + 1, env, extras);
        let (v, p) = markers::or_at(toks, pos + 1, env, extras)->0;
        assert(all[n + p] == toks[p]);
    } else {
        comparison_within(front, toks, back, pos, env, extras);
        assert(all[n + pos] == toks[pos]);
    }
}

proof fn and_within(
    front: Seq<TokModel>,
    toks: Seq<TokModel>,
    back: Seq<TokModel>,
    pos: int,
    env: EnvModel,
    extras: Seq<Seq<char>>,
)
    requires
        0 <= pos,
        back.len() > 0,
        back[0] is RParen,
        markers::and_at(toks, pos, env, extras) is Some,
    ensures
        ({
            let (v, p) = markers::and_at(toks, pos, env, extras)->0;
            &&& pos < p <= toks.len()
            &&& markers::and_at(within(front, toks, back), front.len() + pos, env, extras)
                == Some((v, front.len() + p))
        }),
    decreases toks.len() - pos, 2int,
{
    atom_within(front, toks, back, pos, env, extras);
    let (v, p) = markers::atom_at(toks, pos, env, extras)->0;
    and_from_within(front, toks, back, v, p, env, extras);
}

proof fn and_from_within(
    front: Seq<TokModel>,
    toks: Seq<TokModel>,
    back: Seq<TokModel>,
    acc: Option<bool>,
    pos: int,
    env: EnvModel,
    extras: Seq<Seq<char>>,
)
    requires
        0 <= pos <= toks.len(),
        back.len() > 0,
        back[0] is RParen,
        markers::and_from(toks, acc, pos, env, extras) is Some,
    ensures
        ({
            let (v, p) = markers::and_from(toks, acc, pos, env, extras)->0;
            &&& pos <= p <= toks.len()
            &&& markers::and_from(within(front, toks, back), acc, front.len() + pos, env, extras)
                == Some((v, front.len() + p))
        }),
    decreases toks.len() - pos, 1int,
{
    let all = within(front, toks, back);
    let n = front.len() as int;
    if pos < toks.len() {
        assert(all[n + pos] == toks[pos]);
    } else {
        assert(all[n + pos] == back[0]);
    }
    if markers::is_word(toks, pos, "and"@) {
        atom_within(front, toks, back, pos + 1, env, extras);
        let (v, p) = markers::atom_at(toks, pos + 1, env, extras)->0;
        and_from_within(front, toks, back, markers::tri_and(acc, v), p, env, extras);
    }
}

proof fn or_within(
    front: Seq<TokModel>,
    toks: Seq<TokModel>,
    back: Seq<TokModel>,
    pos: int,
    env: EnvModel,
    extras: Seq<Seq<char>>,
)
    requires
        0 <= pos,
        back.len() > 0,
        back[0] is RParen,
        markers::or_at(toks, pos, env, extras) is Some,
    ensures
        ({
            let (v, p) = markers::or_at(toks, pos, env, extras)->0;
            &&& pos < p <= toks.len()
            &&& markers::or_at(within(front, toks, back), front.len() + pos, env, extras) == Some(
                (v, front.len() + p),
            )
        }),
    decreases toks.len() - pos, 4int,
{
    and_within(front, toks, back, pos, env, extras);
    let (v, p) = markers::and_at(toks, pos, env, extras)->0;
    or_from_within(front, toks, back, v, p, env, extras);
}

proof fn or_from_within(
    front: Seq<TokModel>,
    toks: Seq<TokModel>,
    back: Seq<TokModel>,
    acc: Option<bool>,
    pos: int,
    env: EnvModel,
    extras: Seq<Seq<char>>,
)
    requires
        0 <= pos <= toks.len(),
        back.len() > 0,
        back[0] is RParen,
        markers::or_from(toks, acc, pos, env, extras) is Some,
    ensures
        ({
            let (v, p) = markers::or_from(toks, acc, pos, env, extras)->0;
            &&& pos <= p <= toks.len()
            &&& markers::or_from(within(front, toks, back), acc, front.len() + pos, env, extras)
                == Some((v, front.len() + p))
        }),
    decreases toks.len() - pos, 3int,
{
    let all = within(front, toks, back);
    let n = front.len() as int;
    if pos < toks.len() {
        assert(all[n + pos] == toks[pos]);
    } else {
        assert(all[n + pos] == back[0]);
    }
    if markers::is_word(toks, pos, "or"@) {
        and_within(front, toks, back, pos + 1, env, extras);
        let (v, p) = markers::and_at(toks, pos + 1, env, extras)->0;
        or_from_within(front, toks, back, markers::tri_or(acc, v), p, env, extras);
    }
}

/// Two markers in parentheses with a word between them.
pub open spec fn combined(a: Seq<char>, middle: Seq<char>, b: Seq<char>) -> Seq<char> {
    "("@ + a + middle + b + ")"@
}

/// The tokens of two markers in parentheses with a word between them.
spec fn combined_tokens(a: Seq<TokModel>, word: Seq<char>, b: Seq<TokModel>) -> Seq<TokModel> {
    seq![TokModel::LParen] + a + seq![
        TokModel::RParen,
        TokModel::Ident(word),
        TokModel::LParen,
    ] + b + seq![TokModel::RParen]
}

proof fn tokens_of_combined(a: Seq<char>, middle: Seq<char>, word: Seq<char>, b: Seq<char>)
    requires
        markers::tokens(a) is Some,
        markers::tokens(b) is Some,
        word.len() > 0,
        forall|i: int|
            0 <= i < word.len() ==> markers::is_ident_char(#[trigger] word[i])
                && !text::is_whitespace(word[i]) && !markers::is_op_char(word[i]) && word[i] != '('
                && word[i] != ')' && word[i] != '"' && word[i] != '\'',
        middle == seq![')', ' '] + word + seq![' ', '('],
    ensures
        markers::tokens(combined(a, middle, b)) == Some(
            combined_tokens(markers::tokens(a)->0, word, markers::tokens(b)->0),
        ),
{
    reveal_strlit("(");
    reveal_strlit(")");
    let ta = markers::tokens(a)->0;
    let tb = markers::tokens(b)->0;
    let close = seq![')'];
    assert(close.skip(1) =~= Seq::<char>::empty());
    assert(markers::tokens(close) == Some(seq![TokModel::RParen] + Seq::<TokModel>::empty())) by {
        starts_with_paren(close);
    }
    assert(seq![TokModel::RParen] + Seq::<TokModel>::empty() =~= seq![TokModel::RParen]);
    tokens_join(b, close);
    let open_b = seq!['('] + (b + close);
    assert(open_b.skip(1) =~= b + close);
    starts_with_paren(open_b);
    let spaced = seq![' '] + open_b;
    assert(spaced.skip(1) =~= open_b);
    starts_with_space(spaced);
    starts_with_word(word, spaced);
    let behind = seq![' '] + (word + spaced);
    assert(behind.skip(1) =~= word + spaced);
    starts_with_space(behind);
    let closed = seq![')'] + behind;
    assert(closed.skip(1) =~= behind);
    starts_with_paren(closed);
    assert(breaks(closed));
    tokens_join(a, closed);
    let all = seq!['('] + (a + closed);
    assert(all.skip(1) =~= a + closed);
    starts_with_paren(all);
    assert(combined(a, middle, b) =~= all);
    assert(markers::tokens(all)->0 =~= combined_tokens(ta, word, tb));
}

/// What two markers in parentheses with `and` or `or` between them come to.
proof fn value_of_combined(
    ta: Seq<TokModel>,
    word: Seq<char>,
    tb: Seq<TokModel>,
    env: EnvModel,
    extras: Seq<Seq<char>>,
)
    requires
        markers::or_at(ta, 0, env, extras) matches Some((_, p)) && p == ta.len(),
        markers::or_at(tb, 0, env, extras) matches Some((_, p)) && p == tb.len(),
        word == "and"@ || word == "or"@,
    ensures
        ({
            let all = combined_tokens(ta, word, tb);
            let a = (markers::or_at(ta, 0, env, extras)->0).0;
            let b = (markers::or_at(tb, 0, env, extras)->0).0;
            markers::or_at(all, 0, env, extras) == Some(
                (
                    if word == "and"@ {
                        markers::tri_and(a, b)
                    } else {
                        markers::tri_or(a, b)
                    },
                    all.len() as int,
                ),
            )
        }),
{
    reveal_strlit("and");
    reveal_strlit("or");
    assert("and"@.len() != "or"@.len());
    let all = combined_tokens(ta, word, tb);
    let a = (markers::or_at(ta, 0, env, extras)->0).0;
    let b = (markers::or_at(tb, 0, env, extras)->0).0;
    let na = ta.len() as int;
    let nb = tb.len() as int;
    let back_a = seq![TokModel::RParen, TokModel::Ident(word), TokModel::LParen] + tb + seq![
        TokModel::RParen,
    ];
    let front_b = seq![TokModel::LParen] + ta + seq![
        TokModel::RParen,
        TokModel::Ident(word),
        TokModel::LParen,
    ];
    let back_b = seq![TokModel::RParen];
    assert(within(seq![TokModel::LParen], ta, back_a) =~= all);
    assert(within(front_b, tb, back_b) =~= all);
    or_within(seq![TokModel::LParen], ta, back_a, 0, env, extras);
    or_within(front_b, tb, back_b, 0, env, extras);
    assert(all[0] == TokModel::LParen);
    assert(all[1 + na] == TokModel::RParen);
    assert(all[2 + na] == TokModel::Ident(word));
    assert(all[3 + na] == TokModel::LParen);
    assert(all[4 + na + nb] == TokModel::RParen);
    assert(all.len() == na + nb + 5);
    let first = 2 + na;
    let end = 5 + na + nb;
    assert(markers::atom_at(all, 0, env, extras) == Some((a, first)));
    assert(markers::atom_at(all, first + 1, env, extras) == Some((b, end)));
    if word == "and"@ {
        let v = markers::tri_and(a, b);
        assert(markers::and_from(all, v, end, env, extras) == Some((v, end)));
        assert(markers::and_from(all, a, first, env, extras) == Some((v, end)));
        assert(markers::and_at(all, 0, env, extras) == Some((v, end)));
        assert(markers::or_from(all, v, end, env, extras) == Some((v, end)));
    } else {
        let v = markers::tri_or(a, b);
        assert(markers::and_from(all, a, first, env, extras) == Some((a, first)));
        assert(markers::and_at(all, 0, env, extras) == Some((a, first)));
        assert(markers::and_from(all, b, end, env, extras) == Some((b, end)));
        assert(markers::and_at(all, first + 1, env, extras) == Some((b, end)));
        assert(markers::or_from(all, v, end, env, extras) == Some((v, end)));
        assert(markers::or_from(all, a, first, env, extras) == Some((v, end)));
    }
}

/// A marker `(A) and (B)` applies where both A and B apply: an operand that is
/// unknown drops nothing.
pub proof fn both_apply(a: Seq<char>, b: Seq<char>, env: EnvModel, extras: Seq<Seq<char>>)
    requires
        markers::evaluated(a, env, extras) is Some,
        markers::evaluated(b, env, extras) is Some,
    ensures
        markers::evaluated(combined(a, ") and ("@, b), env, extras) is Some,
        markers::applies(combined(a, ") and ("@, b), env, extras) == (markers::applies(
            a,
            env,
            extras,
        ) && markers::applies(b, env, extras)),
{
    reveal_strlit("and");
    reveal_strlit(") and (");
    assert(") and ("@ =~= seq![')', ' '] + "and"@ + seq![' ', '(']);
    tokens_of_combined(a, ") and ("@, "and"@, b);
    value_of_combined(markers::tokens(a)->0, "and"@, markers::tokens(b)->0, env, extras);
}

/// A marker `(A) or (B)` applies where A or B applies.
pub proof fn either_applies(a: Seq<char>, b: Seq<char>, env: EnvModel, extras: Seq<Seq<char>>)
    requires
        markers::evaluated(a, env, extras) is Some,
        markers::evaluated(b, env, extras) is Some,
    ensures
        markers::evaluated(combined(a, ") or ("@, b), env, extras) is Some,
        markers::applies(combined(a, ") or ("@, b), env, extras) == (markers::applies(
            a,
            env,
            extras,
        ) || markers::applies(b, env, extras)),
{
    reveal_strlit("or");
    reveal_strlit("and");
    reveal_strlit(") or (");
    assert("and"@.len() != "or"@.len());
    assert(") or ("@ =~= seq![')', ' '] + "or"@ + seq![' ', '(']);
    tokens_of_combined(a, ") or ("@, "or"@, b);
    value_of_combined(markers::tokens(a)->0, "or"@, markers::tokens(b)->0, env, extras);
}

/// Three markers in parentheses with a word between each two.
pub open spec fn three(
    a: Seq<char>,
    first: Seq<char>,
    b: Seq<char>,
    second: Seq<char>,
    c: Seq<char>,
) -> Seq<char> {
    combined(a, first, b + second + c)
}

proof fn tokens_of_middle(b: Seq<char>, middle: Seq<char>, word: Seq<char>, c: Seq<char>)
    requires
        markers::tokens(b) is Some,
        markers::tokens(c) is Some,
        word.len() > 0,
        forall|i: int|
            0 <= i < word.len() ==> markers::is_ident_char(#[trigger] word[i])
                && !text::is_whitespace(word[i]) && !markers::is_op_char(word[i]) && word[i] != '('
                && word[i] != ')' && word[i] != '"' && word[i] != '\'',
        middle == seq![')', ' '] + word + seq![' ', '('],
    ensures
        markers::tokens(b + middle + c) == Some(
            markers::tokens(b)->0 + seq![
                TokModel::RParen,
                TokModel::Ident(word),
                TokModel::LParen,
            ] + markers::tokens(c)->0,
        ),
{
    let open_c = seq!['('] + c;
    assert(open_c.skip(1) =~= c);
    starts_with_paren(open_c);
    let spaced = seq![' '] + open_c;
    assert(spaced.skip(1) =~= open_c);
    starts_with_space(spaced);
    starts_with_word(word, spaced);
    let behind = seq![' '] + (word + spaced);
    assert(behind.skip(1) =~= word + spaced);
    starts_with_space(behind);
    let closed = seq![')'] + behind;
    assert(closed.skip(1) =~= behind);
    starts_with_paren(closed);
    assert(breaks(closed));
    tokens_join(b, closed);
    assert(b + middle + c =~= b + closed);
    assert(markers::tokens(b + closed)->0 =~= markers::tokens(b)->0 + seq![
        TokModel::RParen,
        TokModel::Ident(word),
        TokModel::LParen,
    ] + markers::tokens(c)->0);
}

/// What three parts with `and` and `or` between them come to.
proof fn parts_are_joined(
    all: Seq<TokModel>,
    a: Option<bool>,
    b: Option<bool>,
    c: Option<bool>,
    p: int,
    q: int,
    and_first: bool,
    env: EnvModel,
    extras: Seq<Seq<char>>,
)
    requires
        0 < p,
        p + 1 < q,
        q + 1 < all.len(),
        all[p] == TokModel::Ident(
            if and_first {
                "and"@
            } else {
                "or"@
            },
        ),
        all[q] == TokModel::Ident(
            if and_first {
                "or"@
            } else {
                "and"@
            },
        ),
        markers::atom_at(all, 0, env, extras) == Some((a, p)),
        markers::atom_at(all, p + 1, env, extras) == Some((b, q)),
        markers::atom_at(all, q + 1, env, extras) == Some((c, all.len() as int)),
    ensures
        markers::or_at(all, 0, env, extras) == Some(
            (
                if and_first {
                    markers::tri_or(markers::tri_and(a, b), c)
                } else {
                    markers::tri_or(a, markers::tri_and(b, c))
                },
                all.len() as int,
            ),
        ),
{
    reveal_strlit("and");
    reveal_strlit("or");
    assert("and"@.len() != "or"@.len());
    let end = all.len() as int;
    if and_first {
        let ab = markers::tri_and(a, b);
        let v = markers::tri_or(ab, c);
        assert(markers::and_from(all, ab, q, env, extras) == Some((ab, q)));
        assert(markers::and_from(all, a, p, env, extras) == Some((ab, q)));
        assert(markers::and_at(all, 0, env, extras) == Some((ab, q)));
        assert(markers::and_from(all, c, end, env, extras) == Some((c, end)));
        assert(markers::and_at(all, q + 1, env, extras) == Some((c, end)));
        assert(markers::or_from(all, v, end, env, extras) == Some((v, end)));
        assert(markers::or_from(all, ab, q, env, extras) == Some((v, end)));
    } else {
        let bc = markers::tri_and(b, c);
        let v = markers::tri_or(a, bc);
        assert(markers::and_from(all, a, p, env, extras) == Some((a, p)));
        assert(markers::and_at(all, 0, env, extras) == Some((a, p)));
        assert(markers::and_from(all, bc, end, env, extras) == Some((bc, end)));
        assert(markers::and_from(all, b, q, env, extras) == Some((bc, end)));
        assert(markers::and_at(all, p + 1, env, extras) == Some((bc, end)));
        assert(markers::or_from(all, v, end, env, extras) == Some((v, end)));
        assert(markers::or_from(all, a, p, env, extras) == Some((v, end)));
    }
}

/// A marker in parentheses is one part, which means what the marker means.
proof fn part_within(
    front: Seq<TokModel>,
    toks: Seq<TokModel>,
    back: Seq<TokModel>,
    env: EnvModel,
    extras: Seq<Seq<char>>,
)
    requires
        front.len() > 0,
        front.last() is LParen,
        back.len() > 0,
        back[0] is RParen,
        markers::or_at(toks, 0, env, extras) matches Some((_, p)) && p == toks.len(),
    ensures
        markers::atom_at(within(front, toks, back), front.len() - 1, env, extras) == Some(
            (
                (markers::or_at(toks, 0, env, extras)->0).0,
                (front.len() + toks.len() + 1) as int,
            ),
        ),
{
    let all = within(front, toks, back);
    or_within(front, toks, back, 0, env, extras);
    assert(all[front.len() - 1] == front.last());
    assert(all[(front.len() + toks.len()) as int] == back[0]);
}

proof fn value_of_three(
    ta: Seq<TokModel>,
    tb: Seq<TokModel>,
    tc: Seq<TokModel>,
    and_first: bool,
    env: EnvModel,
    extras: Seq<Seq<char>>,
)
    requires
        markers::or_at(ta, 0, env, extras) matches Some((_, p)) && p == ta.len(),
        markers::or_at(tb, 0, env, extras) matches Some((_, p)) && p == tb.len(),
        markers::or_at(tc, 0, env, extras) matches Some((_, p)) && p == tc.len(),
    ensures
        ({
            let (first, second) = if and_first {
                ("and"@, "or"@)
            } else {
                ("or"@, "and"@)
            };
            let all = combined_tokens(
                ta,
                first,
                tb + seq![TokModel::RParen, TokModel::Ident(second), TokModel::LParen] + tc,
            );
            let a = (markers::or_at(ta, 0, env, extras)->0).0;
            let b = (markers::or_at(tb, 0, env, extras)->0).0;
            let c = (markers::or_at(tc, 0, env, extras)->0).0;
            markers::or_at(all, 0, env, extras) == Some(
                (
                    if and_first {
                        markers::tri_or(markers::tri_and(a, b), c)
                    } else {
                        markers::tri_or(a, markers::tri_and(b, c))
                    },
                    all.len() as int,
                ),
            )
        }),
{
    let (first, second) = if and_first {
        ("and"@, "or"@)
    } else {
        ("or"@, "and"@)
    };
    let join = seq![TokModel::RParen, TokModel::Ident(second), TokModel::LParen];
    let all = combined_tokens(ta, first, tb + join + tc);
    let a = (markers::or_at(ta, 0, env, extras)->0).0;
    let b = (markers::or_at(tb, 0, env, extras)->0).0;
    let c = (markers::or_at(tc, 0, env, extras)->0).0;
    let na = ta.len() as int;
    let nb = tb.len() as int;
    let nc = tc.len() as int;
    let open = seq![TokModel::LParen];
    let close = seq![TokModel::RParen];
    let lead = seq![TokModel::RParen, TokModel::Ident(first), TokModel::LParen];
    let back_a = lead + (tb + join + tc) + close;
    let front_b = open + ta + lead;
    let back_b = join + tc + close;
    let front_c = front_b + tb + join;
    assert(within(open, ta, back_a) =~= all);
    assert(within(front_b, tb, back_b) =~= all);
    assert(within(front_c, tc, close) =~= all);
    let p = 2 + na;
    let q = 5 + na + nb;
    let end = 8 + na + nb + nc;
    assert(all[p] == TokModel::Ident(first));
    assert(all[q] == TokModel::Ident(second));
    assert(all.len() == end);
    assert(markers::atom_at(all, 0, env, extras) == Some((a, p))) by {
        part_within(open, ta, back_a, env, extras);
    }
    assert(markers::atom_at(all, p + 1, env, extras) == Some((b, q))) by {
        part_within(front_b, tb, back_b, env, extras);
    }
    assert(markers::atom_at(all, q + 1, env, extras) == Some((c, end))) by {
        part_within(front_c, tc, close, env, extras);
    }
    parts_are_joined(all, a, b, c, p, q, and_first, env, extras);
}

/// `and` binds closer than `or`: `(A) and (B) or (C)` applies where A and B both do or C
/// does, and `(A) or (B) and (C)` where A does or B and C both do.
pub proof fn and_binds_closer(
    a: Seq<char>,
    b: Seq<char>,
    c: Seq<char>,
    env: EnvModel,
    extras: Seq<Seq<char>>,
)
    requires
        markers::evaluated(a, env, extras) is Some,
        markers::evaluated(b, env, extras) is Some,
        markers::evaluated(c, env, extras) is Some,
    ensures
        ({
            let (x, y, z) = (
                markers::applies(a, env, extras),
                markers::applies(b, env, extras),
                markers::applies(c, env, extras),
            );
            &&& markers::applies(three(a, ") and ("@, b, ") or ("@, c), env, extras) == ((x && y)
                || z)
            &&& markers::applies(three(a, ") or ("@, b, ") and ("@, c), env, extras) == (x || (y
                && z))
        }),
{
    reveal_strlit("and");
    reveal_strlit("or");
    reveal_strlit(") and (");
    reveal_strlit(") or (");
    assert(") and ("@ =~= seq![')', ' '] + "and"@ + seq![' ', '(']);
    assert(") or ("@ =~= seq![')', ' '] + "or"@ + seq![' ', '(']);
    let ta = markers::tokens(a)->0;
    let tb = markers::tokens(b)->0;
    let tc = markers::tokens(c)->0;
    tokens_of_middle(b, ") or ("@, "or"@, c);
    tokens_of_middle(b, ") and ("@, "and"@, c);
    tokens_of_combined(a, ") and ("@, "and"@, b + ") or ("@ + c);
    tokens_of_combined(a, ") or ("@, "or"@, b + ") and ("@ + c);
    value_of_three(ta, tb, tc, true, env, extras);
    value_of_three(ta, tb, tc, false, env, extras);
}

// ── Extras ──────────────────────────────────────────────────────────────────
/// A comparison of `extra` with a name in quotes.
pub open spec fn extra_marker(op: Seq<char>, name: Seq<char>) -> Seq<char> {
    "extra "@ + op + " '"@ + name + "'"@
}

proof fn tokens_of_extra(op: Seq<char>, name: Seq<char>)
    requires
        op == "=="@ || op == "!="@,
        !name.contains('\''),
    ensures
        markers::tokens(extra_marker(op, name)) == Some(
            seq![TokModel::Ident("extra"@), TokModel::Op(op), TokModel::Str(name)],
        ),
{
    reveal_strlit("extra ");
    reveal_strlit("extra");
    reveal_strlit("==");
    reveal_strlit("!=");
    reveal_strlit(" '");
    reveal_strlit("'");
    let quoted = seq!['\''] + name + seq!['\''];
    quote_ends(name, 0);
    assert(quoted.skip(1) =~= name + seq!['\'']);
    assert(quoted.skip(1).take(name.len() as int) =~= name);
    assert(quoted.skip(quoted.len() as int) =~= Seq::<char>::empty());
    assert(markers::first_token(quoted) == Some((TokModel::Str(name), quoted.len() as int)));
    assert(markers::tokens(Seq::<char>::empty()) == Some(Seq::<TokModel>::empty()));
    assert(markers::tokens(quoted) == Some(
        seq![TokModel::Str(name)] + Seq::<TokModel>::empty(),
    ));
    let spaced = seq![' '] + quoted;
    assert(spaced.skip(1) =~= quoted);
    starts_with_space(spaced);
    assert(op.skip(1).skip(1) =~= Seq::<char>::empty());
    reveal_with_fuel(markers::op_run, 3);
    assert(op.skip(1)[0] == op[1]);
    assert(markers::op_run(op) == 2);
    op_run_stays(op, spaced);
    let compared = op + spaced;
    assert(compared[0] == op[0]);
    assert(compared.take(2) =~= op);
    assert(compared.skip(2) =~= spaced);
    assert(markers::first_token(compared) == Some((TokModel::Op(op), 2int)));
    assert(markers::tokens(compared) == Some(
        seq![TokModel::Op(op)] + markers::tokens(spaced)->0,
    ));
    let behind = seq![' '] + compared;
    assert(behind.skip(1) =~= compared);
    starts_with_space(behind);
    starts_with_word("extra"@, behind);
    assert(extra_marker(op, name) =~= "extra"@ + behind);
    assert(markers::tokens("extra"@ + behind)->0 =~= seq![
        TokModel::Ident("extra"@),
        TokModel::Op(op),
        TokModel::Str(name),
    ]);
}

proof fn quote_ends(name: Seq<char>, i: int)
    requires
        !name.contains('\''),
        0 <= i <= name.len(),
    ensures
        text::find_from(name + seq!['\''], seq!['\''], i) == Some(name.len() as int),
    decreases name.len() - i,
{
    let s = name + seq!['\''];
    if i < name.len() {
        assert(s.subrange(i, i + 1)[0] == name[i]);
        assert(name.contains(name[i]));
        quote_ends(name, i + 1);
    } else {
        assert(s.subrange(i, i + 1) =~= seq!['\'']);
    }
}

/// A marker `extra == 'N'` applies exactly where N, in its normal form, is among the
/// extras that are asked for, and `extra != 'N'` where it is not, whatever the
/// platform. So with no extras `extra == 'N'` leaves its dependency out.
pub proof fn extras_are_membership(name: Seq<char>, env: EnvModel, extras: Seq<Seq<char>>)
    requires
        !name.contains('\''),
    ensures
        markers::applies(extra_marker("=="@, name), env, extras) == extras.contains(
            markers::normal_extra(name),
        ),
        markers::applies(extra_marker("!="@, name), env, extras) == !extras.contains(
            markers::normal_extra(name),
        ),
        extras.len() == 0 ==> !markers::applies(extra_marker("=="@, name), env, extras),
{
    reveal_strlit("==");
    reveal_strlit("!=");
    reveal_strlit("===");
    assert("=="@[0] != "!="@[0]);
    tokens_of_extra("=="@, name);
    tokens_of_extra("!="@, name);
    compared_extra("=="@, name, env, extras);
    compared_extra("!="@, name, env, extras);
}

proof fn compared_extra(
    op: Seq<char>,
    name: Seq<char>,
    env: EnvModel,
    extras: Seq<Seq<char>>,
)
    ensures
        ({
            let toks = seq![TokModel::Ident("extra"@), TokModel::Op(op), TokModel::Str(name)];
            markers::or_at(toks, 0, env, extras) == Some(
                (markers::extra_compared(extras, op, name), 3int),
            )
        }),
{
    let toks = seq![TokModel::Ident("extra"@), TokModel::Op(op), TokModel::Str(name)];
    let v = markers::extra_compared(extras, op, name);
    assert(markers::comparison_at(toks, 0, env, extras) == Some((v, 3int)));
    assert(markers::atom_at(toks, 0, env, extras) == Some((v, 3int)));
    assert(markers::and_from(toks, v, 3, env, extras) == Some((v, 3int)));
    assert(markers::and_at(toks, 0, env, extras) == Some((v, 3int)));
    assert(markers::or_from(toks, v, 3, env, extras) == Some((v, 3int)));
}

// ── What platforms answer ───────────────────────────────────────────────────
/// A comparison of a variable with a text in quotes.
pub open spec fn comparing(variable: Seq<char>, op: Seq<char>, value: Seq<char>) -> Seq<char> {
    variable + " "@ + op + " '"@ + value + "'"@
}

/// A comparison of a text in quotes with a variable.
pub open spec fn compared_with(value: Seq<char>, op: Seq<char>, variable: Seq<char>) -> Seq<char> {
    "'"@ + value + "' "@ + op + " "@ + variable
}

/// A name of ASCII letters, digits, underscores and dots.
pub open spec fn is_plain_name(word: Seq<char>) -> bool {
    &&& word.len() > 0
    &&& forall|i: int|
        0 <= i < word.len() ==> text::is_ascii_alnum(#[trigger] word[i]) || word[i] == '_'
            || word[i] == '.'
}

/// A word that has a meaning of its own in a marker.
pub open spec fn is_reserved(word: Seq<char>) -> bool {
    word == "and"@ || word == "or"@ || word == "in"@ || word == "not"@ || word == "extra"@
}

proof fn tokens_of_name(word: Seq<char>)
    requires
        is_plain_name(word),
    ensures
        markers::tokens(word) == Some(seq![TokModel::Ident(word)]),
{
    assert forall|i: int| 0 <= i < word.len() implies markers::is_ident_char(
        #[trigger] word[i],
    ) by {
        assert(text::is_ascii_alnum(word[i]) || word[i] == '_' || word[i] == '.');
    }
    whole_word(word);
    assert(text::is_ascii_alnum(word[0]) || word[0] == '_' || word[0] == '.');
    assert(word.take(word.len() as int) =~= word);
    assert(word.skip(word.len() as int) =~= Seq::<char>::empty());
    assert(markers::first_token(word) == Some((TokModel::Ident(word), word.len() as int)));
    assert(markers::tokens(Seq::<char>::empty()) == Some(Seq::<TokModel>::empty()));
    assert(seq![TokModel::Ident(word)] + Seq::<TokModel>::empty() =~= seq![TokModel::Ident(word)]);
}

proof fn whole_op(op: Seq<char>)
    requires
        forall|i: int| 0 <= i < op.len() ==> markers::is_op_char(#[trigger] op[i]),
    ensures
        markers::op_run(op) == op.len(),
    decreases op.len(),
{
    if op.len() > 0 {
        whole_op(op.skip(1));
    }
}

proof fn tokens_of_op(op: Seq<char>)
    requires
        op.len() > 0,
        forall|i: int| 0 <= i < op.len() ==> markers::is_op_char(#[trigger] op[i]),
    ensures
        markers::tokens(op) == Some(seq![TokModel::Op(op)]),
{
    whole_op(op);
    assert(markers::is_op_char(op[0]));
    assert(op.take(op.len() as int) =~= op);
    assert(op.skip(op.len() as int) =~= Seq::<char>::empty());
    assert(markers::first_token(op) == Some((TokModel::Op(op), op.len() as int)));
    assert(markers::tokens(Seq::<char>::empty()) == Some(Seq::<TokModel>::empty()));
    assert(seq![TokModel::Op(op)] + Seq::<TokModel>::empty() =~= seq![TokModel::Op(op)]);
}

proof fn tokens_of_quoted(value: Seq<char>)
    requires
        !value.contains('\''),
    ensures
        markers::tokens("'"@ + value + "'"@) == Some(seq![TokModel::Str(value)]),
{
    reveal_strlit("'");
    let quoted = "'"@ + value + "'"@;
    quote_ends(value, 0);
    assert(quoted.skip(1) =~= value + seq!['\'']);
    assert(quoted.skip(1).take(value.len() as int) =~= value);
    assert(quoted.skip(quoted.len() as int) =~= Seq::<char>::empty());
    assert(markers::first_token(quoted) == Some((TokModel::Str(value), quoted.len() as int)));
    assert(markers::tokens(Seq::<char>::empty()) == Some(Seq::<TokModel>::empty()));
    assert(seq![TokModel::Str(value)] + Seq::<TokModel>::empty() =~= seq![TokModel::Str(value)]);
}

/// Tokens behind a space.
proof fn tokens_behind_space(s: Seq<char>, t: Seq<char>)
    requires
        markers::tokens(s) is Some,
        markers::tokens(t) is Some,
    ensures
        markers::tokens(s + " "@ + t) == Some(markers::tokens(s)->0 + markers::tokens(t)->0),
{
    reveal_strlit(" ");
    let spaced = " "@ + t;
    assert(spaced.skip(1) =~= t);
    starts_with_space(spaced);
    tokens_join(s, spaced);
    assert(s + " "@ + t =~= s + spaced);
}

/// An operator of a marker, with its tokens.
spec fn op_tokens(op: Seq<char>) -> Seq<TokModel> {
    if op == "in"@ {
        seq![TokModel::Ident("in"@)]
    } else if op == "not in"@ {
        seq![TokModel::Ident("not"@), TokModel::Ident("in"@)]
    } else {
        seq![TokModel::Op(op)]
    }
}

/// The operators of markers.
pub open spec fn is_operator(op: Seq<char>) -> bool {
    ||| op == "=="@ || op == "==="@ || op == "!="@ || op == "in"@ || op == "not in"@
    ||| op == "<"@ || op == "<="@ || op == ">"@ || op == ">="@ || op == "~="@
}

proof fn tokens_of_operator(op: Seq<char>)
    requires
        is_operator(op),
    ensures
        markers::tokens(op) == Some(op_tokens(op)),
{
    reveal_strlit("==");
    reveal_strlit("===");
    reveal_strlit("!=");
    reveal_strlit("<");
    reveal_strlit("<=");
    reveal_strlit(">");
    reveal_strlit(">=");
    reveal_strlit("~=");
    reveal_strlit("in");
    reveal_strlit("not");
    reveal_strlit(" ");
    reveal_strlit("not in");
    assert("not in"@.len() != "in"@.len());
    if op == "in"@ {
        tokens_of_name(op);
    } else if op == "not in"@ {
        tokens_of_name("not"@);
        tokens_of_name("in"@);
        tokens_behind_space("not"@, "in"@);
        assert("not in"@ =~= "not"@ + " "@ + "in"@);
        assert(seq![TokModel::Ident("not"@)] + seq![TokModel::Ident("in"@)] =~= op_tokens(op));
    } else {
        assert(op[0] != 'i' && op[0] != 'n');
        assert("in"@[0] == 'i' && "not in"@[0] == 'n');
        tokens_of_op(op);
    }
}

proof fn tokens_of_comparing(variable: Seq<char>, op: Seq<char>, value: Seq<char>)
    requires
        is_plain_name(variable),
        is_operator(op),
        !value.contains('\''),
    ensures
        markers::tokens(comparing(variable, op, value)) == Some(
            seq![TokModel::Ident(variable)] + op_tokens(op) + seq![TokModel::Str(value)],
        ),
        markers::tokens(compared_with(value, op, variable)) == Some(
            seq![TokModel::Str(value)] + op_tokens(op) + seq![TokModel::Ident(variable)],
        ),
{
    let quoted = "'"@ + value + "'"@;
    tokens_of_name(variable);
    tokens_of_operator(op);
    tokens_of_quoted(value);
    tokens_behind_space(variable, op);
    tokens_behind_space(variable + " "@ + op, quoted);
    tokens_behind_space(quoted, op);
    tokens_behind_space(quoted + " "@ + op, variable);
    reveal_strlit(" ");
    reveal_strlit("'");
    reveal_strlit(" '");
    reveal_strlit("' ");
    assert(comparing(variable, op, value) =~= variable + " "@ + op + " "@ + quoted);
    assert(compared_with(value, op, variable) =~= quoted + " "@ + op + " "@ + variable);
}

/// The value of one comparison of a variable that is not a word of the language.
proof fn comparing_is_evaluated(
    variable: Seq<char>,
    op: Seq<char>,
    value: Seq<char>,
    env: EnvModel,
    extras: Seq<Seq<char>>,
)
    requires
        is_plain_name(variable),
        !is_reserved(variable),
        is_operator(op),
        !value.contains('\''),
    ensures
        markers::evaluated(comparing(variable, op, value), env, extras) == Some(
            match markers::lookup(env, variable) {
                Some(v) => markers::compared(v, op, value),
                None => None,
            },
        ),
        markers::evaluated(compared_with(value, op, variable), env, extras) == Some(
            match markers::lookup(env, variable) {
                Some(v) => markers::compared(value, op, v),
                None => None,
            },
        ),
{
    tokens_of_comparing(variable, op, value);
    let there = seq![TokModel::Ident(variable)] + op_tokens(op) + seq![TokModel::Str(value)];
    let back = seq![TokModel::Str(value)] + op_tokens(op) + seq![TokModel::Ident(variable)];
    assert(there.subrange(1, there.len() - 1) =~= op_tokens(op));
    assert(back.subrange(1, back.len() - 1) =~= op_tokens(op));
    one_comparison(there, op, env, extras);
    one_comparison(back, op, env, extras);
}

/// Tokens that are one comparison.
proof fn one_comparison(
    toks: Seq<TokModel>,
    op: Seq<char>,
    env: EnvModel,
    extras: Seq<Seq<char>>,
)
    requires
        is_operator(op),
        toks.len() == op_tokens(op).len() + 2,
        toks.subrange(1, toks.len() - 1) == op_tokens(op),
        markers::value_of(toks[0], env) is Some,
        markers::value_of(toks.last(), env) is Some,
        toks[0] !is LParen,
    ensures
        markers::or_at(toks, 0, env, extras) == Some(
            (
                markers::comparison(
                    markers::value_of(toks[0], env)->0,
                    op,
                    markers::value_of(toks.last(), env)->0,
                    extras,
                ),
                toks.len() as int,
            ),
        ),
{
    reveal_strlit("in");
    reveal_strlit("not");
    reveal_strlit("not in");
    assert("in"@.len() == 2 && "not"@.len() == 3 && "not in"@.len() == 6);
    let n = toks.len() as int;
    let middle = toks.subrange(1, n - 1);
    assert(middle[0] == toks[1]);
    if op == "not in"@ {
        assert(middle[1] == toks[2]);
        assert(markers::is_word(toks, 2, "in"@));
    }
    assert(markers::operator_at(toks, 1) == Some((op, n - 1)));
    let v = markers::comparison(
        markers::value_of(toks[0], env)->0,
        op,
        markers::value_of(toks.last(), env)->0,
        extras,
    );
    assert(markers::comparison_at(toks, 0, env, extras) == Some((v, n)));
    assert(markers::atom_at(toks, 0, env, extras) == Some((v, n)));
    assert(markers::and_from(toks, v, n, env, extras) == Some((v, n)));
    assert(markers::and_at(toks, 0, env, extras) == Some((v, n)));
    assert(markers::or_from(toks, v, n, env, extras) == Some((v, n)));
}

/// On the platform `env` the variable `variable` is `reported`: a marker that names
/// that value by `==` is true and one that names another is false, the other way round
/// with `!=`, `in` looks for it in the text, and it does not matter on which side of
/// the operator the variable stands.
#[verifier::opaque]
pub open spec fn answers(
    env: EnvModel,
    variable: Seq<char>,
    reported: Seq<char>,
    value: Seq<char>,
    extras: Seq<Seq<char>>,
) -> bool {
    &&& markers::evaluated(comparing(variable, "=="@, value), env, extras) == Some(
        Some(value == reported),
    )
    &&& markers::evaluated(comparing(variable, "==="@, value), env, extras) == Some(
        Some(value == reported),
    )
    &&& markers::evaluated(comparing(variable, "!="@, value), env, extras) == Some(
        Some(value != reported),
    )
    &&& markers::evaluated(compared_with(value, "=="@, variable), env, extras) == Some(
        Some(value == reported),
    )
    &&& markers::evaluated(compared_with(value, "!="@, variable), env, extras) == Some(
        Some(value != reported),
    )
    &&& markers::evaluated(comparing(variable, "in"@, value), env, extras) == Some(
        Some(text::contains(value, reported)),
    )
    &&& markers::evaluated(comparing(variable, "not in"@, value), env, extras) == Some(
        Some(!text::contains(value, reported)),
    )
    &&& markers::evaluated(compared_with(value, "in"@, variable), env, extras) == Some(
        Some(text::contains(reported, value)),
    )
    &&& markers::evaluated(compared_with(value, "not in"@, variable), env, extras) == Some(
        Some(!text::contains(reported, value)),
    )
    &&& markers::applies(comparing(variable, "=="@, value), env, extras) == (value == reported)
    &&& markers::applies(comparing(variable, "!="@, value), env, extras) == (value != reported)
}

proof fn known_answers(
    env: EnvModel,
    variable: Seq<char>,
    reported: Seq<char>,
    value: Seq<char>,
    extras: Seq<Seq<char>>,
)
    requires
        is_plain_name(variable),
        !is_reserved(variable),
        !value.contains('\''),
        markers::lookup(env, variable) == Some(reported),
    ensures
        answers(env, variable, reported, value, extras),
{
    reveal(answers);
    reveal_strlit("==");
    reveal_strlit("===");
    reveal_strlit("!=");
    reveal_strlit("in");
    reveal_strlit("not in");
    assert("=="@[0] == '=' && "==="@[0] == '=' && "!="@[0] == '!' && "in"@[0] == 'i'
        && "not in"@[0] == 'n');
    comparing_is_evaluated(variable, "=="@, value, env, extras);
    comparing_is_evaluated(variable, "==="@, value, env, extras);
    comparing_is_evaluated(variable, "!="@, value, env, extras);
    comparing_is_evaluated(variable, "in"@, value, env, extras);
    comparing_is_evaluated(variable, "not in"@, value, env, extras);
}

/// The names of the variables that a platform has a value for are plain names and no
/// words of the language.
proof fn variables_are_names(name: Seq<char>)
    requires
        name == "sys_platform"@ || name == "sys.platform"@ || name == "platform_system"@ || name
            == "os_name"@ || name == "os.name"@ || name == "platform_machine"@ || name
            == "platform.machine"@ || name == "implementation_name"@ || name
            == "platform_python_implementation"@ || name == "platform.python_implementation"@,
    ensures
        is_plain_name(name),
        !is_reserved(name),
{
    reveal_strlit("sys_platform");
    reveal_strlit("sys.platform");
    reveal_strlit("platform_system");
    reveal_strlit("os_name");
    reveal_strlit("os.name");
    reveal_strlit("platform_machine");
    reveal_strlit("platform.machine");
    reveal_strlit("implementation_name");
    reveal_strlit("platform_python_implementation");
    reveal_strlit("platform.python_implementation");
    reveal_strlit("and");
    reveal_strlit("or");
    reveal_strlit("in");
    reveal_strlit("not");
    reveal_strlit("extra");
    assert(name.len() > 5);
}

/// Each of the names is another one.
proof fn names_differ()
    ensures
        "sys_platform"@.len() == 12 && "sys.platform"@.len() == 12,
        "platform_system"@.len() == 15,
        "os_name"@.len() == 7 && "os.name"@.len() == 7,
        "platform_machine"@.len() == 16 && "platform.machine"@.len() == 16,
        "implementation_name"@.len() == 19,
        "platform_python_implementation"@.len() == 30 && "platform.python_implementation"@.len()
            == 30,
{
    reveal_strlit("sys_platform");
    reveal_strlit("sys.platform");
    reveal_strlit("platform_system");
    reveal_strlit("os_name");
    reveal_strlit("os.name");
    reveal_strlit("platform_machine");
    reveal_strlit("platform.machine");
    reveal_strlit("implementation_name");
    reveal_strlit("platform_python_implementation");
    reveal_strlit("platform.python_implementation");
}

/// On a platform the variables of markers answer with what the platform reports, by
/// each of their names, and the interpreter is CPython everywhere.
pub proof fn variables_answer(env: EnvModel, value: Seq<char>, extras: Seq<Seq<char>>)
    requires
        !value.contains('\''),
        env.sys_platform.len() > 0,
        env.platform_system.len() > 0,
        env.os_name.len() > 0,
        env.platform_machine.len() > 0,
    ensures
        answers(env, "sys_platform"@, env.sys_platform, value, extras),
        answers(env, "sys.platform"@, env.sys_platform, value, extras),
        answers(env, "platform_system"@, env.platform_system, value, extras),
        answers(env, "os_name"@, env.os_name, value, extras),
        answers(env, "os.name"@, env.os_name, value, extras),
        answers(env, "platform_machine"@, env.platform_machine, value, extras),
        answers(env, "platform.machine"@, env.platform_machine, value, extras),
        answers(env, "implementation_name"@, "cpython"@, value, extras),
        answers(env, "platform_python_implementation"@, "CPython"@, value, extras),
        answers(env, "platform.python_implementation"@, "CPython"@, value, extras),
{
    reveal_strlit("cpython");
    reveal_strlit("CPython");
    names_differ();
    variables_are_names("sys_platform"@);
    variables_are_names("sys.platform"@);
    variables_are_names("platform_system"@);
    variables_are_names("os_name"@);
    variables_are_names("os.name"@);
    variables_are_names("platform_machine"@);
    variables_are_names("platform.machine"@);
    variables_are_names("implementation_name"@);
    variables_are_names("platform_python_implementation"@);
    variables_are_names("platform.python_implementation"@);
    known_answers(env, "sys_platform"@, env.sys_platform, value, extras);
    known_answers(env, "sys.platform"@, env.sys_platform, value, extras);
    known_answers(env, "platform_system"@, env.platform_system, value, extras);
    known_answers(env, "os_name"@, env.os_name, value, extras);
    known_answers(env, "os.name"@, env.os_name, value, extras);
    known_answers(env, "platform_machine"@, env.platform_machine, value, extras);
    known_answers(env, "platform.machine"@, env.platform_machine, value, extras);
    known_answers(env, "implementation_name"@, "cpython"@, value, extras);
    known_answers(env, "platform_python_implementation"@, "CPython"@, value, extras);
    known_answers(env, "platform.python_implementation"@, "CPython"@, value, extras);
}

proof fn system_answers(
    env: EnvModel,
    names: (Seq<char>, Seq<char>, Seq<char>),
    value: Seq<char>,
    extras: Seq<Seq<char>>,
)
    requires
        !value.contains('\''),
        (env.sys_platform, env.platform_system, env.os_name) == names,
        names.0.len() > 0,
        names.1.len() > 0,
        names.2.len() > 0,
    ensures
        answers(env, "sys_platform"@, names.0, value, extras),
        answers(env, "platform_system"@, names.1, value, extras),
        answers(env, "os_name"@, names.2, value, extras),
{
    names_differ();
    variables_are_names("sys_platform"@);
    variables_are_names("platform_system"@);
    variables_are_names("os_name"@);
    known_answers(env, "sys_platform"@, env.sys_platform, value, extras);
    known_answers(env, "platform_system"@, env.platform_system, value, extras);
    known_answers(env, "os_name"@, env.os_name, value, extras);
}

/// On each system, whatever the architecture, a marker on `sys_platform`,
/// `platform_system` or `os_name` is true where it names what Python reports there, and
/// false where it names anything else: `win32`, `Windows` and `nt` on Windows,
/// `darwin`, `Darwin` and `posix` on macOS, `linux`, `Linux` and `posix` on Linux,
/// `freebsd`, `FreeBSD` and `posix` on FreeBSD.
pub proof fn systems_answer(
    os: Seq<char>,
    arch: Seq<char>,
    value: Seq<char>,
    extras: Seq<Seq<char>>,
)
    requires
        !value.contains('\''),
    ensures
        os == "windows"@ ==> {
            let env = markers::target_env(os, arch);
            &&& answers(env, "sys_platform"@, "win32"@, value, extras)
            &&& answers(env, "platform_system"@, "Windows"@, value, extras)
            &&& answers(env, "os_name"@, "nt"@, value, extras)
        },
        os == "macos"@ ==> {
            let env = markers::target_env(os, arch);
            &&& answers(env, "sys_platform"@, "darwin"@, value, extras)
            &&& answers(env, "platform_system"@, "Darwin"@, value, extras)
            &&& answers(env, "os_name"@, "posix"@, value, extras)
        },
        os == "linux"@ ==> {
            let env = markers::target_env(os, arch);
            &&& answers(env, "sys_platform"@, "linux"@, value, extras)
            &&& answers(env, "platform_system"@, "Linux"@, value, extras)
            &&& answers(env, "os_name"@, "posix"@, value, extras)
        },
        os == "freebsd"@ ==> {
            let env = markers::target_env(os, arch);
            &&& answers(env, "sys_platform"@, "freebsd"@, value, extras)
            &&& answers(env, "platform_system"@, "FreeBSD"@, value, extras)
            &&& answers(env, "os_name"@, "posix"@, value, extras)
        },
{
    reveal_strlit("windows");
    reveal_strlit("macos");
    reveal_strlit("linux");
    reveal_strlit("freebsd");
    assert("windows"@[0] == 'w' && "macos"@[0] == 'm' && "linux"@[0] == 'l' && "freebsd"@[0]
        == 'f');
    reveal_strlit("win32");
    reveal_strlit("Windows");
    reveal_strlit("nt");
    reveal_strlit("darwin");
    reveal_strlit("Darwin");
    reveal_strlit("posix");
    reveal_strlit("Linux");
    reveal_strlit("FreeBSD");
    let env = markers::target_env(os, arch);
    if os == "windows"@ {
        system_answers(env, ("win32"@, "Windows"@, "nt"@), value, extras);
    } else if os == "macos"@ {
        system_answers(env, ("darwin"@, "Darwin"@, "posix"@), value, extras);
    } else if os == "linux"@ {
        system_answers(env, ("linux"@, "Linux"@, "posix"@), value, extras);
    } else if os == "freebsd"@ {
        system_answers(env, ("freebsd"@, "FreeBSD"@, "posix"@), value, extras);
    }
}

/// On each platform a marker on `platform_machine` is true where it names what Python
/// reports there, and false where it names anything else: on Windows `AMD64` and
/// `ARM64`, on macOS `x86_64` and `arm64`, elsewhere `x86_64` and `aarch64`.
pub proof fn machines_answer(os: Seq<char>, value: Seq<char>, extras: Seq<Seq<char>>)
    requires
        !value.contains('\''),
    ensures
        os == "windows"@ ==> {
            &&& answers(
                markers::target_env(os, "x86_64"@),
                "platform_machine"@,
                "AMD64"@,
                value,
                extras,
            )
            &&& answers(
                markers::target_env(os, "aarch64"@),
                "platform_machine"@,
                "ARM64"@,
                value,
                extras,
            )
        },
        os == "macos"@ ==> answers(
            markers::target_env(os, "aarch64"@),
            "platform_machine"@,
            "arm64"@,
            value,
            extras,
        ),
        os != "windows"@ ==> answers(
            markers::target_env(os, "x86_64"@),
            "platform_machine"@,
            "x86_64"@,
            value,
            extras,
        ),
        os != "windows"@ && os != "macos"@ ==> answers(
            markers::target_env(os, "aarch64"@),
            "platform_machine"@,
            "aarch64"@,
            value,
            extras,
        ),
{
    reveal_strlit("windows");
    reveal_strlit("macos");
    reveal_strlit("x86_64");
    reveal_strlit("aarch64");
    assert("windows"@[0] == 'w' && "macos"@[0] == 'm');
    assert("x86_64"@[0] == 'x' && "aarch64"@[0] == 'a');
    reveal_strlit("AMD64");
    reveal_strlit("ARM64");
    reveal_strlit("arm64");
    names_differ();
    variables_are_names("platform_machine"@);
    let x = markers::target_env(os, "x86_64"@);
    let a = markers::target_env(os, "aarch64"@);
    known_answers(x, "platform_machine"@, x.platform_machine, value, extras);
    known_answers(a, "platform_machine"@, a.platform_machine, value, extras);
}

/// A comparison of a variable that has no value here decides nothing, and so keeps its
/// dependency: one of another name, such as `python_version`, and each of those that
/// depend on the system on one that is not known. Nor does an operator that orders its
/// sides decide anything.
pub proof fn unknown_is_kept(
    variable: Seq<char>,
    op: Seq<char>,
    value: Seq<char>,
    env: EnvModel,
    extras: Seq<Seq<char>>,
)
    requires
        is_plain_name(variable),
        !is_reserved(variable),
        is_operator(op),
        !value.contains('\''),
        ({
            ||| variable != "sys_platform"@ && variable != "sys.platform"@ && variable
                != "platform_system"@ && variable != "os_name"@ && variable != "os.name"@
                && variable != "platform_machine"@ && variable != "platform.machine"@ && variable
                != "implementation_name"@ && variable != "platform_python_implementation"@
                && variable != "platform.python_implementation"@
            ||| op == "<"@ || op == "<="@ || op == ">"@ || op == ">="@ || op == "~="@
        }),
    ensures
        markers::evaluated(comparing(variable, op, value), env, extras) == Some(None::<bool>),
        markers::evaluated(compared_with(value, op, variable), env, extras) == Some(None::<bool>),
        markers::applies(comparing(variable, op, value), env, extras),
        markers::applies(compared_with(value, op, variable), env, extras),
{
    reveal_strlit("==");
    reveal_strlit("===");
    reveal_strlit("!=");
    reveal_strlit("<");
    reveal_strlit("<=");
    reveal_strlit(">");
    reveal_strlit(">=");
    reveal_strlit("~=");
    reveal_strlit("in");
    reveal_strlit("not in");
    assert("=="@[0] == '=' && "==="@[0] == '=' && "!="@[0] == '!' && "in"@[0] == 'i'
        && "not in"@[0] == 'n');
    assert("<"@[0] == '<' && "<="@[0] == '<' && ">"@[0] == '>' && ">="@[0] == '>' && "~="@[0]
        == '~');
    comparing_is_evaluated(variable, op, value, env, extras);
}

// ── Names of extras ─────────────────────────────────────────────────────────
/// The characters of the names of extras: ASCII letters and digits, and separators.
pub open spec fn is_extra_char(c: char) -> bool {
    text::is_ascii_alnum(c) || c == '-' || c == '_' || c == '.'
}

/// A text that is made of such characters.
pub open spec fn is_extra_name(s: Seq<char>) -> bool {
    forall|i: int| 0 <= i < s.len() ==> is_extra_char(#[trigger] s[i])
}

/// The characters of normal names: small ASCII letters, digits and hyphens.
pub open spec fn is_normal_char(c: char) -> bool {
    'a' <= c <= 'z' || '0' <= c <= '9' || c == '-'
}

/// A text of such characters that does not start with a hyphen and has no two hyphens
/// side by side.
spec fn is_joined(s: Seq<char>) -> bool {
    &&& forall|i: int| 0 <= i < s.len() ==> is_normal_char(#[trigger] s[i])
    &&& s.len() > 0 ==> s[0] != '-'
    &&& forall|i: int| 0 < i < s.len() && s[i - 1] == '-' ==> #[trigger] s[i] != '-'
}

proof fn joined_form(s: Seq<char>)
    requires
        is_extra_name(s),
    ensures
        is_joined(markers::joined_name(s)),
        ({
            let j = markers::joined_name(s);
            j.len() > 0 && j.last() == '-' ==> markers::is_name_sep(s.last())
        }),
    decreases s.len(),
{
    if s.len() > 0 {
        joined_form(s.drop_last());
        let front = markers::joined_name(s.drop_last());
        let c = s.last();
        let j = markers::joined_name(s);
        assert(is_extra_char(c));
        if !markers::is_name_sep(c) {
            let low = text::lower_char(c);
            assert(j =~= front.push(low));
            assert(is_normal_char(low) && low != '-');
        } else if j != front {
            assert(j == front.push('-'));
            assert(s.drop_last().last() == s[s.len() - 2]);
        }
    }
}

/// Names in normal form are joined to themselves.
proof fn joined_is_stable(s: Seq<char>)
    requires
        is_joined(s),
    ensures
        markers::joined_name(s) == s,
    decreases s.len(),
{
    if s.len() > 0 {
        let front = s.drop_last();
        assert(is_joined(front)) by {
            assert forall|i: int| 0 < i < front.len() && front[i - 1] == '-' implies #[trigger] front[i]
                != '-' by {
                assert(s[i] != '-');
            }
            assert forall|i: int| 0 <= i < front.len() implies is_normal_char(
                #[trigger] front[i],
            ) by {
                assert(is_normal_char(s[i]));
            }
        }
        joined_is_stable(front);
        let c = s.last();
        assert(is_normal_char(c));
        if c == '-' {
            assert(s.len() > 1);
            assert(is_normal_char(s[s.len() - 2]));
            assert(s[s.len() - 2] != '-') by {
                assert(s[s.len() - 1] == '-');
            }
        } else {
            assert(text::lower_char(c) == c);
            assert(front + seq![c] =~= s);
        }
        assert(front.push(c) =~= s);
    } else {
        assert(s =~= Seq::<char>::empty());
    }
}

proof fn no_space(s: Seq<char>)
    requires
        is_extra_name(s),
    ensures
        text::trim(s) == s,
{
    if s.len() > 0 {
        assert(is_extra_char(s[0]));
        assert(is_extra_char(s.last()));
    }
}

/// A joined name without the hyphen at its end is one too.
proof fn trimmed_form(s: Seq<char>)
    requires
        is_joined(s),
    ensures
        is_joined(text::trim_end_set(s, "-"@)),
        ({
            let t = text::trim_end_set(s, "-"@);
            t.len() > 0 ==> t.last() != '-'
        }),
    decreases s.len(),
{
    reveal_strlit("-");
    if s.len() > 0 && "-"@.contains(s.last()) {
        let front = s.drop_last();
        assert(is_joined(front)) by {
            assert forall|i: int| 0 < i < front.len() && front[i - 1] == '-' implies #[trigger] front[i]
                != '-' by {
                assert(s[i] != '-');
            }
            assert forall|i: int| 0 <= i < front.len() implies is_normal_char(
                #[trigger] front[i],
            ) by {
                assert(is_normal_char(s[i]));
            }
        }
        trimmed_form(front);
    } else if s.len() > 0 {
        assert("-"@[0] == '-');
        assert("-"@.contains('-'));
    }
}

/// The normal form of the name of an extra is made of small letters, digits and
/// hyphens, with no hyphen at its ends and no two side by side, and it is its own
/// normal form.
pub proof fn normal_extra_form(raw: Seq<char>)
    requires
        is_extra_name(raw),
    ensures
        ({
            let r = markers::normal_extra(raw);
            &&& forall|i: int| 0 <= i < r.len() ==> is_normal_char(#[trigger] r[i])
            &&& forall|i: int| 0 < i < r.len() && r[i - 1] == '-' ==> #[trigger] r[i] != '-'
            &&& r.len() > 0 ==> r[0] != '-' && r.last() != '-'
            &&& markers::normal_extra(r) == r
        }),
{
    no_space(raw);
    joined_form(raw);
    trimmed_form(markers::joined_name(raw));
    let r = markers::normal_extra(raw);
    joined_is_stable(r);
    assert(is_extra_name(r)) by {
        assert forall|i: int| 0 <= i < r.len() implies is_extra_char(#[trigger] r[i]) by {
            assert(is_normal_char(r[i]));
        }
    }
    no_space(r);
    reveal_strlit("-");
    assert(text::trim_end_set(r, "-"@) == r);
}

proof fn joined_ignores_case(a: Seq<char>, b: Seq<char>)
    requires
        is_extra_name(a),
        is_extra_name(b),
        text::ascii_lower(a) == text::ascii_lower(b),
    ensures
        markers::joined_name(a) == markers::joined_name(b),
    decreases a.len(),
{
    let low = text::ascii_lower(a);
    assert(low.len() == a.len() && low.len() == b.len());
    if a.len() > 0 {
        same_class(a, b, a.len() - 1);
        if a.len() > 1 {
            same_class(a, b, a.len() - 2);
        }
        assert(text::ascii_lower(a.drop_last()) =~= low.drop_last());
        assert(text::ascii_lower(b.drop_last()) =~= low.drop_last());
        joined_ignores_case(a.drop_last(), b.drop_last());
    }
}

proof fn same_class(a: Seq<char>, b: Seq<char>, i: int)
    requires
        is_extra_name(a),
        is_extra_name(b),
        text::ascii_lower(a) == text::ascii_lower(b),
        0 <= i < a.len(),
        a.len() == b.len(),
    ensures
        markers::is_name_sep(a[i]) == markers::is_name_sep(b[i]),
        text::lower_char(a[i]) == text::lower_char(b[i]),
{
    assert(text::ascii_lower(a)[i] == text::lower_char(a[i]));
    assert(text::ascii_lower(b)[i] == text::lower_char(b[i]));
    assert(is_extra_char(a[i]));
    assert(is_extra_char(b[i]));
}

/// The case of the letters in the name of an extra does not count.
pub proof fn normal_extra_ignores_case(a: Seq<char>, b: Seq<char>)
    requires
        is_extra_name(a),
        is_extra_name(b),
        text::ascii_lower(a) == text::ascii_lower(b),
    ensures
        markers::normal_extra(a) == markers::normal_extra(b),
{
    no_space(a);
    no_space(b);
    joined_ignores_case(a, b);
}

/// A run of separators.
pub open spec fn is_sep_run(s: Seq<char>) -> bool {
    s.len() > 0 && forall|i: int|
        0 <= i < s.len() ==> #[trigger] s[i] == '-' || s[i] == '_' || s[i] == '.'
}

/// What a name is joined to with a run of separators behind it.
proof fn joined_with_run(front: Seq<char>, run: Seq<char>)
    requires
        is_sep_run(run),
    ensures
        ({
            let j = markers::joined_name(front);
            markers::joined_name(front + run) == if j.len() > 0 && front.len() > 0
                && !markers::is_name_sep(front.last()) {
                j.push('-')
            } else {
                j
            }
        }),
    decreases run.len(),
{
    let all = front + run;
    let last = run.len() - 1;
    assert(all.drop_last() =~= front + run.drop_last());
    assert(all.last() == run[last]);
    if run.len() > 1 {
        assert forall|i: int| 0 <= i < run.drop_last().len() implies markers::is_name_sep(
            #[trigger] run.drop_last()[i],
        ) by {
            assert(run.drop_last()[i] == run[i]);
        }
        joined_with_run(front, run.drop_last());
        assert(all[all.len() - 2] == run[last - 1]);
    } else {
        assert(all.drop_last() =~= front);
        if front.len() > 0 {
            assert(all[all.len() - 2] == front.last());
        } else {
            assert(markers::joined_name(front) =~= Seq::<char>::empty());
        }
    }
}

proof fn joined_behind_run(front: Seq<char>, one: Seq<char>, other: Seq<char>, back: Seq<char>)
    requires
        is_sep_run(one),
        is_sep_run(other),
    ensures
        markers::joined_name(front + one + back) == markers::joined_name(front + other + back),
    decreases back.len(),
{
    let a = front + one + back;
    let b = front + other + back;
    if back.len() == 0 {
        assert(a =~= front + one);
        assert(b =~= front + other);
        joined_with_run(front, one);
        joined_with_run(front, other);
    } else {
        joined_behind_run(front, one, other, back.drop_last());
        assert(a.drop_last() =~= front + one + back.drop_last());
        assert(b.drop_last() =~= front + other + back.drop_last());
        assert(a.last() == back.last() && b.last() == back.last());
        if back.len() > 1 {
            assert(a[a.len() - 2] == back[back.len() - 2]);
            assert(b[b.len() - 2] == back[back.len() - 2]);
        } else {
            assert(a[a.len() - 2] == one.last());
            assert(b[b.len() - 2] == other.last());
            assert(markers::is_name_sep(one[one.len() - 1]));
            assert(markers::is_name_sep(other[other.len() - 1]));
        }
    }
}

/// Any run of separators in the name of an extra may stand for any other.
pub proof fn separators_are_interchangeable(
    front: Seq<char>,
    one: Seq<char>,
    other: Seq<char>,
    back: Seq<char>,
)
    requires
        is_extra_name(front),
        is_extra_name(back),
        is_sep_run(one),
        is_sep_run(other),
    ensures
        markers::normal_extra(front + one + back) == markers::normal_extra(front + other + back),
{
    joined_behind_run(front, one, other, back);
    let a = front + one + back;
    let b = front + other + back;
    assert forall|i: int| 0 <= i < a.len() implies is_extra_char(#[trigger] a[i]) by {
        if i < front.len() {
            assert(a[i] == front[i]);
        } else if i < front.len() + one.len() {
            assert(a[i] == one[i - front.len()]);
        } else {
            assert(a[i] == back[i - front.len() - one.len()]);
        }
    }
    assert forall|i: int| 0 <= i < b.len() implies is_extra_char(#[trigger] b[i]) by {
        if i < front.len() {
            assert(b[i] == front[i]);
        } else if i < front.len() + other.len() {
            assert(b[i] == other[i - front.len()]);
        } else {
            assert(b[i] == back[i - front.len() - other.len()]);
        }
    }
    no_space(a);
    no_space(b);
}

} // verus!
