//! What the text operations of the library mean, over sequences of characters.
//!
//! A text is a `Seq<char>`; the executable counterparts are in [`crate::chars`].
use vstd::prelude::*;

verus! {

/// The characters with the Unicode property `White_Space`.
pub open spec fn is_whitespace(c: char) -> bool {
    ||| '\u{9}' <= c <= '\u{d}'
    ||| c == ' '
    ||| c == '\u{85}'
    ||| c == '\u{a0}'
    ||| c == '\u{1680}'
    ||| '\u{2000}' <= c <= '\u{200a}'
    ||| c == '\u{2028}'
    ||| c == '\u{2029}'
    ||| c == '\u{202f}'
    ||| c == '\u{205f}'
    ||| c == '\u{3000}'
}

/// The ASCII decimal digits.
pub open spec fn is_digit(c: char) -> bool {
    '0' <= c <= '9'
}

/// The ASCII letters and digits.
pub open spec fn is_ascii_alnum(c: char) -> bool {
    ||| is_digit(c)
    ||| 'a' <= c <= 'z'
    ||| 'A' <= c <= 'Z'
}

/// A character with the ASCII capitals mapped to small letters.
pub open spec fn lower_char(c: char) -> char {
    if 'A' <= c <= 'Z' {
        (c as u32 + 32) as char
    } else {
        c
    }
}

/// A text with the ASCII capitals mapped to small letters.
pub open spec fn ascii_lower(s: Seq<char>) -> Seq<char> {
    Seq::new(s.len(), |i: int| lower_char(s[i]))
}

/// A text made of ASCII characters alone.
pub open spec fn is_ascii(s: Seq<char>) -> bool {
    forall|i: int| 0 <= i < s.len() ==> (#[trigger] s[i]) as u32 <= 127
}

/// The pattern `p` stands in `s` at position `i`.
pub open spec fn occurs_at(s: Seq<char>, p: Seq<char>, i: int) -> bool {
    0 <= i && i + p.len() <= s.len() && s.subrange(i, i + p.len()) == p
}

/// The first position at or behind `i` at which `p` stands in `s`.
pub open spec fn find_from(s: Seq<char>, p: Seq<char>, i: int) -> Option<int>
    decreases s.len() + 1 - i,
{
    if i < 0 || i + p.len() > s.len() {
        None
    } else if s.subrange(i, i + p.len()) == p {
        Some(i)
    } else {
        find_from(s, p, i + 1)
    }
}

/// The first position at which `p` stands in `s`.
pub open spec fn find(s: Seq<char>, p: Seq<char>) -> Option<int> {
    find_from(s, p, 0)
}

/// `p` stands somewhere in `s`.
pub open spec fn contains(s: Seq<char>, p: Seq<char>) -> bool {
    find(s, p) is Some
}

/// The last position before `i` whose character is `c`.
pub open spec fn rfind_before(s: Seq<char>, c: char, i: int) -> Option<int>
    decreases i,
{
    if i <= 0 || i > s.len() {
        None
    } else if s[i - 1] == c {
        Some(i - 1)
    } else {
        rfind_before(s, c, i - 1)
    }
}

/// The last position whose character is `c`.
pub open spec fn rfind(s: Seq<char>, c: char) -> Option<int> {
    rfind_before(s, c, s.len() as int)
}

/// The last position not behind `i` at which `p` stands in `s`.
pub open spec fn rfind_text_from(s: Seq<char>, p: Seq<char>, i: int) -> Option<int>
    decreases i + 1,
{
    if i < 0 {
        None
    } else if occurs_at(s, p, i) {
        Some(i)
    } else {
        rfind_text_from(s, p, i - 1)
    }
}

/// The last position at which `p` stands in `s`.
pub open spec fn rfind_text(s: Seq<char>, p: Seq<char>) -> Option<int> {
    rfind_text_from(s, p, s.len() as int)
}

/// The first position at or behind `i` whose character is one of `set`.
pub open spec fn find_any_from(s: Seq<char>, set: Seq<char>, i: int) -> Option<int>
    decreases s.len() - i,
{
    if i < 0 || i >= s.len() {
        None
    } else if set.contains(s[i]) {
        Some(i)
    } else {
        find_any_from(s, set, i + 1)
    }
}

/// The first position whose character is one of `set`.
pub open spec fn find_any(s: Seq<char>, set: Seq<char>) -> Option<int> {
    find_any_from(s, set, 0)
}

/// `s` without the prefix `p`, where it has it.
pub open spec fn strip_prefix(s: Seq<char>, p: Seq<char>) -> Option<Seq<char>> {
    if p.is_prefix_of(s) {
        Some(s.skip(p.len() as int))
    } else {
        None
    }
}

/// `s` without the suffix `p`, where it has it.
pub open spec fn strip_suffix(s: Seq<char>, p: Seq<char>) -> Option<Seq<char>> {
    if p.is_suffix_of(s) {
        Some(s.take(s.len() - p.len()))
    } else {
        None
    }
}

/// What stands before and behind the first `p` in `s`.
pub open spec fn split_once(s: Seq<char>, p: Seq<char>) -> Option<(Seq<char>, Seq<char>)> {
    match find(s, p) {
        Some(i) => Some((s.take(i), s.skip(i + p.len()))),
        None => None,
    }
}

/// What stands before the first `c`, or all of `s` where there is none.
pub open spec fn before(s: Seq<char>, c: char) -> Seq<char> {
    match find(s, seq![c]) {
        Some(i) => s.take(i),
        None => s,
    }
}

/// The pieces of `s` between the separators `c`, empty ones too.
pub open spec fn split(s: Seq<char>, c: char) -> Seq<Seq<char>>
    decreases s.len(),
{
    match find(s, seq![c]) {
        Some(i) => if 0 <= i < s.len() {
            seq![s.take(i)] + split(s.skip(i + 1), c)
        } else {
            seq![s]
        },
        None => seq![s],
    }
}

/// A line without the carriage return at its end.
pub open spec fn strip_cr(s: Seq<char>) -> Seq<char> {
    if s.len() > 0 && s.last() == '\r' {
        s.drop_last()
    } else {
        s
    }
}

/// The lines of a text: each ends at a newline, and a carriage return directly
/// before the newline belongs to the line's end.
pub open spec fn lines(s: Seq<char>) -> Seq<Seq<char>>
    decreases s.len(),
{
    if s.len() == 0 {
        Seq::empty()
    } else {
        match find(s, seq!['\n']) {
            Some(i) => if 0 <= i < s.len() {
                seq![strip_cr(s.take(i))] + lines(s.skip(i + 1))
            } else {
                seq![s]
            },
            None => seq![s],
        }
    }
}

/// The number of leading characters of `s` that are not whitespace.
pub open spec fn leading_word(s: Seq<char>) -> nat
    decreases s.len(),
{
    if s.len() > 0 && !is_whitespace(s[0]) {
        1 + leading_word(s.skip(1))
    } else {
        0
    }
}

/// `s` without the whitespace at its start.
pub open spec fn trim_start(s: Seq<char>) -> Seq<char>
    decreases s.len(),
{
    if s.len() > 0 && is_whitespace(s[0]) {
        trim_start(s.skip(1))
    } else {
        s
    }
}

/// `s` without the whitespace at its end.
pub open spec fn trim_end(s: Seq<char>) -> Seq<char>
    decreases s.len(),
{
    if s.len() > 0 && is_whitespace(s.last()) {
        trim_end(s.drop_last())
    } else {
        s
    }
}

/// `s` without the whitespace at both ends.
pub open spec fn trim(s: Seq<char>) -> Seq<char> {
    trim_end(trim_start(s))
}

/// `s` without the characters of `set` at its start.
pub open spec fn trim_start_set(s: Seq<char>, set: Seq<char>) -> Seq<char>
    decreases s.len(),
{
    if s.len() > 0 && set.contains(s[0]) {
        trim_start_set(s.skip(1), set)
    } else {
        s
    }
}

/// `s` without the characters of `set` at its end.
pub open spec fn trim_end_set(s: Seq<char>, set: Seq<char>) -> Seq<char>
    decreases s.len(),
{
    if s.len() > 0 && set.contains(s.last()) {
        trim_end_set(s.drop_last(), set)
    } else {
        s
    }
}

/// `s` without the characters of `set` at both ends.
pub open spec fn trim_set(s: Seq<char>, set: Seq<char>) -> Seq<char> {
    trim_end_set(trim_start_set(s, set), set)
}

/// `s` without the suffix `p`, as often as it stands there.
pub open spec fn trim_end_text(s: Seq<char>, p: Seq<char>) -> Seq<char>
    decreases s.len(),
{
    if p.len() > 0 && p.is_suffix_of(s) {
        trim_end_text(s.take(s.len() - p.len()), p)
    } else {
        s
    }
}

/// `s` without the prefix `p`, as often as it stands there.
pub open spec fn trim_start_text(s: Seq<char>, p: Seq<char>) -> Seq<char>
    decreases s.len(),
{
    if p.len() > 0 && p.is_prefix_of(s) {
        trim_start_text(s.skip(p.len() as int), p)
    } else {
        s
    }
}

/// The words of `s`: its longest runs of characters that are not whitespace.
pub open spec fn words(s: Seq<char>) -> Seq<Seq<char>>
    decreases s.len(),
{
    let t = trim_start(s);
    let n = leading_word(t);
    if t.len() == 0 || n == 0 || n > t.len() || t.len() > s.len() {
        Seq::empty()
    } else {
        seq![t.take(n as int)] + words(t.skip(n as int))
    }
}

/// `s` with each occurrence of `a` replaced by `b`.
pub open spec fn replace_char(s: Seq<char>, a: char, b: Seq<char>) -> Seq<char>
    decreases s.len(),
{
    if s.len() == 0 {
        s
    } else {
        replace_char(s.drop_last(), a, b) + (if s.last() == a {
            b
        } else {
            seq![s.last()]
        })
    }
}

/// `s` with `b` in place of each `a`, from the start on.
pub open spec fn replace_text(s: Seq<char>, a: Seq<char>, b: Seq<char>) -> Seq<char>
    decreases s.len(),
{
    match find(s, a) {
        Some(i) => if 0 <= i && a.len() > 0 && i + a.len() <= s.len() {
            s.take(i) + b + replace_text(s.skip(i + a.len()), a, b)
        } else {
            s
        },
        None => s,
    }
}

/// The texts of `parts` with `sep` between each two.
pub open spec fn join(parts: Seq<Seq<char>>, sep: Seq<char>) -> Seq<char>
    decreases parts.len(),
{
    if parts.len() == 0 {
        Seq::empty()
    } else if parts.len() == 1 {
        parts[0]
    } else {
        join(parts.drop_last(), sep) + sep + parts.last()
    }
}

/// All characters of `s` are decimal digits.
pub open spec fn all_digits(s: Seq<char>) -> bool {
    forall|i: int| 0 <= i < s.len() ==> is_digit(#[trigger] s[i])
}

/// The number of leading decimal digits.
pub open spec fn leading_digits(s: Seq<char>) -> nat
    decreases s.len(),
{
    if s.len() > 0 && is_digit(s[0]) {
        1 + leading_digits(s.skip(1))
    } else {
        0
    }
}

/// The value of a run of decimal digits.
pub open spec fn value(s: Seq<char>) -> nat
    decreases s.len(),
{
    if s.len() == 0 {
        0
    } else {
        value(s.drop_last()) * 10 + (s.last() as u32 - '0' as u32) as nat
    }
}

/// The number that a run of decimal digits stands for, if it is not over `max`.
pub open spec fn bounded_value(s: Seq<char>, max: nat) -> Option<nat> {
    if s.len() > 0 && all_digits(s) && value(s) <= max {
        Some(value(s))
    } else {
        None
    }
}

/// The unsigned number that `s` stands for: digits, with at most one plus sign
/// before them, and not over `max`.
pub open spec fn parse_unsigned(s: Seq<char>, max: nat) -> Option<nat> {
    if s.len() > 0 && s[0] == '+' {
        bounded_value(s.skip(1), max)
    } else {
        bounded_value(s, max)
    }
}

/// The decimal digit for a number below ten.
pub open spec fn digit_char(n: nat) -> char {
    ('0' as u32 + n) as char
}

/// A number written in decimal.
pub open spec fn decimal(n: nat) -> Seq<char>
    decreases n,
{
    if n < 10 {
        seq![digit_char(n)]
    } else {
        decimal(n / 10).push(digit_char(n % 10))
    }
}

/// `a` comes before `b` in the order of texts: by the first character in which
/// they differ, a proper prefix first.
pub open spec fn less(a: Seq<char>, b: Seq<char>) -> bool
    decreases a.len(),
{
    if b.len() == 0 {
        false
    } else if a.len() == 0 {
        true
    } else if a[0] != b[0] {
        a[0] < b[0]
    } else {
        less(a.skip(1), b.skip(1))
    }
}

/// The views of a list of strings.
pub open spec fn views(v: Seq<String>) -> Seq<Seq<char>> {
    Seq::new(v.len(), |i: int| v[i]@)
}

/// The view of an optional string.
pub open spec fn opt_view(o: Option<String>) -> Option<Seq<char>> {
    match o {
        Some(s) => Some(s@),
        None => None,
    }
}

/// The view of an optional borrowed string.
pub open spec fn opt_str_view(o: Option<&str>) -> Option<Seq<char>> {
    match o {
        Some(s) => Some(s@),
        None => None,
    }
}

/// Of two texts, one comes first or they are the same.
pub proof fn less_total(a: Seq<char>, b: Seq<char>)
    ensures
        less(a, b) || less(b, a) || a == b,
        !(less(a, b) && less(b, a)),
        a == b ==> !less(a, b),
    decreases a.len(),
{
    if a.len() > 0 && b.len() > 0 && a[0] == b[0] {
        less_total(a.skip(1), b.skip(1));
        if a.skip(1) == b.skip(1) {
            assert forall|i: int| 0 <= i < a.len() implies a[i] == b[i] by {
                if i > 0 {
                    assert(a.skip(1)[i - 1] == b.skip(1)[i - 1]);
                }
            }
            assert(a.len() == a.skip(1).len() + 1 && b.len() == b.skip(1).len() + 1);
            assert(a =~= b);
        }
    } else if a.len() == 0 && b.len() == 0 {
        assert(a =~= b);
    }
}

/// The order of texts is transitive.
pub proof fn less_transitive(a: Seq<char>, b: Seq<char>, c: Seq<char>)
    requires
        less(a, b),
        less(b, c),
    ensures
        less(a, c),
    decreases a.len(),
{
    if a.len() > 0 && a[0] == b[0] && b[0] == c[0] {
        less_transitive(a.skip(1), b.skip(1), c.skip(1));
    }
}

// ── Laws ────────────────────────────────────────────────────────────────────
/// The digit of a number below ten is read back.
proof fn digit_chars(n: nat)
    requires
        n < 10,
    ensures
        is_digit(digit_char(n)),
        (digit_char(n) as u32 - '0' as u32) as nat == n,
{
}

/// A number written in decimal is read back.
pub proof fn decimal_is_read(n: nat)
    ensures
        decimal(n).len() > 0,
        all_digits(decimal(n)),
        value(decimal(n)) == n,
        leading_digits(decimal(n)) == decimal(n).len(),
    decreases n,
{
    let d = decimal(n);
    if n < 10 {
        digit_chars(n);
        assert(d.drop_last() =~= Seq::<char>::empty());
        assert(value(Seq::<char>::empty()) == 0);
    } else {
        decimal_is_read(n / 10);
        digit_chars(n % 10);
        assert(d.drop_last() =~= decimal(n / 10));
        assert(all_digits(d)) by {
            assert forall|i: int| 0 <= i < d.len() implies is_digit(#[trigger] d[i]) by {
                if i < d.len() - 1 {
                    assert(d[i] == decimal(n / 10)[i]);
                }
            }
        }
    }
    all_leading(d);
}

/// A text of digits starts with all of them.
proof fn all_leading(s: Seq<char>)
    requires
        all_digits(s),
    ensures
        leading_digits(s) == s.len(),
    decreases s.len(),
{
    if s.len() > 0 {
        assert(is_digit(s[0]));
        all_leading(s.skip(1));
    }
}

} // verus!
