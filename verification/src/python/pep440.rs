//! Versions and version specifiers of Python packages, after PEP 440.
//!
//! A requirement rarely pins one version: it gives a specifier set such as
//! `>=2.10,<3` or `~=1.4`, and the version to install is the highest released
//! one that satisfies it. This module parses versions into ordered components,
//! parses specifier sets, and selects the best of a list of versions.
//!
//! Supported are release segments of any length, epochs (`1!2.3`), pre-releases
//! (`a`, `b`, `rc` and their long spellings), post-releases (`.postN`, `-N`,
//! `revN`), development releases (`.devN`), local versions (`+abc`), the
//! operators `==` `!=` `>=` `<=` `>` `<` `~=` `===`, and prefixes `==X.*`.
use std::cmp::Ordering;

use vstd::prelude::*;

use crate::chars;
use crate::text;

verus! {

/// The kind of a pre-release.
#[derive(Debug, Clone, Copy, PartialEq, Eq, Structural)]
pub enum PreKind {
    Alpha,
    Beta,
    Rc,
}

/// The place of a kind among the pre-releases.
pub open spec fn rank(k: PreKind) -> int {
    match k {
        PreKind::Alpha => 0,
        PreKind::Beta => 1,
        PreKind::Rc => 2,
    }
}

/// A parsed version.
///
/// Versions are compared by [`order`], not field by field: `1.2` and `1.2.0`
/// are equal.
#[derive(Debug)]
pub struct Version {
    pub epoch: u64,
    /// The release segments: `1.2.3` has `[1, 2, 3]`.
    pub release: Vec<u64>,
    /// The pre-release: `rc1` is `(Rc, 1)`.
    pub pre: Option<(PreKind, u64)>,
    pub post: Option<u64>,
    pub dev: Option<u64>,
    /// The local part, in small letters. It takes no part in the order.
    pub local: Option<String>,
}

/// What a version holds.
pub struct VersionModel {
    pub epoch: u64,
    pub release: Seq<u64>,
    pub pre: Option<(PreKind, u64)>,
    pub post: Option<u64>,
    pub dev: Option<u64>,
    pub local: Option<Seq<char>>,
}

impl View for Version {
    type V = VersionModel;

    open spec fn view(&self) -> VersionModel {
        VersionModel {
            epoch: self.epoch,
            release: self.release@,
            pre: self.pre,
            post: self.post,
            dev: self.dev,
            local: text::opt_view(self.local),
        }
    }
}

// ── The grammar ─────────────────────────────────────────────────────────────
/// The text that is parsed: without the space around it, without a leading `v`,
/// in small letters.
pub open spec fn normalized(input: Seq<char>) -> Seq<char> {
    let s = text::trim(input);
    text::ascii_lower(
        if s.len() > 0 && (s[0] == 'v' || s[0] == 'V') {
            s.skip(1)
        } else {
            s
        },
    )
}

/// The public part and the local part, which follows the first `+` and is not
/// empty.
pub open spec fn local_part(s: Seq<char>) -> Option<(Seq<char>, Option<Seq<char>>)> {
    match text::split_once(s, seq!['+']) {
        Some((public, local)) => if local.len() == 0 {
            None
        } else {
            Some((public, Some(local)))
        },
        None => Some((s, None)),
    }
}

/// The epoch, which ends at the first `!`, and what follows it.
pub open spec fn epoch_part(s: Seq<char>) -> Option<(u64, Seq<char>)> {
    match text::split_once(s, seq!['!']) {
        Some((epoch, rest)) => match text::bounded_value(epoch, u64::MAX as nat) {
            Some(n) => Some((n as u64, rest)),
            None => None,
        },
        None => Some((0, s)),
    }
}

/// The number of leading digits and dots.
pub open spec fn leading_release(s: Seq<char>) -> nat
    decreases s.len(),
{
    if s.len() > 0 && (text::is_digit(s[0]) || s[0] == '.') {
        1 + leading_release(s.skip(1))
    } else {
        0
    }
}

/// The text of the release segments: a dot at its end belongs to what follows.
pub open spec fn release_text(s: Seq<char>) -> Seq<char> {
    text::trim_end_set(s.take(leading_release(s) as int), seq!['.'])
}

/// The numbers that some texts stand for, if each of them is a number.
pub open spec fn numbers(parts: Seq<Seq<char>>) -> Option<Seq<u64>> {
    if forall|i: int|
        0 <= i < parts.len() ==> text::bounded_value(#[trigger] parts[i], u64::MAX as nat) is Some {
        Some(
            Seq::new(
                parts.len(),
                |i: int| text::bounded_value(parts[i], u64::MAX as nat)->0 as u64,
            ),
        )
    } else {
        None
    }
}

/// The release segments and what follows them.
pub open spec fn release_part(s: Seq<char>) -> Option<(Seq<u64>, Seq<char>)> {
    let r = release_text(s);
    if r.len() == 0 {
        None
    } else {
        match numbers(text::split(r, '.')) {
            Some(segments) => Some((segments, s.skip(r.len() as int))),
            None => None,
        }
    }
}

/// The characters that may stand between the parts of a version.
pub open spec fn separators() -> Seq<char> {
    seq!['.', '-', '_']
}

/// A text without the separators at its start.
pub open spec fn strip_sep(s: Seq<char>) -> Seq<char> {
    text::trim_start_set(s, separators())
}

/// The number at the start of a text, and what follows its digits. No digits,
/// and digits for a number that does not fit, stand for zero.
pub open spec fn take_number(s: Seq<char>) -> (u64, Seq<char>) {
    let n = text::leading_digits(s) as int;
    match text::bounded_value(s.take(n), u64::MAX as nat) {
        Some(v) => (v as u64, s.skip(n)),
        None => (0, s.skip(n)),
    }
}

/// The number behind a keyword, and what follows it.
pub open spec fn number_after(after: Seq<char>) -> (u64, Seq<char>) {
    take_number(strip_sep(after))
}

/// The spellings of the pre-releases, longer ones before their own prefixes.
pub open spec fn pre_keyword(s: Seq<char>) -> Option<(PreKind, Seq<char>)> {
    if "alpha"@.is_prefix_of(s) {
        Some((PreKind::Alpha, s.skip("alpha"@.len() as int)))
    } else if "beta"@.is_prefix_of(s) {
        Some((PreKind::Beta, s.skip("beta"@.len() as int)))
    } else if "preview"@.is_prefix_of(s) {
        Some((PreKind::Rc, s.skip("preview"@.len() as int)))
    } else if "pre"@.is_prefix_of(s) {
        Some((PreKind::Rc, s.skip("pre"@.len() as int)))
    } else if "rc"@.is_prefix_of(s) {
        Some((PreKind::Rc, s.skip("rc"@.len() as int)))
    } else if "a"@.is_prefix_of(s) {
        Some((PreKind::Alpha, s.skip("a"@.len() as int)))
    } else if "b"@.is_prefix_of(s) {
        Some((PreKind::Beta, s.skip("b"@.len() as int)))
    } else if "c"@.is_prefix_of(s) {
        Some((PreKind::Rc, s.skip("c"@.len() as int)))
    } else {
        None
    }
}

/// The pre-release at the start of a text, and what follows it.
pub open spec fn pre_part(s: Seq<char>) -> (Option<(PreKind, u64)>, Seq<char>) {
    match pre_keyword(strip_sep(s)) {
        Some((kind, after)) => {
            let (n, tail) = number_after(after);
            (Some((kind, n)), tail)
        },
        None => (None, s),
    }
}

/// The spellings of the post-release.
pub open spec fn post_keyword(s: Seq<char>) -> Option<Seq<char>> {
    if "post"@.is_prefix_of(s) {
        Some(s.skip("post"@.len() as int))
    } else if "rev"@.is_prefix_of(s) {
        Some(s.skip("rev"@.len() as int))
    } else if "r"@.is_prefix_of(s) {
        Some(s.skip("r"@.len() as int))
    } else {
        None
    }
}

/// A post-release in the short spelling: a hyphen and a number.
pub open spec fn is_implicit_post(s: Seq<char>) -> bool {
    s.len() >= 2 && s[0] == '-' && text::is_digit(s[1])
}

/// The post-release at the start of a text, and what follows it.
pub open spec fn post_part(s: Seq<char>) -> (Option<u64>, Seq<char>) {
    if is_implicit_post(s) {
        let (n, tail) = take_number(s.skip(1));
        (Some(n), tail)
    } else {
        match post_keyword(strip_sep(s)) {
            Some(after) => {
                let (n, tail) = number_after(after);
                (Some(n), tail)
            },
            None => (None, s),
        }
    }
}

/// The development release at the start of a text, and what follows it.
pub open spec fn dev_part(s: Seq<char>) -> (Option<u64>, Seq<char>) {
    match text::strip_prefix(strip_sep(s), "dev"@) {
        Some(after) => {
            let (n, tail) = number_after(after);
            (Some(n), tail)
        },
        None => (None, s),
    }
}

/// The version that a text stands for, if it is one.
pub open spec fn parse(input: Seq<char>) -> Option<VersionModel> {
    let s = normalized(input);
    if s.len() == 0 {
        None
    } else {
        match local_part(s) {
            None => None,
            Some((public, local)) => match epoch_part(public) {
                None => None,
                Some((epoch, rest)) => match release_part(rest) {
                    None => None,
                    Some((release, suffix)) => {
                        let (pre, behind_pre) = pre_part(suffix);
                        let (post, behind_post) = post_part(behind_pre);
                        let (dev, behind_dev) = dev_part(behind_post);
                        if text::trim_set(behind_dev, separators()).len() == 0 {
                            Some(VersionModel { epoch, release, pre, post, dev, local })
                        } else {
                            None
                        }
                    },
                },
            },
        }
    }
}

// ── The order ───────────────────────────────────────────────────────────────
/// The first difference of two sequences of one length: -1 where the first is
/// smaller there, 1 where it is greater, 0 where there is none.
pub open spec fn lex(a: Seq<int>, b: Seq<int>) -> int
    decreases a.len(),
{
    if a.len() == 0 || b.len() == 0 {
        0
    } else if a[0] < b[0] {
        -1
    } else if a[0] > b[0] {
        1
    } else {
        lex(a.skip(1), b.skip(1))
    }
}

/// The release segments, with zeros up to `n` of them.
pub open spec fn padded(release: Seq<u64>, n: nat) -> Seq<int> {
    Seq::new(
        n,
        |i: int|
            if i < release.len() {
                release[i] as int
            } else {
                0
            },
    )
}

/// The larger of two lengths.
pub open spec fn longer(a: nat, b: nat) -> nat {
    if a < b {
        b
    } else {
        a
    }
}

/// What orders two versions of one release.
///
/// A development release without a pre- or post-release stands below the
/// pre-releases, a final release above them; a post-release stands above the
/// release it follows; a development release stands below what it leads to.
pub open spec fn phase_key(v: VersionModel) -> Seq<int> {
    let pre = match v.pre {
        Some((k, n)) => seq![0int, rank(k), n as int],
        None => if v.dev is Some && v.post is None {
            seq![-1int, 0, 0]
        } else {
            seq![1int, 0, 0]
        },
    };
    let post = match v.post {
        Some(n) => seq![1int, n as int],
        None => seq![0int, 0],
    };
    let dev = match v.dev {
        Some(n) => seq![0int, n as int],
        None => seq![1int, 0],
    };
    pre + post + dev
}

/// The order of two versions: -1, 0 or 1 as the first is below, equal to or
/// above the second.
pub open spec fn order(a: VersionModel, b: VersionModel) -> int {
    if a.epoch < b.epoch {
        -1
    } else if a.epoch > b.epoch {
        1
    } else {
        let n = longer(a.release.len(), b.release.len());
        let by_release = lex(padded(a.release, n), padded(b.release, n));
        if by_release != 0 {
            by_release
        } else {
            lex(phase_key(a), phase_key(b))
        }
    }
}

/// A pre-release or a development release.
pub open spec fn is_pre(v: VersionModel) -> bool {
    v.pre is Some || v.dev is Some
}

// ── Parsing ─────────────────────────────────────────────────────────────────
/// The number of leading digits and dots.
fn count_release(s: &[char]) -> (n: usize)
    ensures
        n == leading_release(s@),
        n <= s@.len(),
{
    let mut i: usize = 0;
    assert(s@.skip(0) =~= s@);
    while i < s.len() && (chars::is_digit(s[i]) || s[i] == '.')
        invariant
            i <= s.len(),
            leading_release(s@) == i + leading_release(s@.skip(i as int)),
        decreases s.len() - i,
    {
        assert(s@.skip(i as int).skip(1) =~= s@.skip(i + 1));
        i = i + 1;
    }
    i
}

fn parse_numbers(parts: &Vec<&[char]>) -> (r: Option<Vec<u64>>)
    ensures
        match r {
            Some(v) => numbers(chars::slice_views(parts@)) == Some(v@),
            None => numbers(chars::slice_views(parts@)) is None,
        },
{
    let mut out: Vec<u64> = Vec::new();
    let mut i: usize = 0;
    let ghost texts = chars::slice_views(parts@);
    while i < parts.len()
        invariant
            i <= parts.len(),
            out@.len() == i,
            texts == chars::slice_views(parts@),
            forall|k: int|
                0 <= k < i ==> text::bounded_value(#[trigger] texts[k], u64::MAX as nat) == Some(
                    out@[k] as nat,
                ),
        decreases parts.len() - i,
    {
        assert(texts[i as int] == parts@[i as int]@);
        match chars::bounded_value(parts[i], u64::MAX) {
            Some(n) => out.push(n),
            None => {
                return None;
            },
        }
        i = i + 1;
    }
    assert(numbers(texts)->0 =~= out@);
    Some(out)
}

/// The separators, as a set of characters.
fn separator_set() -> (r: &'static str)
    ensures
        r@ == separators(),
{
    proof {
        reveal_strlit(".-_");
        assert(".-_"@ =~= separators());
    }
    ".-_"
}

fn skip_sep(s: &[char]) -> (r: &[char])
    ensures
        r@ == strip_sep(s@),
{
    chars::trim_start_set(s, separator_set())
}

fn parse_number(s: &[char]) -> (r: (u64, &[char]))
    ensures
        (r.0, r.1@) == take_number(s@),
{
    let n: usize = chars::leading_digits(s);
    let value: u64 = match chars::bounded_value(chars::take(s, n), u64::MAX) {
        Some(v) => v,
        None => 0,
    };
    (value, chars::skip(s, n))
}

fn parse_pre_keyword(s: &[char]) -> (r: Option<(PreKind, &[char])>)
    ensures
        match r {
            Some(t) => pre_keyword(s@) == Some((t.0, t.1@)),
            None => pre_keyword(s@) is None,
        },
{
    if let Some(after) = chars::strip_prefix(s, "alpha") {
        return Some((PreKind::Alpha, after));
    }
    if let Some(after) = chars::strip_prefix(s, "beta") {
        return Some((PreKind::Beta, after));
    }
    if let Some(after) = chars::strip_prefix(s, "preview") {
        return Some((PreKind::Rc, after));
    }
    if let Some(after) = chars::strip_prefix(s, "pre") {
        return Some((PreKind::Rc, after));
    }
    if let Some(after) = chars::strip_prefix(s, "rc") {
        return Some((PreKind::Rc, after));
    }
    if let Some(after) = chars::strip_prefix(s, "a") {
        return Some((PreKind::Alpha, after));
    }
    if let Some(after) = chars::strip_prefix(s, "b") {
        return Some((PreKind::Beta, after));
    }
    if let Some(after) = chars::strip_prefix(s, "c") {
        return Some((PreKind::Rc, after));
    }
    None
}

fn parse_pre(s: &[char]) -> (r: (Option<(PreKind, u64)>, &[char]))
    ensures
        (r.0, r.1@) == pre_part(s@),
{
    match parse_pre_keyword(skip_sep(s)) {
        Some((kind, after)) => {
            let (n, tail) = parse_number(skip_sep(after));
            (Some((kind, n)), tail)
        },
        None => (None, s),
    }
}

fn parse_post_keyword(s: &[char]) -> (r: Option<&[char]>)
    ensures
        match r {
            Some(t) => post_keyword(s@) == Some(t@),
            None => post_keyword(s@) is None,
        },
{
    if let Some(after) = chars::strip_prefix(s, "post") {
        return Some(after);
    }
    if let Some(after) = chars::strip_prefix(s, "rev") {
        return Some(after);
    }
    if let Some(after) = chars::strip_prefix(s, "r") {
        return Some(after);
    }
    None
}

fn parse_post(s: &[char]) -> (r: (Option<u64>, &[char]))
    ensures
        (r.0, r.1@) == post_part(s@),
{
    if s.len() >= 2 && s[0] == '-' && chars::is_digit(s[1]) {
        let (n, tail) = parse_number(chars::skip(s, 1));
        return (Some(n), tail);
    }
    match parse_post_keyword(skip_sep(s)) {
        Some(after) => {
            let (n, tail) = parse_number(skip_sep(after));
            (Some(n), tail)
        },
        None => (None, s),
    }
}

fn parse_dev(s: &[char]) -> (r: (Option<u64>, &[char]))
    ensures
        (r.0, r.1@) == dev_part(s@),
{
    match chars::strip_prefix(skip_sep(s), "dev") {
        Some(after) => {
            let (n, tail) = parse_number(skip_sep(after));
            (Some(n), tail)
        },
        None => (None, s),
    }
}

fn parse_local<'a>(s: &'a [char]) -> (r: Option<(&'a [char], Option<&'a [char]>)>)
    ensures
        match r {
            Some(t) => local_part(s@) == Some(
                (
                    t.0@,
                    match t.1 {
                        Some(l) => Some(l@),
                        None => None,
                    },
                ),
            ),
            None => local_part(s@) is None,
        },
{
    match chars::find_char(s, '+') {
        Some(i) => {
            let local = chars::skip(s, i + 1);
            if local.len() == 0 {
                None
            } else {
                Some((chars::take(s, i), Some(local)))
            }
        },
        None => Some((s, None)),
    }
}

fn parse_epoch<'a>(s: &'a [char]) -> (r: Option<(u64, &'a [char])>)
    ensures
        match r {
            Some(t) => epoch_part(s@) == Some((t.0, t.1@)),
            None => epoch_part(s@) is None,
        },
{
    match chars::find_char(s, '!') {
        Some(i) => match chars::bounded_value(chars::take(s, i), u64::MAX) {
            Some(n) => Some((n, chars::skip(s, i + 1))),
            None => None,
        },
        None => Some((0, s)),
    }
}

fn parse_release<'a>(s: &'a [char]) -> (r: Option<(Vec<u64>, &'a [char])>)
    ensures
        match r {
            Some(t) => release_part(s@) == Some((t.0@, t.1@)),
            None => release_part(s@) is None,
        },
{
    let n: usize = count_release(s);
    let digits = chars::take(s, n);
    proof {
        reveal_strlit(".");
        assert("."@ =~= seq!['.']);
        trim_end_set_len(digits@, seq!['.']);
    }
    let release = chars::trim_end_set(digits, ".");
    if release.len() == 0 {
        return None;
    }
    let parts = chars::split(release, '.');
    match parse_numbers(&parts) {
        Some(segments) => Some((segments, chars::skip(s, release.len()))),
        None => None,
    }
}

/// Trimming makes no text longer.
proof fn trim_end_set_len(s: Seq<char>, set: Seq<char>)
    ensures
        text::trim_end_set(s, set).len() <= s.len(),
    decreases s.len(),
{
    if s.len() > 0 && set.contains(s.last()) {
        trim_end_set_len(s.drop_last(), set);
    }
}

impl Version {
    /// The version that `input` stands for, if it is one.
    pub fn parse(input: &str) -> (r: Option<Version>)
        ensures
            match r {
                Some(v) => self::parse(input@) == Some(v@),
                None => self::parse(input@) is None,
            },
    {
        let whole = chars::of(input);
        let mut s: &[char] = chars::trim(&whole);
        if s.len() > 0 && (s[0] == 'v' || s[0] == 'V') {
            s = chars::skip(s, 1);
        }
        let lower = chars::ascii_lower(s);
        if lower.len() == 0 {
            return None;
        }
        let (public, local) = match parse_local(&lower) {
            Some(t) => t,
            None => {
                return None;
            },
        };
        let (epoch, rest) = match parse_epoch(public) {
            Some(t) => t,
            None => {
                return None;
            },
        };
        let (release, suffix) = match parse_release(rest) {
            Some(t) => t,
            None => {
                return None;
            },
        };
        let (pre, behind_pre) = parse_pre(suffix);
        let (post, behind_post) = parse_post(behind_pre);
        let (dev, behind_dev) = parse_dev(behind_post);
        if chars::trim_set(behind_dev, separator_set()).len() != 0 {
            return None;
        }
        let local: Option<String> = match local {
            Some(l) => Some(chars::to_string(l)),
            None => None,
        };
        Some(Version { epoch, release, pre, post, dev, local })
    }

    /// Is this a pre-release or a development release?
    pub fn is_prerelease(&self) -> (r: bool)
        ensures
            r == is_pre(self@),
    {
        self.pre.is_some() || self.dev.is_some()
    }
}

// ── Comparing ───────────────────────────────────────────────────────────────
/// Machine integers as integers.
pub open spec fn ints(s: Seq<i128>) -> Seq<int> {
    Seq::new(s.len(), |i: int| s[i] as int)
}

/// The sign of the first difference of two lists of one length.
fn lex_sign(a: &Vec<i128>, b: &Vec<i128>) -> (r: i8)
    requires
        a@.len() == b@.len(),
    ensures
        r == lex(ints(a@), ints(b@)),
{
    let mut i: usize = 0;
    let ghost x = ints(a@);
    let ghost y = ints(b@);
    assert(x.skip(0) =~= x);
    assert(y.skip(0) =~= y);
    while i < a.len()
        invariant
            i <= a.len(),
            a@.len() == b@.len(),
            x == ints(a@),
            y == ints(b@),
            lex(x, y) == lex(x.skip(i as int), y.skip(i as int)),
        decreases a.len() - i,
    {
        assert(x.skip(i as int)[0] == a@[i as int]);
        assert(y.skip(i as int)[0] == b@[i as int]);
        if a[i] < b[i] {
            return -1;
        }
        if a[i] > b[i] {
            return 1;
        }
        assert(x.skip(i as int).skip(1) =~= x.skip(i + 1));
        assert(y.skip(i as int).skip(1) =~= y.skip(i + 1));
        i = i + 1;
    }
    0
}

impl Version {
    /// The release segments with zeros up to `n` of them.
    fn padded_release(&self, n: usize) -> (r: Vec<i128>)
        ensures
            ints(r@) == padded(self.release@, n as nat),
            r@.len() == n,
    {
        let mut out: Vec<i128> = Vec::new();
        let mut i: usize = 0;
        while i < n
            invariant
                i <= n,
                out@.len() == i,
                forall|k: int|
                    0 <= k < i ==> (#[trigger] out@[k]) as int == (if k < self.release@.len() {
                        self.release@[k] as int
                    } else {
                        0
                    }),
            decreases n - i,
        {
            if i < self.release.len() {
                out.push(self.release[i] as i128);
            } else {
                out.push(0);
            }
            i = i + 1;
        }
        assert(ints(out@) =~= padded(self.release@, n as nat));
        out
    }

    /// What orders two versions of one release.
    fn phase_values(&self) -> (r: Vec<i128>)
        ensures
            ints(r@) == phase_key(self@),
            r@.len() == 7,
    {
        let mut out: Vec<i128> = Vec::new();
        match self.pre {
            Some((k, n)) => {
                out.push(0);
                out.push(
                    match k {
                        PreKind::Alpha => 0,
                        PreKind::Beta => 1,
                        PreKind::Rc => 2,
                    },
                );
                out.push(n as i128);
            },
            None => {
                if self.dev.is_some() && self.post.is_none() {
                    out.push(-1);
                } else {
                    out.push(1);
                }
                out.push(0);
                out.push(0);
            },
        }
        match self.post {
            Some(n) => {
                out.push(1);
                out.push(n as i128);
            },
            None => {
                out.push(0);
                out.push(0);
            },
        }
        match self.dev {
            Some(n) => {
                out.push(0);
                out.push(n as i128);
            },
            None => {
                out.push(1);
                out.push(0);
            },
        }
        assert(ints(out@) =~= phase_key(self@));
        out
    }

    /// -1, 0 or 1 as this version is below, equal to or above `other`.
    fn sign(&self, other: &Version) -> (r: i8)
        ensures
            r == order(self@, other@),
    {
        if self.epoch < other.epoch {
            return -1;
        }
        if self.epoch > other.epoch {
            return 1;
        }
        let n: usize = if self.release.len() < other.release.len() {
            other.release.len()
        } else {
            self.release.len()
        };
        let by_release: i8 = lex_sign(&self.padded_release(n), &other.padded_release(n));
        if by_release != 0 {
            return by_release;
        }
        lex_sign(&self.phase_values(), &other.phase_values())
    }
}

impl PartialEq for Version {
    /// Versions are equal where neither is below the other.
    fn eq(&self, other: &Version) -> (r: bool) {
        self.sign(other) == 0
    }
}

impl vstd::std_specs::cmp::PartialEqSpecImpl for Version {
    open spec fn obeys_eq_spec() -> bool {
        true
    }

    open spec fn eq_spec(&self, other: &Version) -> bool {
        order(self@, other@) == 0
    }
}

impl PartialOrd for Version {
    fn partial_cmp(&self, other: &Version) -> (r: Option<Ordering>) {
        let sign: i8 = self.sign(other);
        if sign < 0 {
            Some(Ordering::Less)
        } else if sign > 0 {
            Some(Ordering::Greater)
        } else {
            Some(Ordering::Equal)
        }
    }
}

impl vstd::std_specs::cmp::PartialOrdSpecImpl for Version {
    open spec fn obeys_partial_cmp_spec() -> bool {
        true
    }

    open spec fn partial_cmp_spec(&self, other: &Version) -> Option<Ordering> {
        if order(self@, other@) < 0 {
            Some(Ordering::Less)
        } else if order(self@, other@) > 0 {
            Some(Ordering::Greater)
        } else {
            Some(Ordering::Equal)
        }
    }
}

impl Clone for Version {
    fn clone(&self) -> (r: Version)
        ensures
            r@ == self@,
    {
        let mut release: Vec<u64> = Vec::new();
        let mut i: usize = 0;
        while i < self.release.len()
            invariant
                i <= self.release.len(),
                release@ == self.release@.take(i as int),
            decreases self.release.len() - i,
        {
            release.push(self.release[i]);
            i = i + 1;
            assert(self.release@.take(i as int) =~= self.release@.take(i - 1).push(
                self.release@[i - 1],
            ));
        }
        assert(release@ =~= self.release@);
        let local: Option<String> = match &self.local {
            Some(l) => Some(l.clone()),
            None => None,
        };
        Version {
            epoch: self.epoch,
            release,
            pre: self.pre,
            post: self.post,
            dev: self.dev,
            local,
        }
    }
}

// ── Specifiers ──────────────────────────────────────────────────────────────
/// A comparison operator.
#[derive(Debug, Clone, Copy, PartialEq, Eq, Structural)]
pub enum Op {
    /// `==`
    Eq,
    /// `==X.*`
    EqStar,
    /// `!=`
    Ne,
    /// `!=X.*`
    NeStar,
    /// `>=`
    Ge,
    /// `<=`
    Le,
    /// `>`
    Gt,
    /// `<`
    Lt,
    /// `~=`
    Compatible,
    /// `===`
    Arbitrary,
}

/// An operator with its version, such as `>=2.10`.
#[derive(Debug)]
pub struct Clause {
    pub op: Op,
    /// The version as it is written.
    pub raw: String,
    /// The version, which `===` does without.
    pub ver: Option<Version>,
}

/// What a clause holds.
pub struct ClauseModel {
    pub op: Op,
    pub raw: Seq<char>,
    pub ver: Option<VersionModel>,
}

impl View for Clause {
    type V = ClauseModel;

    open spec fn view(&self) -> ClauseModel {
        ClauseModel {
            op: self.op,
            raw: self.raw@,
            ver: match self.ver {
                Some(v) => Some(v@),
                None => None,
            },
        }
    }
}

/// The operator at the start of a clause, and what follows it.
pub open spec fn operator(part: Seq<char>) -> Option<(Op, Seq<char>)> {
    if "==="@.is_prefix_of(part) {
        Some((Op::Arbitrary, part.skip("==="@.len() as int)))
    } else if "=="@.is_prefix_of(part) {
        Some((Op::Eq, part.skip("=="@.len() as int)))
    } else if "!="@.is_prefix_of(part) {
        Some((Op::Ne, part.skip("!="@.len() as int)))
    } else if ">="@.is_prefix_of(part) {
        Some((Op::Ge, part.skip(">="@.len() as int)))
    } else if "<="@.is_prefix_of(part) {
        Some((Op::Le, part.skip("<="@.len() as int)))
    } else if "~="@.is_prefix_of(part) {
        Some((Op::Compatible, part.skip("~="@.len() as int)))
    } else if ">"@.is_prefix_of(part) {
        Some((Op::Gt, part.skip(">"@.len() as int)))
    } else if "<"@.is_prefix_of(part) {
        Some((Op::Lt, part.skip("<"@.len() as int)))
    } else {
        None
    }
}

/// The clause that an operator and the version text behind it stand for. A
/// trailing `.*` asks for a prefix, and only `==` and `!=` take one; `===` takes
/// any text.
pub open spec fn clause_with(op: Op, raw: Seq<char>) -> Option<ClauseModel> {
    if raw.len() == 0 {
        None
    } else if ".*"@.is_suffix_of(raw) {
        match parse(raw.take(raw.len() - ".*"@.len())) {
            None => None,
            Some(v) => match op {
                Op::Eq => Some(ClauseModel { op: Op::EqStar, raw, ver: Some(v) }),
                Op::Ne => Some(ClauseModel { op: Op::NeStar, raw, ver: Some(v) }),
                _ => None,
            },
        }
    } else if op == Op::Arbitrary {
        Some(ClauseModel { op, raw, ver: None })
    } else {
        match parse(raw) {
            Some(v) => Some(ClauseModel { op, raw, ver: Some(v) }),
            None => None,
        }
    }
}

/// The clause that a text stands for, if it is one.
pub open spec fn clause(part: Seq<char>) -> Option<ClauseModel> {
    match operator(part) {
        Some((op, rest)) => clause_with(op, text::trim(rest)),
        None => None,
    }
}

/// The clauses among some texts, in their order.
pub open spec fn clauses_among(parts: Seq<Seq<char>>) -> Seq<ClauseModel>
    decreases parts.len(),
{
    if parts.len() == 0 {
        Seq::empty()
    } else {
        let first = clauses_among(parts.drop_last());
        match clause(text::trim(parts.last())) {
            Some(c) => first.push(c),
            None => first,
        }
    }
}

/// The clauses of a specifier set: those of its parts between commas that are
/// clauses.
pub open spec fn clauses(input: Seq<char>) -> Seq<ClauseModel> {
    clauses_among(text::split(input, ','))
}

/// The release of `v` starts with the segments `prefix`, in the epoch `epoch`.
pub open spec fn has_prefix(v: VersionModel, epoch: u64, prefix: Seq<u64>) -> bool {
    &&& v.epoch == epoch
    &&& forall|i: int|
        0 <= i < prefix.len() ==> (if i < v.release.len() {
            v.release[i]
        } else {
            0
        }) == #[trigger] prefix[i]
}

/// The version `v` satisfies the clause `c`.
pub open spec fn clause_matches(c: ClauseModel, v: VersionModel) -> bool {
    match c.ver {
        None => c.op == Op::Arbitrary && (parse(c.raw) matches Some(t) && order(t, v) == 0),
        Some(t) => match c.op {
            Op::Eq => order(v, t) == 0,
            Op::Ne => order(v, t) != 0,
            Op::EqStar => has_prefix(v, t.epoch, t.release),
            Op::NeStar => !has_prefix(v, t.epoch, t.release),
            Op::Ge => order(v, t) >= 0,
            Op::Le => order(v, t) <= 0,
            Op::Gt => order(v, t) > 0,
            Op::Lt => order(v, t) < 0,
            Op::Arbitrary => parse(c.raw) matches Some(u) && order(u, v) == 0,
            Op::Compatible => {
                &&& order(v, t) >= 0
                &&& t.release.len() >= 2 ==> has_prefix(v, t.epoch, t.release.drop_last())
            },
        },
    }
}

/// The version `v` satisfies each of the clauses.
pub open spec fn satisfies(cs: Seq<ClauseModel>, v: VersionModel) -> bool {
    forall|i: int| 0 <= i < cs.len() ==> clause_matches(#[trigger] cs[i], v)
}

/// Clauses that a version must satisfy together. A set without clauses is
/// satisfied by every version.
#[derive(Debug)]
pub struct SpecifierSet {
    pub clauses: Vec<Clause>,
}

impl View for SpecifierSet {
    type V = Seq<ClauseModel>;

    open spec fn view(&self) -> Seq<ClauseModel> {
        Seq::new(self.clauses@.len(), |i: int| self.clauses@[i]@)
    }
}

impl Default for SpecifierSet {
    fn default() -> (r: SpecifierSet)
        ensures
            r@ == Seq::<ClauseModel>::empty(),
    {
        let r = SpecifierSet { clauses: Vec::new() };
        assert(r@ =~= Seq::<ClauseModel>::empty());
        r
    }
}

impl Clone for Clause {
    fn clone(&self) -> (r: Clause)
        ensures
            r@ == self@,
    {
        let ver: Option<Version> = match &self.ver {
            Some(v) => Some(v.clone()),
            None => None,
        };
        Clause { op: self.op, raw: self.raw.clone(), ver }
    }
}

impl Clone for SpecifierSet {
    fn clone(&self) -> (r: SpecifierSet)
        ensures
            r@ == self@,
    {
        let mut r = SpecifierSet { clauses: Vec::new() };
        r.merge(self);
        assert(r@ =~= self@);
        r
    }
}

fn parse_operator(part: &[char]) -> (r: Option<(Op, &[char])>)
    ensures
        match r {
            Some(t) => operator(part@) == Some((t.0, t.1@)),
            None => operator(part@) is None,
        },
{
    if let Some(rest) = chars::strip_prefix(part, "===") {
        return Some((Op::Arbitrary, rest));
    }
    if let Some(rest) = chars::strip_prefix(part, "==") {
        return Some((Op::Eq, rest));
    }
    if let Some(rest) = chars::strip_prefix(part, "!=") {
        return Some((Op::Ne, rest));
    }
    if let Some(rest) = chars::strip_prefix(part, ">=") {
        return Some((Op::Ge, rest));
    }
    if let Some(rest) = chars::strip_prefix(part, "<=") {
        return Some((Op::Le, rest));
    }
    if let Some(rest) = chars::strip_prefix(part, "~=") {
        return Some((Op::Compatible, rest));
    }
    if let Some(rest) = chars::strip_prefix(part, ">") {
        return Some((Op::Gt, rest));
    }
    if let Some(rest) = chars::strip_prefix(part, "<") {
        return Some((Op::Lt, rest));
    }
    None
}

/// The clause that a text such as `>=2.10` or `==1.2.*` stands for.
fn parse_clause(part: &[char]) -> (r: Option<Clause>)
    ensures
        match r {
            Some(c) => clause(part@) == Some(c@),
            None => clause(part@) is None,
        },
{
    let (op, rest) = match parse_operator(part) {
        Some(t) => t,
        None => {
            return None;
        },
    };
    let raw = chars::trim(rest);
    if raw.len() == 0 {
        return None;
    }
    if let Some(base) = chars::strip_suffix(raw, ".*") {
        let base = chars::to_string(base);
        let ver = match Version::parse(&base) {
            Some(v) => v,
            None => {
                return None;
            },
        };
        let star = match op {
            Op::Eq => Op::EqStar,
            Op::Ne => Op::NeStar,
            _ => {
                return None;
            },
        };
        return Some(Clause { op: star, raw: chars::to_string(raw), ver: Some(ver) });
    }
    let raw = chars::to_string(raw);
    if op == Op::Arbitrary {
        return Some(Clause { op, raw, ver: None });
    }
    match Version::parse(&raw) {
        Some(v) => Some(Clause { op, raw, ver: Some(v) }),
        None => None,
    }
}

/// Does the release of `v` start with the first `n` segments of `t`, in the
/// epoch of `t`?
fn prefix_matches(v: &Version, t: &Version, n: usize) -> (r: bool)
    requires
        n <= t.release@.len(),
    ensures
        r == has_prefix(v@, t.epoch, t.release@.take(n as int)),
{
    if v.epoch != t.epoch {
        return false;
    }
    let mut i: usize = 0;
    let ghost prefix = t.release@.take(n as int);
    while i < n
        invariant
            i <= n <= t.release@.len(),
            prefix == t.release@.take(n as int),
            v.epoch == t.epoch,
            forall|k: int|
                0 <= k < i ==> (if k < v.release@.len() {
                    v.release@[k]
                } else {
                    0
                }) == #[trigger] prefix[k],
        decreases n - i,
    {
        let at: u64 = if i < v.release.len() {
            v.release[i]
        } else {
            0
        };
        if at != t.release[i] {
            assert(prefix[i as int] == t.release@[i as int]);
            return false;
        }
        i = i + 1;
    }
    true
}

/// Does the version satisfy the clause?
fn check_clause(c: &Clause, v: &Version) -> (r: bool)
    ensures
        r == clause_matches(c@, v@),
{
    match &c.ver {
        None => c.op == Op::Arbitrary && raw_equals(&c.raw, v),
        Some(t) => match c.op {
            Op::Eq => v.sign(t) == 0,
            Op::Ne => v.sign(t) != 0,
            Op::EqStar => {
                assert(t.release@.take(t.release@.len() as int) =~= t.release@);
                prefix_matches(v, t, t.release.len())
            },
            Op::NeStar => {
                assert(t.release@.take(t.release@.len() as int) =~= t.release@);
                !prefix_matches(v, t, t.release.len())
            },
            Op::Ge => v.sign(t) >= 0,
            Op::Le => v.sign(t) <= 0,
            Op::Gt => v.sign(t) > 0,
            Op::Lt => v.sign(t) < 0,
            Op::Arbitrary => raw_equals(&c.raw, v),
            Op::Compatible => {
                if v.sign(t) < 0 {
                    false
                } else if t.release.len() < 2 {
                    true
                } else {
                    assert(t.release@.take(t.release@.len() - 1) =~= t.release@.drop_last());
                    prefix_matches(v, t, t.release.len() - 1)
                }
            },
        },
    }
}

/// Does the text stand for a version equal to `v`?
fn raw_equals(raw: &String, v: &Version) -> (r: bool)
    ensures
        r == (parse(raw@) matches Some(t) && order(t, v@) == 0),
{
    match Version::parse(raw) {
        Some(t) => t.sign(v) == 0,
        None => false,
    }
}

impl SpecifierSet {
    /// The set that a text such as `>=2.10,<3` stands for. Parts that are no
    /// clause are left out, so a text without one gives the set that every
    /// version satisfies.
    pub fn parse(input: &str) -> (r: SpecifierSet)
        ensures
            r@ == clauses(input@),
    {
        let whole = chars::of(input);
        let parts = chars::split(&whole, ',');
        let mut set = SpecifierSet { clauses: Vec::new() };
        let mut i: usize = 0;
        let ghost texts = chars::slice_views(parts@);
        assert(set@ =~= clauses_among(texts.take(0)));
        while i < parts.len()
            invariant
                i <= parts.len(),
                texts == chars::slice_views(parts@),
                set@ == clauses_among(texts.take(i as int)),
            decreases parts.len() - i,
        {
            let ghost before = set@;
            proof {
                assert(texts.take(i + 1).drop_last() =~= texts.take(i as int));
                assert(texts.take(i + 1).last() == parts@[i as int]@);
            }
            if let Some(c) = parse_clause(chars::trim(parts[i])) {
                set.clauses.push(c);
                assert(set@ =~= before.push(c@));
            }
            i = i + 1;
        }
        assert(texts.take(texts.len() as int) =~= texts);
        set
    }

    /// Is every version accepted, for want of clauses?
    pub fn is_empty(&self) -> (r: bool)
        ensures
            r == (self@.len() == 0),
    {
        self.clauses.len() == 0
    }

    /// The version text of a set that is one exact pin, `==X.Y.Z`.
    pub fn exact_pin(&self) -> (r: Option<String>)
        ensures
            match r {
                Some(s) => self@.len() == 1 && self@[0].op == Op::Eq && s@ == self@[0].raw,
                None => !(self@.len() == 1 && self@[0].op == Op::Eq),
            },
    {
        if self.clauses.len() == 1 && self.clauses[0].op == Op::Eq {
            Some(self.clauses[0].raw.clone())
        } else {
            None
        }
    }

    /// Does the version satisfy every clause?
    pub fn matches(&self, version: &Version) -> (r: bool)
        ensures
            r == satisfies(self@, version@),
    {
        let mut i: usize = 0;
        while i < self.clauses.len()
            invariant
                i <= self.clauses.len(),
                forall|k: int| 0 <= k < i ==> clause_matches(#[trigger] self@[k], version@),
            decreases self.clauses.len() - i,
        {
            if !check_clause(&self.clauses[i], version) {
                assert(!clause_matches(self@[i as int], version@));
                return false;
            }
            assert(clause_matches(self@[i as int], version@));
            i = i + 1;
        }
        true
    }

    /// Adds the clauses of another set, so that a version must satisfy both.
    pub fn merge(&mut self, other: &SpecifierSet)
        ensures
            final(self)@ == old(self)@ + other@,
            forall|v: VersionModel| #[trigger]
                satisfies(final(self)@, v) == (satisfies(old(self)@, v) && satisfies(other@, v)),
    {
        let ghost before = self@;
        let mut i: usize = 0;
        assert(before + other@.take(0) =~= before);
        while i < other.clauses.len()
            invariant
                i <= other.clauses.len(),
                self@ == before + other@.take(i as int),
            decreases other.clauses.len() - i,
        {
            let ghost now = self@;
            self.clauses.push(other.clauses[i].clone());
            i = i + 1;
            assert(self@ =~= now.push(other@[i - 1]));
            assert(before + other@.take(i as int) =~= now.push(other@[i - 1]));
        }
        assert(other@.take(other@.len() as int) =~= other@);
        proof {
            assert forall|v: VersionModel| #[trigger]
                satisfies(self@, v) == (satisfies(before, v) && satisfies(other@, v)) by {
                merged_is_both(before, other@, v);
            }
        }
    }
}

/// A version satisfies two sets of clauses together exactly where it satisfies
/// each of them.
pub proof fn merged_is_both(a: Seq<ClauseModel>, b: Seq<ClauseModel>, v: VersionModel)
    ensures
        satisfies(a + b, v) == (satisfies(a, v) && satisfies(b, v)),
{
    if satisfies(a + b, v) {
        assert forall|i: int| 0 <= i < a.len() implies clause_matches(#[trigger] a[i], v) by {
            assert((a + b)[i] == a[i]);
        }
        assert forall|i: int| 0 <= i < b.len() implies clause_matches(#[trigger] b[i], v) by {
            assert((a + b)[a.len() + i] == b[i]);
        }
    }
}

// ── Laws of the order ───────────────────────────────────────────────────────
proof fn lex_sign_flips(a: Seq<int>, b: Seq<int>)
    requires
        a.len() == b.len(),
    ensures
        lex(a, b) == -lex(b, a),
        -1 <= lex(a, b) <= 1,
        lex(a, b) == 0 <==> a == b,
    decreases a.len(),
{
    if a.len() > 0 {
        lex_sign_flips(a.skip(1), b.skip(1));
        if a[0] == b[0] && a.skip(1) == b.skip(1) {
            assert forall|i: int| 0 <= i < a.len() implies a[i] == b[i] by {
                if i > 0 {
                    assert(a.skip(1)[i - 1] == b.skip(1)[i - 1]);
                }
            }
            assert(a =~= b);
        }
    } else {
        assert(a =~= b);
    }
}

proof fn lex_transitive(a: Seq<int>, b: Seq<int>, c: Seq<int>)
    requires
        a.len() == b.len() == c.len(),
        lex(a, b) <= 0,
        lex(b, c) <= 0,
    ensures
        lex(a, c) <= 0,
        lex(a, c) == 0 ==> lex(a, b) == 0 && lex(b, c) == 0,
    decreases a.len(),
{
    if a.len() > 0 && a[0] == b[0] && b[0] == c[0] {
        lex_transitive(a.skip(1), b.skip(1), c.skip(1));
    }
}

proof fn lex_same_tail(a: Seq<int>, b: Seq<int>, x: int)
    requires
        a.len() == b.len(),
    ensures
        lex(a.push(x), b.push(x)) == lex(a, b),
    decreases a.len(),
{
    if a.len() > 0 {
        lex_same_tail(a.skip(1), b.skip(1), x);
        assert(a.push(x).skip(1) =~= a.skip(1).push(x));
        assert(b.push(x).skip(1) =~= b.skip(1).push(x));
    } else {
        assert(a.push(x).skip(1) =~= b.push(x).skip(1));
        lex_sign_flips(a.push(x).skip(1), b.push(x).skip(1));
    }
}

/// More zeros behind two releases do not change how they compare.
proof fn padding_is_free(a: Seq<u64>, b: Seq<u64>, n: nat)
    requires
        n >= longer(a.len(), b.len()),
    ensures
        lex(padded(a, n), padded(b, n)) == lex(
            padded(a, longer(a.len(), b.len())),
            padded(b, longer(a.len(), b.len())),
        ),
    decreases n,
{
    if n > longer(a.len(), b.len()) {
        let m = (n - 1) as nat;
        padding_is_free(a, b, m);
        assert(padded(a, n) =~= padded(a, m).push(0));
        assert(padded(b, n) =~= padded(b, m).push(0));
        lex_same_tail(padded(a, m), padded(b, m), 0);
    }
}

/// Every version is equal to itself.
pub proof fn order_reflexive(a: VersionModel)
    ensures
        order(a, a) == 0,
{
    let n = a.release.len();
    lex_sign_flips(padded(a.release, n), padded(a.release, n));
    lex_sign_flips(phase_key(a), phase_key(a));
}

/// Any two versions compare, and the one way is the reverse of the other.
pub proof fn order_total(a: VersionModel, b: VersionModel)
    ensures
        order(a, b) == -order(b, a),
        -1 <= order(a, b) <= 1,
{
    let n = longer(a.release.len(), b.release.len());
    lex_sign_flips(padded(a.release, n), padded(b.release, n));
    lex_sign_flips(phase_key(a), phase_key(b));
}

/// A version not above a second, which is not above a third, is not above the
/// third; and it is equal to the third only where all three are equal.
pub proof fn order_transitive(a: VersionModel, b: VersionModel, c: VersionModel)
    requires
        order(a, b) <= 0,
        order(b, c) <= 0,
    ensures
        order(a, c) <= 0,
        order(a, c) == 0 ==> order(a, b) == 0 && order(b, c) == 0,
{
    if a.epoch == b.epoch && b.epoch == c.epoch {
        let n = longer(longer(a.release.len(), b.release.len()), c.release.len());
        padding_is_free(a.release, b.release, n);
        padding_is_free(b.release, c.release, n);
        padding_is_free(a.release, c.release, n);
        let (x, y, z) = (padded(a.release, n), padded(b.release, n), padded(c.release, n));
        lex_sign_flips(x, y);
        lex_sign_flips(y, z);
        lex_sign_flips(x, z);
        lex_transitive(x, y, z);
        lex_sign_flips(phase_key(a), phase_key(b));
        lex_sign_flips(phase_key(b), phase_key(c));
        lex_sign_flips(phase_key(a), phase_key(c));
        if lex(x, z) == 0 {
            lex_transitive(phase_key(a), phase_key(b), phase_key(c));
        }
    }
}

/// A version whose release goes on with a zero is the same version: `1.2` is
/// `1.2.0`.
pub proof fn trailing_zero_is_equal(a: VersionModel, b: VersionModel)
    requires
        b == (VersionModel { release: a.release.push(0), ..a }),
    ensures
        order(a, b) == 0,
{
    let n = longer(a.release.len(), b.release.len());
    assert(padded(a.release, n) =~= padded(b.release, n));
    lex_sign_flips(padded(a.release, n), padded(b.release, n));
    lex_sign_flips(phase_key(a), phase_key(b));
}

/// The local part takes no part in the order.
pub proof fn local_is_not_ordered(a: VersionModel, b: VersionModel)
    requires
        b == (VersionModel { local: b.local, ..a }),
    ensures
        order(a, b) == 0,
{
    order_reflexive(a);
    assert(phase_key(a) =~= phase_key(b));
}

/// A version of a higher epoch is above every version of a lower one.
pub proof fn epoch_comes_first(a: VersionModel, b: VersionModel)
    requires
        a.epoch < b.epoch,
    ensures
        order(a, b) == -1,
{
}

/// Within one release: development releases come before alphas, alphas before
/// betas, betas before release candidates, those before the final release, and
/// that before its post-releases.
pub proof fn phases_are_ordered(a: VersionModel, b: VersionModel)
    requires
        a.epoch == b.epoch,
        a.release == b.release,
        ({
            // a development release of the release itself, and a pre-release
            ||| a.pre is None && a.post is None && a.dev is Some && b.pre is Some
            // pre-releases of two kinds
            ||| a.pre is Some && b.pre is Some && rank((a.pre->0).0) < rank((b.pre->0).0)
            // a pre-release, and the final release or a post-release
            ||| a.pre is Some && b.pre is None && (b.dev is None || b.post is Some)
            // the final release or its development release, and a post-release
            ||| a.pre is None && a.post is None && b.pre is None && b.post is Some
        }),
    ensures
        order(a, b) == -1,
{
    let n = a.release.len();
    lex_sign_flips(padded(a.release, n), padded(b.release, n));
    let (x, y) = (phase_key(a), phase_key(b));
    reveal_with_fuel(lex, 5);
    assert(x.skip(1)[0] == x[1] && y.skip(1)[0] == y[1]);
    assert(x.skip(1).skip(1)[0] == x[2] && y.skip(1).skip(1)[0] == y[2]);
    assert(x.skip(1).skip(1).skip(1)[0] == x[3] && y.skip(1).skip(1).skip(1)[0] == y[3]);
}

/// A development release comes before what it leads to.
pub proof fn dev_comes_before(a: VersionModel, b: VersionModel)
    requires
        a == (VersionModel { dev: a.dev, ..b }),
        a.dev is Some,
        b.dev is None,
    ensures
        order(a, b) == -1,
{
    let m = b.release.len();
    lex_sign_flips(padded(a.release, m), padded(b.release, m));
    let (x, y) = (phase_key(a), phase_key(b));
    if x[0] == y[0] {
        assert forall|i: int| 0 <= i < 5 implies x[i] == y[i] by {}
        lex_at(x, y, 5);
    }
}

/// Post-releases of one release are ordered by their numbers.
pub proof fn post_numbers_are_ordered(a: VersionModel, b: VersionModel)
    requires
        a == (VersionModel { post: a.post, ..b }),
        a.post is Some,
        b.post is Some,
        a.post->0 < b.post->0,
    ensures
        order(a, b) == -1,
{
    let m = b.release.len();
    lex_sign_flips(padded(a.release, m), padded(b.release, m));
    let (x, y) = (phase_key(a), phase_key(b));
    assert forall|i: int| 0 <= i < 4 implies x[i] == y[i] by {}
    lex_at(x, y, 4);
}

/// Sequences compare by the first element in which they differ.
pub proof fn lex_at(a: Seq<int>, b: Seq<int>, n: int)
    requires
        a.len() == b.len(),
        0 <= n < a.len(),
        forall|i: int| 0 <= i < n ==> a[i] == b[i],
        a[n] < b[n],
    ensures
        lex(a, b) == -1,
    decreases a.len(),
{
    if n > 0 {
        lex_at(a.skip(1), b.skip(1), n - 1);
    }
}

/// A set without clauses is satisfied by every version.
pub proof fn empty_set_matches_all(v: VersionModel)
    ensures
        satisfies(Seq::<ClauseModel>::empty(), v),
{
}

/// `~=X.Y` asks for what `>=X.Y` and `==X.*` ask for together.
pub proof fn compatible_is_bound_and_prefix(raw: Seq<char>, t: VersionModel, v: VersionModel)
    requires
        t.release.len() >= 2,
    ensures
        clause_matches(ClauseModel { op: Op::Compatible, raw, ver: Some(t) }, v) == (clause_matches(
            ClauseModel { op: Op::Ge, raw, ver: Some(t) },
            v,
        ) && clause_matches(
            ClauseModel {
                op: Op::EqStar,
                raw,
                ver: Some(VersionModel { release: t.release.drop_last(), ..t }),
            },
            v,
        )),
{
}

/// `!=` refuses exactly what `==` accepts, with a prefix and without.
pub proof fn not_equal_is_complement(raw: Seq<char>, t: VersionModel, v: VersionModel)
    ensures
        clause_matches(ClauseModel { op: Op::Ne, raw, ver: Some(t) }, v) == !clause_matches(
            ClauseModel { op: Op::Eq, raw, ver: Some(t) },
            v,
        ),
        clause_matches(ClauseModel { op: Op::NeStar, raw, ver: Some(t) }, v) == !clause_matches(
            ClauseModel { op: Op::EqStar, raw, ver: Some(t) },
            v,
        ),
{
}

// ── Selection ───────────────────────────────────────────────────────────────
/// The text at position `i` is a version that satisfies the clauses.
pub open spec fn is_candidate(available: Seq<Seq<char>>, cs: Seq<ClauseModel>, i: int) -> bool {
    0 <= i < available.len() && (parse(available[i]) matches Some(v) && satisfies(cs, v))
}

/// A candidate that is neither a pre-release nor a development release.
pub open spec fn is_stable_candidate(
    available: Seq<Seq<char>>,
    cs: Seq<ClauseModel>,
    i: int,
) -> bool {
    is_candidate(available, cs, i) && !is_pre(parse(available[i])->0)
}

/// The clause asks for a pre-release or a development release by name: its version
/// is one, and it does not exclude it.
pub open spec fn names_pre(c: ClauseModel) -> bool {
    match c.op {
        Op::Ne => false,
        Op::NeStar => false,
        Op::Arbitrary => parse(c.raw) matches Some(t) && is_pre(t),
        _ => c.ver matches Some(t) && is_pre(t),
    }
}

/// One of the clauses asks for a pre-release by name.
pub open spec fn targets_pre(cs: Seq<ClauseModel>) -> bool {
    exists|k: int| 0 <= k < cs.len() && names_pre(#[trigger] cs[k])
}

/// A candidate that may be selected: a stable one, or any where the clauses ask for
/// a pre-release by name or no stable one satisfies them.
pub open spec fn is_eligible(available: Seq<Seq<char>>, cs: Seq<ClauseModel>, i: int) -> bool {
    &&& is_candidate(available, cs, i)
    &&& {
        ||| targets_pre(cs)
        ||| !(exists|j: int| is_stable_candidate(available, cs, j))
        ||| !is_pre(parse(available[i])->0)
    }
}

/// The position `i` holds the highest version that may be selected, the last one
/// of those that are equal.
pub open spec fn is_best(available: Seq<Seq<char>>, cs: Seq<ClauseModel>, i: int) -> bool {
    &&& is_eligible(available, cs, i)
    &&& forall|j: int| #[trigger]
        is_eligible(available, cs, j) ==> {
            let sign = order(parse(available[j])->0, parse(available[i])->0);
            sign < 0 || (sign == 0 && j <= i)
        }
}

/// At most one position holds the best version.
pub proof fn best_is_unique(available: Seq<Seq<char>>, cs: Seq<ClauseModel>, i: int, j: int)
    requires
        is_best(available, cs, i),
        is_best(available, cs, j),
    ensures
        i == j,
{
    order_total(parse(available[i])->0, parse(available[j])->0);
}

/// Does the clause ask for a pre-release by name?
fn clause_names_pre(c: &Clause) -> (r: bool)
    ensures
        r == names_pre(c@),
{
    match c.op {
        Op::Ne => false,
        Op::NeStar => false,
        Op::Arbitrary => match Version::parse(&c.raw) {
            Some(t) => t.is_prerelease(),
            None => false,
        },
        _ => match &c.ver {
            Some(t) => t.is_prerelease(),
            None => false,
        },
    }
}

/// Does the set ask for a pre-release by name?
fn set_targets_pre(spec: &SpecifierSet) -> (r: bool)
    ensures
        r == targets_pre(spec@),
{
    let mut i: usize = 0;
    while i < spec.clauses.len()
        invariant
            i <= spec.clauses.len(),
            forall|k: int| 0 <= k < i ==> !names_pre(#[trigger] spec@[k]),
        decreases spec.clauses.len() - i,
    {
        if clause_names_pre(&spec.clauses[i]) {
            assert(names_pre(spec@[i as int]));
            return true;
        }
        assert(!names_pre(spec@[i as int]));
        i = i + 1;
    }
    false
}

/// The highest of the available versions that satisfies the set, as it is
/// written there. A pre-release is selected only where the set asks for one by
/// name, or where no stable version satisfies it.
pub fn select_best<'a>(available: &'a [String], spec: &SpecifierSet) -> (r: Option<&'a str>)
    ensures
        match r {
            Some(s) => exists|i: int| #[trigger]
                is_best(text::views(available@), spec@, i) && s@ == available@[i]@,
            None => forall|i: int| !#[trigger] is_candidate(text::views(available@), spec@, i),
        },
{
    let ghost texts = text::views(available@);
    let mut found: Vec<Option<Version>> = Vec::new();
    let mut any_stable = false;
    let mut i: usize = 0;
    while i < available.len()
        invariant
            i <= available.len(),
            found@.len() == i,
            texts == text::views(available@),
            forall|k: int|
                0 <= k < i ==> match #[trigger] found@[k] {
                    Some(v) => is_candidate(texts, spec@, k) && parse(texts[k]) == Some(v@),
                    None => !is_candidate(texts, spec@, k),
                },
            any_stable == exists|k: int| 0 <= k < i && is_stable_candidate(texts, spec@, k),
        decreases available.len() - i,
    {
        assert(texts[i as int] == available@[i as int]@);
        let mut v = Version::parse(available[i].as_str());
        let keep = match &v {
            Some(v) => spec.matches(v),
            None => false,
        };
        if !keep {
            v = None;
        }
        if let Some(v) = &v {
            if !v.is_prerelease() {
                assert(is_stable_candidate(texts, spec@, i as int));
                any_stable = true;
            }
        }
        found.push(v);
        i = i + 1;
    }
    assert(any_stable == exists|k: int| is_stable_candidate(texts, spec@, k));
    let stable_only = any_stable && !set_targets_pre(spec);
    let mut best: Option<usize> = None;
    let mut i: usize = 0;
    while i < available.len()
        invariant
            i <= available.len(),
            found@.len() == available@.len(),
            texts == text::views(available@),
            forall|k: int|
                0 <= k < found@.len() ==> match #[trigger] found@[k] {
                    Some(v) => is_candidate(texts, spec@, k) && parse(texts[k]) == Some(v@),
                    None => !is_candidate(texts, spec@, k),
                },
            stable_only == (!targets_pre(spec@) && exists|k: int|
                is_stable_candidate(texts, spec@, k)),
            match best {
                Some(b) => {
                    &&& b < i
                    &&& is_eligible(texts, spec@, b as int)
                    &&& forall|j: int|
                        j < i && #[trigger] is_eligible(texts, spec@, j) ==> {
                            let sign = order(parse(texts[j])->0, parse(texts[b as int])->0);
                            sign < 0 || (sign == 0 && j <= b)
                        }
                },
                None => forall|j: int| j < i ==> !#[trigger] is_eligible(texts, spec@, j),
            },
        decreases available.len() - i,
    {
        match &found[i] {
            Some(v) => {
                if !stable_only || !v.is_prerelease() {
                    assert(is_eligible(texts, spec@, i as int));
                    let better = match best {
                        Some(b) => match &found[b] {
                            Some(w) => w.sign(v) <= 0,
                            None => false,
                        },
                        None => true,
                    };
                    proof {
                        order_reflexive(v@);
                        if let Some(b) = best {
                            let top = parse(texts[b as int])->0;
                            order_total(top, v@);
                            if better {
                                assert forall|j: int|
                                    j < i && #[trigger] is_eligible(texts, spec@, j) implies order(
                                    parse(texts[j])->0,
                                    v@,
                                ) <= 0 by {
                                    order_transitive(parse(texts[j])->0, top, v@);
                                }
                            }
                        }
                    }
                    if better {
                        best = Some(i);
                    }
                } else {
                    assert(!is_eligible(texts, spec@, i as int));
                }
            },
            None => {
                assert(!is_eligible(texts, spec@, i as int));
            },
        }
        i = i + 1;
    }
    match best {
        Some(b) => {
            assert(is_best(texts, spec@, b as int));
            Some(available[b].as_str())
        },
        None => {
            proof {
                assert forall|i: int| !#[trigger] is_candidate(texts, spec@, i) by {
                    if is_candidate(texts, spec@, i) {
                        if stable_only {
                            let k = choose|k: int| is_stable_candidate(texts, spec@, k);
                            assert(is_eligible(texts, spec@, k));
                        } else {
                            assert(is_eligible(texts, spec@, i));
                        }
                    }
                }
            }
            None
        },
    }
}

} // verus!
