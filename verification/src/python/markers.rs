//! The environment markers of requirements, after PEP 508: the tail
//! `; sys_platform == "win32"`.
//!
//! A marker is evaluated in three values. A variable that has no value here, such
//! as `python_version`, makes a comparison unknown, and a marker that is unknown
//! keeps its dependency, as one that is no marker does. Only a marker that is
//! definitely false drops a dependency.
use vstd::prelude::*;

use crate::chars;
use crate::text;
use crate::unicode;

verus! {

/// The marker variables that have a value for a platform.
#[derive(Debug, Clone, Copy)]
pub struct MarkerEnv {
    pub sys_platform: &'static str,
    pub platform_system: &'static str,
    pub os_name: &'static str,
    pub platform_machine: &'static str,
}

/// What a platform answers for the marker variables.
pub struct EnvModel {
    pub sys_platform: Seq<char>,
    pub platform_system: Seq<char>,
    pub os_name: Seq<char>,
    pub platform_machine: Seq<char>,
}

impl View for MarkerEnv {
    type V = EnvModel;

    open spec fn view(&self) -> EnvModel {
        EnvModel {
            sys_platform: self.sys_platform@,
            platform_system: self.platform_system@,
            os_name: self.os_name@,
            platform_machine: self.platform_machine@,
        }
    }
}

/// What Python reports as `sys.platform`, `platform.system()` and `os.name` on an
/// operating system.
pub open spec fn system_names(os: Seq<char>) -> (Seq<char>, Seq<char>, Seq<char>) {
    if os == "windows"@ {
        ("win32"@, "Windows"@, "nt"@)
    } else if os == "macos"@ {
        ("darwin"@, "Darwin"@, "posix"@)
    } else if os == "linux"@ {
        ("linux"@, "Linux"@, "posix"@)
    } else if os == "freebsd"@ {
        ("freebsd"@, "FreeBSD"@, "posix"@)
    } else {
        (""@, ""@, ""@)
    }
}

/// What Python reports as `platform.machine()`.
pub open spec fn machine_name(os: Seq<char>, arch: Seq<char>) -> Seq<char> {
    if os == "windows"@ && arch == "x86_64"@ {
        "AMD64"@
    } else if os == "windows"@ && arch == "aarch64"@ {
        "ARM64"@
    } else if os == "macos"@ && arch == "aarch64"@ {
        "arm64"@
    } else if arch == "x86_64"@ {
        "x86_64"@
    } else if arch == "aarch64"@ {
        "aarch64"@
    } else {
        ""@
    }
}

/// What the operating system `os` and the architecture `arch`, which are named as Rust
/// names them, answer for the variables.
pub open spec fn target_env(os: Seq<char>, arch: Seq<char>) -> EnvModel {
    EnvModel {
        sys_platform: system_names(os).0,
        platform_system: system_names(os).1,
        os_name: system_names(os).2,
        platform_machine: machine_name(os, arch),
    }
}

/// The value of a variable by its name, empty where the platform does not say.
pub open spec fn variable(env: EnvModel, name: Seq<char>) -> Option<Seq<char>> {
    if name == "sys_platform"@ || name == "sys.platform"@ {
        Some(env.sys_platform)
    } else if name == "platform_system"@ {
        Some(env.platform_system)
    } else if name == "os_name"@ || name == "os.name"@ {
        Some(env.os_name)
    } else if name == "platform_machine"@ || name == "platform.machine"@ {
        Some(env.platform_machine)
    } else if name == "implementation_name"@ {
        Some("cpython"@)
    } else if name == "platform_python_implementation"@ || name
        == "platform.python_implementation"@ {
        Some("CPython"@)
    } else {
        None
    }
}

/// The value of a variable, where it has one.
pub open spec fn lookup(env: EnvModel, name: Seq<char>) -> Option<Seq<char>> {
    match variable(env, name) {
        Some(v) => if v.len() == 0 {
            None
        } else {
            Some(v)
        },
        None => None,
    }
}

impl MarkerEnv {
    /// What Python reports on an operating system and architecture, which are
    /// named as Rust names them.
    pub fn for_target(os: &str, arch: &str) -> (r: MarkerEnv)
        ensures
            (r@.sys_platform, r@.platform_system, r@.os_name) == system_names(os@),
            r@.platform_machine == machine_name(os@, arch@),
            r@ == target_env(os@, arch@),
            os@ == "windows"@ ==> r.sys_platform@ == "win32"@ && r.platform_system@ == "Windows"@
                && r.os_name@ == "nt"@,
            os@ == "macos"@ ==> r.sys_platform@ == "darwin"@ && r.platform_system@ == "Darwin"@
                && r.os_name@ == "posix"@,
            os@ == "linux"@ ==> r.sys_platform@ == "linux"@ && r.platform_system@ == "Linux"@
                && r.os_name@ == "posix"@,
            os@ == "freebsd"@ ==> r.sys_platform@ == "freebsd"@ && r.platform_system@
                == "FreeBSD"@ && r.os_name@ == "posix"@,
            os@ == "windows"@ && arch@ == "x86_64"@ ==> r.platform_machine@ == "AMD64"@,
            os@ == "windows"@ && arch@ == "aarch64"@ ==> r.platform_machine@ == "ARM64"@,
            os@ == "macos"@ && arch@ == "aarch64"@ ==> r.platform_machine@ == "arm64"@,
            os@ != "windows"@ && arch@ == "x86_64"@ ==> r.platform_machine@ == "x86_64"@,
            os@ != "windows"@ && os@ != "macos"@ && arch@ == "aarch64"@ ==> r.platform_machine@
                == "aarch64"@,
    {
        proof {
            reveal_strlit("windows");
            reveal_strlit("macos");
            reveal_strlit("linux");
            reveal_strlit("freebsd");
            reveal_strlit("x86_64");
            reveal_strlit("aarch64");
            assert("windows"@[0] == 'w' && "macos"@[0] == 'm' && "linux"@[0] == 'l'
                && "freebsd"@[0] == 'f');
            assert("x86_64"@[0] == 'x' && "aarch64"@[0] == 'a');
        }
        let windows = chars::str_same(os, "windows");
        let macos = chars::str_same(os, "macos");
        let x86_64 = chars::str_same(arch, "x86_64");
        let aarch64 = chars::str_same(arch, "aarch64");
        let (sys_platform, platform_system, os_name) = if windows {
            ("win32", "Windows", "nt")
        } else if macos {
            ("darwin", "Darwin", "posix")
        } else if chars::str_same(os, "linux") {
            ("linux", "Linux", "posix")
        } else if chars::str_same(os, "freebsd") {
            ("freebsd", "FreeBSD", "posix")
        } else {
            ("", "", "")
        };
        let platform_machine = if windows && x86_64 {
            "AMD64"
        } else if windows && aarch64 {
            "ARM64"
        } else if macos && aarch64 {
            "arm64"
        } else if x86_64 {
            "x86_64"
        } else if aarch64 {
            "aarch64"
        } else {
            ""
        };
        MarkerEnv { sys_platform, platform_system, os_name, platform_machine }
    }

    fn value_of(&self, name: &str) -> (r: Option<&'static str>)
        ensures
            text::opt_str_view(r) == lookup(self@, name@),
    {
        let v = if chars::str_same(name, "sys_platform") || chars::str_same(name, "sys.platform") {
            self.sys_platform
        } else if chars::str_same(name, "platform_system") {
            self.platform_system
        } else if chars::str_same(name, "os_name") || chars::str_same(name, "os.name") {
            self.os_name
        } else if chars::str_same(name, "platform_machine") || chars::str_same(
            name,
            "platform.machine",
        ) {
            self.platform_machine
        } else if chars::str_same(name, "implementation_name") {
            proof {
                reveal_strlit("cpython");
            }
            "cpython"
        } else if chars::str_same(name, "platform_python_implementation") || chars::str_same(
            name,
            "platform.python_implementation",
        ) {
            proof {
                reveal_strlit("CPython");
            }
            "CPython"
        } else {
            return None;
        };
        if v.is_empty() {
            None
        } else {
            Some(v)
        }
    }
}

// ── Extras ──────────────────────────────────────────────────────────────────
/// The characters that separate the parts of an extra's name.
pub open spec fn is_name_sep(c: char) -> bool {
    c == '-' || c == '_' || c == '.'
}

/// A name in small letters, with one hyphen for each run of separators that does
/// not stand at its start.
pub open spec fn joined_name(s: Seq<char>) -> Seq<char>
    decreases s.len(),
{
    if s.len() == 0 {
        Seq::empty()
    } else {
        let front = joined_name(s.drop_last());
        let c = s.last();
        if is_name_sep(c) {
            if front.len() > 0 && s.len() > 1 && !is_name_sep(s[s.len() - 2]) {
                front.push('-')
            } else {
                front
            }
        } else {
            front + unicode::lower(c)
        }
    }
}

/// The normal form of an extra's name, after PEP 685.
pub open spec fn normal_extra(raw: Seq<char>) -> Seq<char> {
    text::trim_end_set(joined_name(text::trim(raw)), "-"@)
}

/// The normal form of an extra's name: in small letters, with one hyphen for each
/// run of `-`, `_` and `.`, and none at the ends.
pub fn normalize_extra(raw: &str) -> (r: String)
    ensures
        r@ == normal_extra(raw@),
{
    let whole = chars::of(raw);
    let s = chars::trim(&whole);
    let mut out: Vec<char> = Vec::new();
    let mut i: usize = 0;
    assert(joined_name(s@.take(0)) =~= Seq::empty());
    while i < s.len()
        invariant
            i <= s.len(),
            out@ == joined_name(s@.take(i as int)),
        decreases s.len() - i,
    {
        let c = s[i];
        proof {
            assert(s@.take(i + 1).drop_last() =~= s@.take(i as int));
            assert(s@.take(i + 1).last() == c);
        }
        if c == '-' || c == '_' || c == '.' {
            if out.len() > 0 && i > 0 {
                let p = s[i - 1];
                if !(p == '-' || p == '_' || p == '.') {
                    out.push('-');
                }
            }
        } else {
            let low = unicode::char_to_lowercase(c);
            chars::append(&mut out, &low);
        }
        i = i + 1;
    }
    assert(s@.take(i as int) =~= s@);
    chars::to_string(chars::trim_end_set(&out, "-"))
}

// ── Tokens ──────────────────────────────────────────────────────────────────
/// A token of a marker.
#[derive(Debug)]
pub enum Tok {
    Ident(String),
    Str(String),
    Op(String),
    LParen,
    RParen,
}

/// What a token is.
pub enum TokModel {
    Ident(Seq<char>),
    Str(Seq<char>),
    Op(Seq<char>),
    LParen,
    RParen,
}

impl View for Tok {
    type V = TokModel;

    open spec fn view(&self) -> TokModel {
        match *self {
            Tok::Ident(s) => TokModel::Ident(s@),
            Tok::Str(s) => TokModel::Str(s@),
            Tok::Op(s) => TokModel::Op(s@),
            Tok::LParen => TokModel::LParen,
            Tok::RParen => TokModel::RParen,
        }
    }
}

/// What a list of tokens is.
pub open spec fn tok_views(v: Seq<Tok>) -> Seq<TokModel> {
    Seq::new(v.len(), |i: int| v[i]@)
}

/// The characters that operators are made of.
pub open spec fn is_op_char(c: char) -> bool {
    c == '<' || c == '>' || c == '=' || c == '!' || c == '~'
}

/// The characters that names are made of.
pub open spec fn is_ident_char(c: char) -> bool {
    unicode::is_alphanumeric(c) || c == '_' || c == '.'
}

/// The number of leading operator characters.
pub open spec fn op_run(s: Seq<char>) -> nat
    decreases s.len(),
{
    if s.len() > 0 && is_op_char(s[0]) {
        1 + op_run(s.skip(1))
    } else {
        0
    }
}

/// The number of leading name characters.
pub open spec fn ident_run(s: Seq<char>) -> nat
    decreases s.len(),
{
    if s.len() > 0 && is_ident_char(s[0]) {
        1 + ident_run(s.skip(1))
    } else {
        0
    }
}

/// The token at the start of a text that is not space, and its length.
pub open spec fn first_token(s: Seq<char>) -> Option<(TokModel, int)> {
    let c = s[0];
    if c == '(' {
        Some((TokModel::LParen, 1))
    } else if c == ')' {
        Some((TokModel::RParen, 1))
    } else if c == '"' || c == '\'' {
        match text::find(s.skip(1), seq![c]) {
            Some(n) => Some((TokModel::Str(s.skip(1).take(n)), n + 2)),
            None => None,
        }
    } else if is_op_char(c) {
        Some((TokModel::Op(s.take(op_run(s) as int)), op_run(s) as int))
    } else if is_ident_char(c) {
        Some((TokModel::Ident(s.take(ident_run(s) as int)), ident_run(s) as int))
    } else {
        None
    }
}

/// The tokens of a marker, if it is made of tokens.
pub open spec fn tokens(s: Seq<char>) -> Option<Seq<TokModel>>
    decreases s.len(),
{
    if s.len() == 0 {
        Some(Seq::empty())
    } else if text::is_whitespace(s[0]) {
        tokens(s.skip(1))
    } else {
        match first_token(s) {
            None => None,
            Some((tok, n)) => if 0 < n <= s.len() {
                match tokens(s.skip(n)) {
                    Some(rest) => Some(seq![tok] + rest),
                    None => None,
                }
            } else {
                None
            },
        }
    }
}

/// Tokens before a list of tokens that may not be one.
pub open spec fn prepended(front: Seq<TokModel>, rest: Option<Seq<TokModel>>) -> Option<
    Seq<TokModel>,
> {
    match rest {
        Some(rest) => Some(front + rest),
        None => None,
    }
}

fn scan_ops(s: &[char]) -> (n: usize)
    ensures
        n == op_run(s@),
        n <= s@.len(),
        s@.len() > 0 && is_op_char(s@[0]) ==> n > 0,
{
    let mut i: usize = 0;
    assert(s@.skip(0) =~= s@);
    while i < s.len() && (s[i] == '<' || s[i] == '>' || s[i] == '=' || s[i] == '!' || s[i] == '~')
        invariant
            i <= s.len(),
            op_run(s@) == i + op_run(s@.skip(i as int)),
            i == 0 ==> s@.skip(i as int) == s@,
        decreases s.len() - i,
    {
        assert(s@.skip(i as int).skip(1) =~= s@.skip(i + 1));
        i = i + 1;
    }
    i
}

fn is_ident(c: char) -> (r: bool)
    ensures
        r == is_ident_char(c),
{
    unicode::char_is_alphanumeric(c) || c == '_' || c == '.'
}

fn scan_ident(s: &[char]) -> (n: usize)
    ensures
        n == ident_run(s@),
        n <= s@.len(),
        s@.len() > 0 && is_ident_char(s@[0]) ==> n > 0,
{
    let mut i: usize = 0;
    assert(s@.skip(0) =~= s@);
    while i < s.len() && is_ident(s[i])
        invariant
            i <= s.len(),
            ident_run(s@) == i + ident_run(s@.skip(i as int)),
            i == 0 ==> s@.skip(i as int) == s@,
        decreases s.len() - i,
    {
        assert(s@.skip(i as int).skip(1) =~= s@.skip(i + 1));
        i = i + 1;
    }
    i
}

fn scan_token(s: &[char]) -> (r: Option<(Tok, usize)>)
    requires
        s@.len() > 0,
    ensures
        match r {
            Some((tok, n)) => first_token(s@) == Some((tok@, n as int)) && 0 < n <= s@.len(),
            None => first_token(s@) is None,
        },
{
    let c = s[0];
    if c == '(' {
        Some((Tok::LParen, 1))
    } else if c == ')' {
        Some((Tok::RParen, 1))
    } else if c == '"' || c == '\'' {
        let rest = chars::skip(s, 1);
        match chars::find_char(rest, c) {
            Some(n) => {
                assert(n + 2 <= s.len());
                Some((Tok::Str(chars::to_string(chars::take(rest, n))), n + 2))
            },
            None => None,
        }
    } else if c == '<' || c == '>' || c == '=' || c == '!' || c == '~' {
        let n: usize = scan_ops(s);
        Some((Tok::Op(chars::to_string(chars::take(s, n))), n))
    } else if is_ident(c) {
        let n: usize = scan_ident(s);
        Some((Tok::Ident(chars::to_string(chars::take(s, n))), n))
    } else {
        None
    }
}

/// The tokens of a marker, if it is made of tokens.
pub fn tokenize(s: &str) -> (r: Option<Vec<Tok>>)
    ensures
        match r {
            Some(v) => tokens(s@) == Some(tok_views(v@)),
            None => tokens(s@) is None,
        },
{
    let whole = chars::of(s);
    let mut rest: &[char] = &whole;
    let mut out: Vec<Tok> = Vec::new();
    proof {
        if let Some(t) = tokens(s@) {
            assert(tok_views(out@) + t =~= t);
        }
    }
    while rest.len() > 0
        invariant
            tokens(s@) == prepended(tok_views(out@), tokens(rest@)),
        decreases rest.len(),
    {
        if chars::is_whitespace(rest[0]) {
            rest = chars::skip(rest, 1);
        } else {
            match scan_token(rest) {
                Some((tok, n)) => {
                    let ghost before = out@;
                    let ghost model = tok@;
                    out.push(tok);
                    proof {
                        assert(tok_views(out@) =~= tok_views(before).push(model));
                        if let Some(t) = tokens(rest@.skip(n as int)) {
                            assert(tok_views(before) + (seq![model] + t) =~= tok_views(out@) + t);
                        }
                    }
                    rest = chars::skip(rest, n);
                },
                None => {
                    return None;
                },
            }
        }
    }
    assert(tok_views(out@) + Seq::<TokModel>::empty() =~= tok_views(out@));
    Some(out)
}

// ── Evaluation ──────────────────────────────────────────────────────────────
/// Either of two values that may be unknown.
pub open spec fn tri_or(a: Option<bool>, b: Option<bool>) -> Option<bool> {
    if a == Some(true) || b == Some(true) {
        Some(true)
    } else if a == Some(false) && b == Some(false) {
        Some(false)
    } else {
        None
    }
}

/// Both of two values that may be unknown.
pub open spec fn tri_and(a: Option<bool>, b: Option<bool>) -> Option<bool> {
    if a == Some(false) || b == Some(false) {
        Some(false)
    } else if a == Some(true) && b == Some(true) {
        Some(true)
    } else {
        None
    }
}

/// `value` is what an unknown `a` may turn out to be, or what a known `a` is.
pub open spec fn may_be(a: Option<bool>, value: bool) -> bool {
    a is None || a == Some(value)
}

/// A known result stays, whatever the unknown values turn out to be.
pub proof fn known_results_stay(a: Option<bool>, b: Option<bool>, x: bool, y: bool)
    requires
        may_be(a, x),
        may_be(b, y),
    ensures
        may_be(tri_or(a, b), x || y),
        may_be(tri_and(a, b), x && y),
{
}

/// One side of a comparison.
pub enum ValModel {
    Known(Seq<char>),
    Unknown,
    /// The variable `extra`.
    Extra,
}

/// The value that a token stands for.
pub open spec fn value_of(tok: TokModel, env: EnvModel) -> Option<ValModel> {
    match tok {
        TokModel::Str(s) => Some(ValModel::Known(s)),
        TokModel::Ident(name) => if name == "extra"@ {
            Some(ValModel::Extra)
        } else if name == "and"@ || name == "or"@ || name == "in"@ || name == "not"@ {
            None
        } else {
            match lookup(env, name) {
                Some(v) => Some(ValModel::Known(v)),
                None => Some(ValModel::Unknown),
            }
        },
        _ => None,
    }
}

/// The operator at a position, and the position behind it.
pub open spec fn operator_at(toks: Seq<TokModel>, pos: int) -> Option<(Seq<char>, int)> {
    if pos >= toks.len() {
        None
    } else {
        match toks[pos] {
            TokModel::Op(o) => Some((o, pos + 1)),
            TokModel::Ident(w) => if w == "in"@ {
                Some(("in"@, pos + 1))
            } else if w == "not"@ && is_word(toks, pos + 1, "in"@) {
                Some(("not in"@, pos + 2))
            } else {
                None
            },
            _ => None,
        }
    }
}

/// The token at a position is a given word.
pub open spec fn is_word(toks: Seq<TokModel>, pos: int, word: Seq<char>) -> bool {
    0 <= pos < toks.len() && toks[pos] == TokModel::Ident(word)
}

/// The result of a comparison of two texts, unknown for comparisons of versions.
pub open spec fn compared(l: Seq<char>, op: Seq<char>, r: Seq<char>) -> Option<bool> {
    if op == "=="@ || op == "==="@ {
        Some(l == r)
    } else if op == "!="@ {
        Some(l != r)
    } else if op == "in"@ {
        Some(text::contains(r, l))
    } else if op == "not in"@ {
        Some(!text::contains(r, l))
    } else {
        None
    }
}

/// The result of a comparison of `extra` with a name: whether it was asked for.
pub open spec fn extra_compared(
    extras: Seq<Seq<char>>,
    op: Seq<char>,
    name: Seq<char>,
) -> Option<bool> {
    let hit = extras.contains(normal_extra(name));
    if op == "=="@ || op == "==="@ {
        Some(hit)
    } else if op == "!="@ {
        Some(!hit)
    } else {
        None
    }
}

/// The result of a comparison of two values.
pub open spec fn comparison(
    l: ValModel,
    op: Seq<char>,
    r: ValModel,
    extras: Seq<Seq<char>>,
) -> Option<bool> {
    match (l, r) {
        (ValModel::Extra, ValModel::Known(name)) => extra_compared(extras, op, name),
        (ValModel::Known(name), ValModel::Extra) => extra_compared(extras, op, name),
        (ValModel::Known(a), ValModel::Known(b)) => compared(a, op, b),
        _ => None,
    }
}

/// The comparison at a position: its result and the position behind it.
pub open spec fn comparison_at(
    toks: Seq<TokModel>,
    pos: int,
    env: EnvModel,
    extras: Seq<Seq<char>>,
) -> Option<(Option<bool>, int)> {
    if pos < 0 || pos >= toks.len() {
        None
    } else {
        match value_of(toks[pos], env) {
            None => None,
            Some(l) => match operator_at(toks, pos + 1) {
                None => None,
                Some((op, at)) => if at >= toks.len() {
                    None
                } else {
                    match value_of(toks[at], env) {
                        None => None,
                        Some(r) => Some((comparison(l, op, r, extras), at + 1)),
                    }
                },
            },
        }
    }
}

/// A comparison or a marker in parentheses: its result and the position behind
/// it.
pub open spec fn atom_at(
    toks: Seq<TokModel>,
    pos: int,
    env: EnvModel,
    extras: Seq<Seq<char>>,
) -> Option<(Option<bool>, int)>
    decreases toks.len() - pos, 0int,
{
    if 0 <= pos < toks.len() && toks[pos] == TokModel::LParen {
        match or_at(toks, pos + 1, env, extras) {
            Some((v, p)) => if p < toks.len() && toks[p] == TokModel::RParen {
                Some((v, p + 1))
            } else {
                None
            },
            None => None,
        }
    } else {
        comparison_at(toks, pos, env, extras)
    }
}

/// Atoms joined by `and`.
pub open spec fn and_at(
    toks: Seq<TokModel>,
    pos: int,
    env: EnvModel,
    extras: Seq<Seq<char>>,
) -> Option<(Option<bool>, int)>
    decreases toks.len() - pos, 2int,
{
    match atom_at(toks, pos, env, extras) {
        Some((v, p)) => if pos < p <= toks.len() {
            and_from(toks, v, p, env, extras)
        } else {
            None
        },
        None => None,
    }
}

/// What follows the atoms before `pos`, whose result is `acc`.
pub open spec fn and_from(
    toks: Seq<TokModel>,
    acc: Option<bool>,
    pos: int,
    env: EnvModel,
    extras: Seq<Seq<char>>,
) -> Option<(Option<bool>, int)>
    decreases toks.len() - pos, 1int,
{
    if is_word(toks, pos, "and"@) {
        match atom_at(toks, pos + 1, env, extras) {
            Some((v, p)) => if pos + 1 < p <= toks.len() {
                and_from(toks, tri_and(acc, v), p, env, extras)
            } else {
                None
            },
            None => None,
        }
    } else {
        Some((acc, pos))
    }
}

/// Terms joined by `or`.
pub open spec fn or_at(
    toks: Seq<TokModel>,
    pos: int,
    env: EnvModel,
    extras: Seq<Seq<char>>,
) -> Option<(Option<bool>, int)>
    decreases toks.len() - pos, 4int,
{
    match and_at(toks, pos, env, extras) {
        Some((v, p)) => if pos < p <= toks.len() {
            or_from(toks, v, p, env, extras)
        } else {
            None
        },
        None => None,
    }
}

/// What follows the terms before `pos`, whose result is `acc`.
pub open spec fn or_from(
    toks: Seq<TokModel>,
    acc: Option<bool>,
    pos: int,
    env: EnvModel,
    extras: Seq<Seq<char>>,
) -> Option<(Option<bool>, int)>
    decreases toks.len() - pos, 3int,
{
    if is_word(toks, pos, "or"@) {
        match and_at(toks, pos + 1, env, extras) {
            Some((v, p)) => if pos + 1 < p <= toks.len() {
                or_from(toks, tri_or(acc, v), p, env, extras)
            } else {
                None
            },
            None => None,
        }
    } else {
        Some((acc, pos))
    }
}

/// The value of a marker, if it is one.
pub open spec fn evaluated(marker: Seq<char>, env: EnvModel, extras: Seq<Seq<char>>) -> Option<
    Option<bool>,
> {
    match tokens(marker) {
        Some(toks) => match or_at(toks, 0, env, extras) {
            Some((v, p)) => if p == toks.len() {
                Some(v)
            } else {
                None
            },
            None => None,
        },
        None => None,
    }
}

/// A dependency with this marker is installed. A text that is no marker keeps its
/// dependency, unless it speaks of extras.
pub open spec fn applies(marker: Seq<char>, env: EnvModel, extras: Seq<Seq<char>>) -> bool {
    match evaluated(marker, env, extras) {
        Some(v) => v != Some(false),
        None => !text::contains(marker, "extra"@),
    }
}

/// A marker that does not speak of extras drops its dependency only where it is
/// definitely false.
pub proof fn only_false_drops(marker: Seq<char>, env: EnvModel, extras: Seq<Seq<char>>)
    requires
        !applies(marker, env, extras),
        !text::contains(marker, "extra"@),
    ensures
        evaluated(marker, env, extras) == Some(Some(false)),
{
}

/// With no extras asked for, a marker `extra == "name"` leaves its dependency out.
pub proof fn no_extras_no_optional(marker: Seq<char>, name: Seq<char>, env: EnvModel)
    requires
        tokens(marker) == Some(
            seq![TokModel::Ident("extra"@), TokModel::Op("=="@), TokModel::Str(name)],
        ),
    ensures
        !applies(marker, env, Seq::empty()),
{
    let toks = tokens(marker)->0;
    let none = Seq::<Seq<char>>::empty();
    assert(comparison_at(toks, 0, env, none) == Some((Some(false), 3int)));
    assert(atom_at(toks, 0, env, none) == Some((Some(false), 3int)));
    assert(and_from(toks, Some(false), 3, env, none) == Some((Some(false), 3int)));
    assert(and_at(toks, 0, env, none) == Some((Some(false), 3int)));
    assert(or_from(toks, Some(false), 3, env, none) == Some((Some(false), 3int)));
    assert(or_at(toks, 0, env, none) == Some((Some(false), 3int)));
}

/// One side of a comparison.
enum Val {
    Known(String),
    Unknown,
    Extra,
}

impl Val {
    spec fn model(&self) -> ValModel {
        match *self {
            Val::Known(s) => ValModel::Known(s@),
            Val::Unknown => ValModel::Unknown,
            Val::Extra => ValModel::Extra,
        }
    }
}

/// A marker under evaluation.
struct Parser<'a> {
    tokens: &'a Vec<Tok>,
    env: &'a MarkerEnv,
    extras: &'a [String],
}

impl<'a> Parser<'a> {
    spec fn toks(&self) -> Seq<TokModel> {
        tok_views(self.tokens@)
    }

    spec fn names(&self) -> Seq<Seq<char>> {
        text::views(self.extras@)
    }

    fn word(&self, pos: usize, word: &str) -> (r: bool)
        ensures
            r == is_word(self.toks(), pos as int, word@),
            r ==> pos < self.tokens.len(),
    {
        if pos < self.tokens.len() {
            assert(self.toks()[pos as int] == self.tokens@[pos as int]@);
            match &self.tokens[pos] {
                Tok::Ident(w) => chars::str_same(w.as_str(), word),
                _ => false,
            }
        } else {
            false
        }
    }

    fn value(&self, pos: usize) -> (r: Option<Val>)
        requires
            pos < self.tokens@.len(),
        ensures
            match r {
                Some(v) => value_of(self.toks()[pos as int], self.env@) == Some(v.model()),
                None => value_of(self.toks()[pos as int], self.env@) is None,
            },
    {
        match &self.tokens[pos] {
            Tok::Str(s) => Some(Val::Known(s.clone())),
            Tok::Ident(name) => {
                let name = name.as_str();
                if chars::str_same(name, "extra") {
                    Some(Val::Extra)
                } else if chars::str_same(name, "and") || chars::str_same(name, "or")
                    || chars::str_same(name, "in") || chars::str_same(name, "not") {
                    None
                } else {
                    match self.env.value_of(name) {
                        Some(v) => Some(Val::Known(String::from_str(v))),
                        None => Some(Val::Unknown),
                    }
                }
            },
            _ => None,
        }
    }

    fn operator(&self, pos: usize) -> (r: Option<(String, usize)>)
        ensures
            match r {
                Some((o, p)) => operator_at(self.toks(), pos as int) == Some((o@, p as int)) && pos
                    < p <= self.tokens@.len(),
                None => operator_at(self.toks(), pos as int) is None,
            },
    {
        if pos >= self.tokens.len() {
            return None;
        }
        assert(self.toks()[pos as int] == self.tokens@[pos as int]@);
        match &self.tokens[pos] {
            Tok::Op(o) => Some((o.clone(), pos + 1)),
            Tok::Ident(w) => {
                if chars::str_same(w.as_str(), "in") {
                    Some((String::from_str("in"), pos + 1))
                } else if chars::str_same(w.as_str(), "not") && self.word(pos + 1, "in") {
                    Some((String::from_str("not in"), pos + 2))
                } else {
                    None
                }
            },
            _ => None,
        }
    }

    fn requested(&self, name: &str) -> (r: bool)
        ensures
            r == self.names().contains(normal_extra(name@)),
    {
        let wanted = normalize_extra(name);
        let mut i: usize = 0;
        while i < self.extras.len()
            invariant
                i <= self.extras.len(),
                wanted@ == normal_extra(name@),
                forall|k: int| 0 <= k < i ==> self.names()[k] != wanted@,
            decreases self.extras.len() - i,
        {
            assert(self.names()[i as int] == self.extras@[i as int]@);
            if chars::str_same(self.extras[i].as_str(), wanted.as_str()) {
                return true;
            }
            i = i + 1;
        }
        false
    }

    fn compare_extra(&self, op: &str, name: &str) -> (r: Option<bool>)
        ensures
            r == extra_compared(self.names(), op@, name@),
    {
        let hit = self.requested(name);
        if chars::str_same(op, "==") || chars::str_same(op, "===") {
            Some(hit)
        } else if chars::str_same(op, "!=") {
            Some(!hit)
        } else {
            None
        }
    }

    fn compare_values(&self, l: &Val, op: &str, r: &Val) -> (v: Option<bool>)
        ensures
            v == comparison(l.model(), op@, r.model(), self.names()),
    {
        match l {
            Val::Extra => match r {
                Val::Known(name) => self.compare_extra(op, name.as_str()),
                _ => None,
            },
            Val::Known(a) => match r {
                Val::Extra => self.compare_extra(op, a.as_str()),
                Val::Known(b) => compare(a.as_str(), op, b.as_str()),
                _ => None,
            },
            Val::Unknown => None,
        }
    }

    fn comparison(&self, pos: usize) -> (r: Option<(Option<bool>, usize)>)
        ensures
            match r {
                Some((v, p)) => comparison_at(self.toks(), pos as int, self.env@, self.names())
                    == Some((v, p as int)) && pos < p <= self.tokens@.len(),
                None => comparison_at(self.toks(), pos as int, self.env@, self.names()) is None,
            },
    {
        if pos >= self.tokens.len() {
            return None;
        }
        let l = match self.value(pos) {
            Some(l) => l,
            None => {
                return None;
            },
        };
        let (op, at) = match self.operator(pos + 1) {
            Some(t) => t,
            None => {
                return None;
            },
        };
        if at >= self.tokens.len() {
            return None;
        }
        let r = match self.value(at) {
            Some(r) => r,
            None => {
                return None;
            },
        };
        Some((self.compare_values(&l, op.as_str(), &r), at + 1))
    }

    fn atom(&self, pos: usize) -> (r: Option<(Option<bool>, usize)>)
        ensures
            match r {
                Some((v, p)) => atom_at(self.toks(), pos as int, self.env@, self.names()) == Some(
                    (v, p as int),
                ) && pos < p <= self.tokens@.len(),
                None => atom_at(self.toks(), pos as int, self.env@, self.names()) is None,
            },
        decreases self.tokens@.len() - pos, 0int,
    {
        if pos < self.tokens.len() {
            assert(self.toks()[pos as int] == self.tokens@[pos as int]@);
            if matches!(self.tokens[pos], Tok::LParen) {
                return match self.or_expr(pos + 1) {
                    Some((v, p)) => {
                        if p < self.tokens.len() {
                            assert(self.toks()[p as int] == self.tokens@[p as int]@);
                            if matches!(self.tokens[p], Tok::RParen) {
                                Some((v, p + 1))
                            } else {
                                None
                            }
                        } else {
                            None
                        }
                    },
                    None => None,
                };
            }
        }
        self.comparison(pos)
    }

    fn and_expr(&self, pos: usize) -> (r: Option<(Option<bool>, usize)>)
        ensures
            match r {
                Some((v, p)) => and_at(self.toks(), pos as int, self.env@, self.names()) == Some(
                    (v, p as int),
                ) && pos < p <= self.tokens@.len(),
                None => and_at(self.toks(), pos as int, self.env@, self.names()) is None,
            },
        decreases self.tokens@.len() - pos, 1int,
    {
        let (mut acc, mut at) = match self.atom(pos) {
            Some(t) => t,
            None => {
                return None;
            },
        };
        let ghost whole = and_at(self.toks(), pos as int, self.env@, self.names());
        while self.word(at, "and")
            invariant
                pos < at <= self.tokens@.len(),
                whole == and_at(self.toks(), pos as int, self.env@, self.names()),
                whole == and_from(self.toks(), acc, at as int, self.env@, self.names()),
            decreases self.tokens@.len() - at,
        {
            let (rhs, p) = match self.atom(at + 1) {
                Some(t) => t,
                None => {
                    return None;
                },
            };
            acc = both(acc, rhs);
            at = p;
        }
        Some((acc, at))
    }

    fn or_expr(&self, pos: usize) -> (r: Option<(Option<bool>, usize)>)
        ensures
            match r {
                Some((v, p)) => or_at(self.toks(), pos as int, self.env@, self.names()) == Some(
                    (v, p as int),
                ) && pos < p <= self.tokens@.len(),
                None => or_at(self.toks(), pos as int, self.env@, self.names()) is None,
            },
        decreases self.tokens@.len() - pos, 2int,
    {
        let (mut acc, mut at) = match self.and_expr(pos) {
            Some(t) => t,
            None => {
                return None;
            },
        };
        let ghost whole = or_at(self.toks(), pos as int, self.env@, self.names());
        while self.word(at, "or")
            invariant
                pos < at <= self.tokens@.len(),
                whole == or_at(self.toks(), pos as int, self.env@, self.names()),
                whole == or_from(self.toks(), acc, at as int, self.env@, self.names()),
            decreases self.tokens@.len() - at,
        {
            let (rhs, p) = match self.and_expr(at + 1) {
                Some(t) => t,
                None => {
                    return None;
                },
            };
            acc = either(acc, rhs);
            at = p;
        }
        Some((acc, at))
    }
}

/// The result of a comparison of two texts.
fn compare(l: &str, op: &str, r: &str) -> (v: Option<bool>)
    ensures
        v == compared(l@, op@, r@),
{
    if chars::str_same(op, "==") || chars::str_same(op, "===") {
        return Some(chars::str_same(l, r));
    }
    if chars::str_same(op, "!=") {
        return Some(!chars::str_same(l, r));
    }
    let whole = chars::of(r);
    if chars::str_same(op, "in") {
        Some(chars::contains(&whole, l))
    } else if chars::str_same(op, "not in") {
        Some(!chars::contains(&whole, l))
    } else {
        None
    }
}

fn either(a: Option<bool>, b: Option<bool>) -> (r: Option<bool>)
    ensures
        r == tri_or(a, b),
{
    match (a, b) {
        (Some(true), _) => Some(true),
        (_, Some(true)) => Some(true),
        (Some(false), Some(false)) => Some(false),
        _ => None,
    }
}

fn both(a: Option<bool>, b: Option<bool>) -> (r: Option<bool>)
    ensures
        r == tri_and(a, b),
{
    match (a, b) {
        (Some(false), _) => Some(false),
        (_, Some(false)) => Some(false),
        (Some(true), Some(true)) => Some(true),
        _ => None,
    }
}

/// Is a dependency with this marker, the text behind `;`, installed on the
/// machine whose variables are `host`?
pub fn marker_applies(marker: &str, host: &MarkerEnv) -> (r: bool)
    ensures
        r == applies(marker@, host@, Seq::empty()),
{
    marker_applies_in(marker, host)
}

/// Is a dependency with this marker installed where the variables are `env`?
pub fn marker_applies_in(marker: &str, env: &MarkerEnv) -> (r: bool)
    ensures
        r == applies(marker@, env@, Seq::empty()),
{
    let none: Vec<String> = Vec::new();
    assert(text::views(none@) =~= Seq::empty());
    marker_applies_full(marker, env, &none)
}

/// Is a dependency with this marker installed on the machine whose variables are
/// `host`, where its package was asked for with `extras`?
pub fn marker_applies_with_extras(marker: &str, extras: &[String], host: &MarkerEnv) -> (r: bool)
    ensures
        r == applies(marker@, host@, text::views(extras@)),
{
    marker_applies_full(marker, host, extras)
}

/// Is a dependency with this marker installed where the variables are `env` and
/// its package was asked for with `extras`?
pub fn marker_applies_full(marker: &str, env: &MarkerEnv, extras: &[String]) -> (r: bool)
    ensures
        r == applies(marker@, env@, text::views(extras@)),
{
    let whole = chars::of(marker);
    let keep = !chars::contains(&whole, "extra");
    let tokens = match tokenize(marker) {
        Some(t) => t,
        None => {
            return keep;
        },
    };
    let parser = Parser { tokens: &tokens, env, extras };
    match parser.or_expr(0) {
        Some((value, p)) => {
            if p == tokens.len() {
                !matches!(value, Some(false))
            } else {
                keep
            }
        },
        None => keep,
    }
}

} // verus!
