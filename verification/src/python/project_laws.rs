//! What holds of the interpreters that projects ask for, of the launchers that are
//! written for packages, and of source distributions.
use vstd::prelude::*;

use crate::actions::ActionModel;
use crate::config::KongRules;
use crate::path_laws;
use crate::paths;
use crate::python::entry_points::ScriptModel;
use crate::python::entry_points::SiteEntry;
use crate::python::entry_points;
use crate::python::resolver;
use crate::python::runtime;
use crate::python::sdist::SourceEntry;
use crate::python::sdist;
use crate::python::venv;
use crate::python::version_request;
use crate::text;
use crate::text_laws;

verus! {

// ── Specifiers of the interpreter ───────────────────────────────────────────
/// The numbers of a version are in the order of versions.
proof fn codes_are_ordered(a: u32, b: u32, c: u32, d: u32, e: u32, f: u32)
    ensures
        (version_request::code(a as int, b as int, c as int) < version_request::code(
            d as int,
            e as int,
            f as int,
        )) == (a < d || (a == d && (b < e || (b == e && c < f)))),
{
    let k = 0x1_0000_0000int;
    let x = version_request::code(a as int, b as int, c as int);
    let y = version_request::code(d as int, e as int, f as int);
    assert(x == (a as int * k + b) * k + c) by (nonlinear_arith)
        requires
            x == a as int * 0x1_0000_0000_0000_0000 + b as int * 0x1_0000_0000 + c,
            k == 0x1_0000_0000int,
    ;
    assert(y == (d as int * k + e) * k + f) by (nonlinear_arith)
        requires
            y == d as int * 0x1_0000_0000_0000_0000 + e as int * 0x1_0000_0000 + f,
            k == 0x1_0000_0000int,
    ;
}

/// A version of two or three numbers, as it is written.
pub open spec fn written(a: u32, b: u32, c: Option<u32>) -> Seq<char> {
    let front = text::decimal(a as nat) + seq!['.'] + text::decimal(b as nat);
    match c {
        Some(c) => front + seq!['.'] + text::decimal(c as nat),
        None => front,
    }
}

proof fn number_is_plain(n: nat)
    ensures
        forall|i: int| 0 <= i < text::decimal(n).len() ==> text::decimal(n)[i] != '.',
        forall|i: int| 0 <= i < text::decimal(n).len() ==> text::is_digit(#[trigger] text::decimal(n)[i]),
        !text::decimal(n).contains('.'),
        text::decimal(n).len() > 0,
{
    text::decimal_is_read(n);
    let d = text::decimal(n);
    assert forall|i: int| 0 <= i < d.len() implies d[i] != '.' by {
        assert(text::is_digit(d[i]));
    }
}

/// Two or three numbers with points between them are a version; one, or four, or
/// anything else with them is not.
pub proof fn versions_have_two_or_three_numbers(a: u32, b: u32, c: Option<u32>)
    ensures
        version_request::parts_of(written(a, b, c)) == Some(
            match c {
                Some(c) => seq![a, b, c],
                None => seq![a, b],
            },
        ),
        version_request::parts_of(text::decimal(a as nat)) is None,
        version_request::parts_of(written(a, b, Some(a)) + seq!['.'] + text::decimal(b as nat))
            is None,
        version_request::parts_of(Seq::empty()) is None,
{
    let x = text::decimal(a as nat);
    let y = text::decimal(b as nat);
    number_is_plain(a as nat);
    number_is_plain(b as nat);
    text::decimal_is_read(a as nat);
    text::decimal_is_read(b as nat);
    text_laws::split_single(x, '.');
    text_laws::split_last(x, '.', y);
    let two = x + seq!['.'] + y;
    assert(text::split(two, '.') == seq![x].push(y));
    text_laws::split_last(two, '.', x);
    text_laws::split_last(two + seq!['.'] + x, '.', y);
    text_laws::split_single(Seq::<char>::empty(), '.');
    match c {
        Some(n) => {
            let z = text::decimal(n as nat);
            number_is_plain(n as nat);
            text::decimal_is_read(n as nat);
            text_laws::split_last(two, '.', z);
            let parts = text::split(written(a, b, c), '.');
            assert(parts == seq![x].push(y).push(z));
            assert(parts[0] == x && parts[1] == y && parts[2] == z);
            assert(version_request::parts_of(written(a, b, c))->0 =~= seq![a, b, n]);
        },
        None => {
            let parts = text::split(two, '.');
            assert(parts[0] == x && parts[1] == y);
            assert(version_request::parts_of(two)->0 =~= seq![a, b]);
        },
    }
}

proof fn written_form(a: u32, b: u32, c: Option<u32>)
    ensures
        written(a, b, c).len() > 0,
        text::is_digit(written(a, b, c)[0]),
        text::is_digit(written(a, b, c).last()),
{
    number_is_plain(a as nat);
    number_is_plain(b as nat);
    let x = text::decimal(a as nat);
    assert(text::is_digit(x[0]));
    assert(written(a, b, c)[0] == x[0]);
    match c {
        Some(n) => {
            number_is_plain(n as nat);
            let z = text::decimal(n as nat);
            assert(written(a, b, c).last() == z[z.len() - 1]);
            assert(text::is_digit(z[z.len() - 1]));
        },
        None => {
            let y = text::decimal(b as nat);
            assert(written(a, b, c).last() == y[y.len() - 1]);
            assert(text::is_digit(y[y.len() - 1]));
        },
    }
}

proof fn ends_are_kept(s: Seq<char>)
    requires
        s.len() > 0,
        !text::is_whitespace(s[0]),
        !text::is_whitespace(s.last()),
    ensures
        text::trim(s) == s,
{
}

proof fn operators()
    ensures
        "~="@ == seq!['~', '='],
        "=="@ == seq!['=', '='],
        "!="@ == seq!['!', '='],
        ">="@ == seq!['>', '='],
        "<="@ == seq!['<', '='],
        ">"@ == seq!['>'],
        "<"@ == seq!['<'],
{
    reveal_strlit("~=");
    reveal_strlit("==");
    reveal_strlit("!=");
    reveal_strlit(">=");
    reveal_strlit("<=");
    reveal_strlit(">");
    reveal_strlit("<");
    assert("~="@ =~= seq!['~', '=']);
    assert("=="@ =~= seq!['=', '=']);
    assert("!="@ =~= seq!['!', '=']);
    assert(">="@ =~= seq!['>', '=']);
    assert("<="@ =~= seq!['<', '=']);
    assert(">"@ =~= seq!['>']);
    assert("<"@ =~= seq!['<']);
}

/// The operators of clauses.
pub open spec fn is_op(op: Seq<char>) -> bool {
    op == "~="@ || op == "=="@ || op == "!="@ || op == ">="@ || op == "<="@ || op == ">"@ || op
        == "<"@
}

proof fn op_is_read(op: Seq<char>, rest: Seq<char>)
    requires
        is_op(op),
        rest.len() > 0,
        text::is_digit(rest[0]),
        !text::is_whitespace(rest.last()),
    ensures
        version_request::operator(op + rest) == Some(op),
        (op + rest).skip(op.len() as int) == rest,
        text::trim(op + rest) == op + rest,
{
    operators();
    let s = op + rest;
    text_laws::joined_ends(op, rest);
    assert(s[0] == op[0]);
    assert(s[op.len() as int] == rest[0]);
    assert(s.last() == rest.last());
    ends_are_kept(s);
    if op != "~="@ {
        text_laws::no_prefix("~="@, s, 0);
        if op != "=="@ {
            text_laws::no_prefix("=="@, s, 0);
            if op != "!="@ {
                text_laws::no_prefix("!="@, s, 0);
                if op != ">="@ {
                    text_laws::no_prefix(">="@, s, if op == ">"@ { 1 } else { 0 });
                    if op != "<="@ {
                        text_laws::no_prefix("<="@, s, if op == "<"@ { 1 } else { 0 });
                        if op != ">"@ {
                            text_laws::no_prefix(">"@, s, 0);
                        }
                    }
                }
            }
        }
    }
}

/// The version A.B.C is admitted by a clause.
pub open spec fn clause_admits(clause: Seq<char>, a: u32, b: u32, c: u32) -> bool {
    version_request::clause_range(clause) matches Some(r) && version_request::in_range(
        r,
        version_request::code(a as int, b as int, c as int),
    )
}

proof fn plain_clause(op: Seq<char>, d: u32, e: u32, f: Option<u32>)
    requires
        is_op(op),
    ensures
        version_request::clause_range(op + written(d, e, f)) == version_request::range_of(
            op,
            match f {
                Some(n) => seq![d, e, n],
                None => seq![d, e],
            },
            false,
        ),
{
    let w = written(d, e, f);
    versions_have_two_or_three_numbers(d, e, f);
    written_form(d, e, f);
    op_is_read(op, w);
    ends_are_kept(w);
    reveal_strlit(".*");
    text_laws::no_suffix(".*"@, w, 1);
}

/// A clause admits the versions that stand so to its own: `>=`, `>`, `<=`, `<`, `==`
/// and `!=` compare with it, a missing third number being zero; `~=D.E` admits what is
/// not below it with the same first number, and `~=D.E.F` what is not below it with the
/// same first two.
pub proof fn clauses_admit(d: u32, e: u32, f: Option<u32>, a: u32, b: u32, c: u32)
    requires
        d < u32::MAX,
        e < u32::MAX,
        f matches Some(n) ==> n < u32::MAX,
        a < u32::MAX,
    ensures
        ({
            let n = third(f);
            let below = a < d || (a == d && (b < e || (b == e && c < n)));
            let same = a == d && b == e && c == n;
            let w = written(d, e, f);
            &&& clause_admits(">="@ + w, a, b, c) == !below
            &&& clause_admits(">"@ + w, a, b, c) == (!below && !same)
            &&& clause_admits("<="@ + w, a, b, c) == (below || same)
            &&& clause_admits("<"@ + w, a, b, c) == below
            &&& clause_admits("=="@ + w, a, b, c) == same
            &&& clause_admits("!="@ + w, a, b, c) == !same
            &&& clause_admits("~="@ + w, a, b, c) == (!below && a == d && (f is Some ==> b == e))
        }),
{
    bounds_admit(d, e, f, a, b, c);
    sides_admit(d, e, f, a, b, c);
    points_admit(d, e, f, a, b, c);
    compatible_admits(d, e, f, a, b, c);
}

proof fn ops_differ()
    ensures
        "~="@ != "=="@ && "~="@ != "!="@ && "~="@ != ">="@ && "~="@ != "<="@ && "~="@ != ">"@
            && "~="@ != "<"@,
        "=="@ != "!="@ && "=="@ != ">="@ && "=="@ != "<="@ && "=="@ != ">"@ && "=="@ != "<"@,
        "!="@ != ">="@ && "!="@ != "<="@ && "!="@ != ">"@ && "!="@ != "<"@,
        ">="@ != "<="@ && ">="@ != ">"@ && ">="@ != "<"@,
        "<="@ != ">"@ && "<="@ != "<"@ && ">"@ != "<"@,
{
    operators();
    assert("~="@[0] == '~' && "=="@[0] == '=' && "!="@[0] == '!' && ">="@[0] == '>' && "<="@[0]
        == '<' && ">"@[0] == '>' && "<"@[0] == '<');
    assert(">="@.len() == 2 && ">"@.len() == 1 && "<="@.len() == 2 && "<"@.len() == 1);
}

/// The third number of a version, zero where it has none.
pub open spec fn third(f: Option<u32>) -> u32 {
    match f {
        Some(n) => n,
        None => 0,
    }
}

proof fn bounds_admit(d: u32, e: u32, f: Option<u32>, a: u32, b: u32, c: u32)
    requires
        a < u32::MAX,
    ensures
        ({
            let n = third(f);
            let below = a < d || (a == d && (b < e || (b == e && c < n)));
            let w = written(d, e, f);
            &&& clause_admits(">="@ + w, a, b, c) == !below
            &&& clause_admits("<"@ + w, a, b, c) == below
        }),
{
    ops_differ();
    plain_clause(">="@, d, e, f);
    plain_clause("<"@, d, e, f);
    codes_are_ordered(a, b, c, d, e, third(f));
    codes_are_ordered(a, b, c, u32::MAX, u32::MAX, u32::MAX);
    codes_are_ordered(a, b, c, 0, 0, 0);
    assert(version_request::code(0, 0, 0) == 0);
}

proof fn sides_admit(d: u32, e: u32, f: Option<u32>, a: u32, b: u32, c: u32)
    requires
        f matches Some(n) ==> n < u32::MAX,
        a < u32::MAX,
    ensures
        ({
            let n = third(f);
            let below = a < d || (a == d && (b < e || (b == e && c < n)));
            let same = a == d && b == e && c == n;
            let w = written(d, e, f);
            &&& clause_admits(">"@ + w, a, b, c) == (!below && !same)
            &&& clause_admits("<="@ + w, a, b, c) == (below || same)
        }),
{
    ops_differ();
    let n = third(f);
    plain_clause(">"@, d, e, f);
    plain_clause("<="@, d, e, f);
    codes_are_ordered(a, b, c, d, e, n);
    codes_are_ordered(a, b, c, d, e, (n + 1) as u32);
    codes_are_ordered(a, b, c, u32::MAX, u32::MAX, u32::MAX);
    codes_are_ordered(a, b, c, 0, 0, 0);
    assert(version_request::code(0, 0, 0) == 0);
}

proof fn points_admit(d: u32, e: u32, f: Option<u32>, a: u32, b: u32, c: u32)
    requires
        f matches Some(n) ==> n < u32::MAX,
        a < u32::MAX,
    ensures
        ({
            let n = third(f);
            let below = a < d || (a == d && (b < e || (b == e && c < n)));
            let same = a == d && b == e && c == n;
            let w = written(d, e, f);
            &&& clause_admits("=="@ + w, a, b, c) == same
            &&& clause_admits("!="@ + w, a, b, c) == !same
        }),
{
    ops_differ();
    let n = third(f);
    plain_clause("=="@, d, e, f);
    plain_clause("!="@, d, e, f);
    codes_are_ordered(a, b, c, d, e, n);
    codes_are_ordered(a, b, c, d, e, (n + 1) as u32);
    codes_are_ordered(a, b, c, u32::MAX, u32::MAX, u32::MAX);
    codes_are_ordered(a, b, c, 0, 0, 0);
    assert(version_request::code(0, 0, 0) == 0);
}

proof fn compatible_admits(d: u32, e: u32, f: Option<u32>, a: u32, b: u32, c: u32)
    requires
        d < u32::MAX,
        e < u32::MAX,
    ensures
        ({
            let n = third(f);
            let below = a < d || (a == d && (b < e || (b == e && c < n)));
            clause_admits("~="@ + written(d, e, f), a, b, c) == (!below && a == d && (f is Some
                ==> b == e))
        }),
{
    ops_differ();
    let n = third(f);
    plain_clause("~="@, d, e, f);
    codes_are_ordered(a, b, c, d, e, n);
    codes_are_ordered(a, b, c, d, (e + 1) as u32, 0);
    codes_are_ordered(a, b, c, (d + 1) as u32, 0, 0);
}

proof fn wild_clause(op: Seq<char>, d: u32, e: u32)
    requires
        is_op(op),
    ensures
        version_request::clause_range(op + (written(d, e, None) + ".*"@))
            == version_request::range_of(op, seq![d, e], true),
{
    let w = written(d, e, None);
    let s = w + ".*"@;
    reveal_strlit(".*");
    versions_have_two_or_three_numbers(d, e, None);
    written_form(d, e, None);
    assert(s[0] == w[0] && s.last() == '*');
    op_is_read(op, s);
    ends_are_kept(s);
    text_laws::joined_ends(w, ".*"@);
}

/// `==D.E.*` admits the versions that start with D.E, and `!=D.E.*` the others. No
/// other operator goes with a star.
pub proof fn star_clauses_admit(d: u32, e: u32, a: u32, b: u32, c: u32)
    requires
        e < u32::MAX,
    ensures
        ({
            let s = written(d, e, None) + ".*"@;
            &&& clause_admits("=="@ + s, a, b, c) == (a == d && b == e)
            &&& clause_admits("!="@ + s, a, b, c) == !(a == d && b == e)
            &&& version_request::clause_range(">="@ + s) is None
            &&& version_request::clause_range("<"@ + s) is None
            &&& version_request::clause_range("~="@ + s) is None
        }),
{
    ops_differ();
    wild_clause("=="@, d, e);
    wild_clause("!="@, d, e);
    wild_clause(">="@, d, e);
    wild_clause("<"@, d, e);
    wild_clause("~="@, d, e);
    codes_are_ordered(a, b, c, d, e, 0);
    codes_are_ordered(a, b, c, d, (e + 1) as u32, 0);
}

/// Where a specifier leaves one minor version, every version that its clauses admit is
/// of that, and there is one; where two versions of different minor ones are admitted
/// it leaves none.
pub proof fn left_minor_holds_all(spec: Seq<char>, a: u32, b: u32, c: u32, d: u32, e: u32, f: u32)
    requires
        version_request::admitted(
            text::split(spec, ','),
            version_request::code(a as int, b as int, c as int),
        ),
        version_request::admitted(
            text::split(spec, ','),
            version_request::code(d as int, e as int, f as int),
        ),
    ensures
        (a, b) != (d, e) ==> version_request::minor_left(spec) is None,
        version_request::minor_left(spec) is Some ==> version_request::minor_left(spec)->0
            == written(a, b, None),
{
    minor_of_code(a, b, c);
    minor_of_code(d, e, f);
    if version_request::minor_left(spec) is Some {
        let m = choose|m: int| version_request::leaves_minor(spec, m);
        assert(version_request::leaves_minor(spec, m));
        reveal_strlit(".");
        assert("."@ =~= seq!['.']);
    }
}

proof fn minor_of_code(a: u32, b: u32, c: u32)
    ensures
        ({
            let m = version_request::minor_of(version_request::code(a as int, b as int, c as int));
            m == a as int * 0x1_0000_0000 + b && m / 0x1_0000_0000 == a && m % 0x1_0000_0000 == b
        }),
{
    let x = version_request::code(a as int, b as int, c as int);
    let k = 0x1_0000_0000int;
    let m = a as int * k + b;
    assert(x == m * k + c) by (nonlinear_arith)
        requires
            x == a as int * 0x1_0000_0000_0000_0000 + b as int * 0x1_0000_0000 + c,
            m == a as int * k + b,
            k == 0x1_0000_0000int,
    ;
    assert(x / k == m);
    assert(m / k == a && m % k == b);
}

/// The version file of a project is asked first, then its `pyproject.toml`; without
/// either the latest version is wanted. In the version file the first line that is
/// neither blank nor a comment counts.
pub proof fn version_file_goes_first(
    dir: Seq<char>,
    a: u32,
    b: u32,
    rest: Seq<char>,
    comment: Seq<char>,
    pyproject: Option<Seq<char>>,
)
    requires
        !comment.contains('\n'),
    ensures
        version_request::project_asks(
            dir,
            Some(written(a, b, None) + seq!['\n'] + rest),
            pyproject,
        ) == Ok::<Seq<char>, version_request::RequestErrorModel>(written(a, b, None)),
        version_request::project_asks(
            dir,
            Some(seq!['#'] + comment + seq!['\n'] + (written(a, b, None) + seq!['\n'] + rest)),
            pyproject,
        ) == Ok::<Seq<char>, version_request::RequestErrorModel>(written(a, b, None)),
        version_request::project_asks(dir, None, None) == Ok::<
            Seq<char>,
            version_request::RequestErrorModel,
        >("latest"@),
{
    let w = written(a, b, None);
    let content = w + seq!['\n'] + rest;
    versions_have_two_or_three_numbers(a, b, None);
    written_form(a, b, None);
    ends_are_kept(w);
    assert(!w.contains('\n')) by {
        number_is_plain(a as nat);
        number_is_plain(b as nat);
        let x = text::decimal(a as nat);
        let y = text::decimal(b as nat);
        assert forall|i: int| 0 <= i < w.len() implies w[i] != '\n' by {
            if i < x.len() {
                assert(w[i] == x[i]);
                assert(text::is_digit(x[i]));
            } else if i > x.len() {
                assert(w[i] == y[i - x.len() - 1]);
                assert(text::is_digit(y[i - x.len() - 1]));
            }
        }
    }
    text_laws::lines_are_between_newlines(w, rest);
    let lines = text::lines(content);
    assert(lines[0] == w);
    assert(version_request::telling_line(lines) == Some(w));
    let note = seq!['#'] + comment;
    assert(!note.contains('\n')) by {
        assert forall|i: int| 0 <= i < note.len() implies note[i] != '\n' by {
            if i > 0 {
                assert(note[i] == comment[i - 1]);
                assert(comment.contains(comment[i - 1]));
            }
        }
    }
    text_laws::lines_are_between_newlines(note, content);
    let all = text::lines(note + seq!['\n'] + content);
    let first = all[0];
    assert(all.skip(1) =~= lines);
    assert(first.len() > 0 && first[0] == '#') by {
        if note.len() > 1 {
            assert(note.drop_last()[0] == '#');
        }
    }
    comment_is_no_version(first);
    assert(version_request::telling_line(all) == Some(w));
}

proof fn comment_is_no_version(line: Seq<char>)
    requires
        line.len() > 0,
        line[0] == '#',
    ensures
        text::trim(line).len() > 0 && text::trim(line)[0] == '#',
    decreases line.len(),
{
    assert(text::trim_start(line) == line);
    trim_end_keeps_first(line);
}

proof fn trim_end_keeps_first(s: Seq<char>)
    requires
        s.len() > 0,
        !text::is_whitespace(s[0]),
    ensures
        text::trim_end(s).len() > 0,
        text::trim_end(s)[0] == s[0],
    decreases s.len(),
{
    if text::is_whitespace(s.last()) {
        assert(s.len() > 1);
        trim_end_keeps_first(s.drop_last());
    }
}

// ── Interpreters ────────────────────────────────────────────────────────────
/// The version in the name of an interpreter's file is what stands between `cpython-`
/// and the first plus sign.
pub proof fn version_in_file_name(version: Seq<char>, rest: Seq<char>, other: Seq<char>)
    requires
        !version.contains('+'),
        !"cpython-"@.is_prefix_of(other),
    ensures
        runtime::asset_version("cpython-"@ + version + seq!['+'] + rest) == Some(version),
        runtime::asset_version(other) is None,
{
    let tail = version + seq!['+'] + rest;
    let s = "cpython-"@ + version + seq!['+'] + rest;
    assert(s =~= "cpython-"@ + tail);
    text_laws::joined_ends("cpython-"@, tail);
    text_laws::before_ends_at_first(version, '+', rest);
}

/// A file is for a platform where its name ends in `.tar.gz` and has the name of the
/// platform and `install_only` in it.
pub proof fn file_is_for_platform(front: Seq<char>, arch: Seq<char>, name: Seq<char>)
    ensures
        runtime::is_for(front + (arch + "-install_only"@) + ".tar.gz"@, arch + "-install_only"@),
        !".tar.gz"@.is_suffix_of(name) ==> !runtime::is_for(name, arch),
        !text::contains(name, arch) ==> !runtime::is_for(name, arch),
        !text::contains(name, "install_only"@) ==> !runtime::is_for(name, arch),
{
    let platform = arch + "-install_only"@;
    let s = front + platform + ".tar.gz"@;
    reveal_strlit("-install_only");
    reveal_strlit("install_only");
    text_laws::joined_ends(front + platform, ".tar.gz"@);
    text_laws::contains_part(front, platform, ".tar.gz"@);
    let before = front + arch + seq!['-'];
    text_laws::contains_part(before, "install_only"@, ".tar.gz"@);
    assert("-install_only"@ =~= seq!['-'] + "install_only"@);
    assert(s =~= before + "install_only"@ + ".tar.gz"@);
}

/// The files of the interpreters of the platforms.
pub proof fn platform_files(arch: Seq<char>)
    ensures
        runtime::asset_suffix("windows"@, "x86_64"@) == "x86_64-pc-windows-msvc-install_only"@,
        runtime::asset_suffix("linux"@, "x86_64"@) == "x86_64-unknown-linux-gnu-install_only"@,
        runtime::asset_suffix("macos"@, "x86_64"@) == "x86_64-apple-darwin-install_only"@,
        runtime::asset_suffix("macos"@, "aarch64"@) == "aarch64-apple-darwin-install_only"@,
        runtime::asset_suffix("linux"@, "aarch64"@) == "aarch64"@ + "-unknown-"@ + "linux"@
            + "-install_only"@,
        runtime::runtime_path(arch) == "python/runtime/"@ + arch,
{
    reveal_strlit("windows");
    reveal_strlit("linux");
    reveal_strlit("macos");
    reveal_strlit("x86_64");
    reveal_strlit("aarch64");
    assert("windows"@[0] == 'w' && "linux"@[0] == 'l' && "macos"@[0] == 'm');
    assert("x86_64"@[0] == 'x' && "aarch64"@[0] == 'a');
}

/// A request for an interpreter may have `python` before its number.
pub proof fn requests_for_interpreters(a: u32, b: u32, c: Option<u32>)
    ensures
        runtime::wanted(written(a, b, c)) == Some(
            match c {
                Some(c) => seq![a, b, c],
                None => seq![a, b],
            },
        ),
        runtime::wanted("python"@ + written(a, b, c)) == runtime::wanted(written(a, b, c)),
        runtime::wants_latest("latest"@),
        runtime::wants_latest(Seq::empty()),
        !runtime::wants_latest(written(a, b, c)),
{
    reveal_strlit("python");
    reveal_strlit("latest");
    let w = written(a, b, c);
    versions_have_two_or_three_numbers(a, b, c);
    written_form(a, b, c);
    ends_are_kept(w);
    text_laws::no_prefix("python"@, w, 0);
    assert(text::trim_start_text(w, "python"@) == w);
    text_laws::joined_ends("python"@, w);
    assert(text::trim_start_text("python"@ + w, "python"@) == w);
    assert("latest"@[0] == 'l');
}

/// What is chosen for a request has the first two numbers of the request. It has the
/// third too where the request names one and a file with it is there, and otherwise the
/// highest that there is.
pub proof fn chosen_interpreter(
    assets: Seq<runtime::GhAsset>,
    want: Seq<u32>,
    i: int,
    j: int,
)
    requires
        runtime::is_best(assets, want, i),
        0 <= j < assets.len(),
        runtime::numbers(assets[j]) matches Some(n) && n[0] == want[0] && n[1] == want[1],
    ensures
        ({
            let mine = runtime::numbers(assets[i])->0;
            let other = runtime::numbers(assets[j])->0;
            let patch = |n: Seq<u32>| if n.len() > 2 { n[2] } else { 0u32 };
            &&& mine[0] == want[0] && mine[1] == want[1]
            &&& want.len() > 2 && patch(other) == want[2] ==> patch(mine) == want[2]
            &&& !(want.len() > 2 && patch(mine) == want[2]) ==> patch(mine) >= patch(other)
            &&& patch(mine) == patch(other) ==> i <= j
        }),
{
    assert(runtime::is_candidate(assets, want, j));
    assert(runtime::is_better(assets, want, i, j));
}

/// The places of the interpreter in its directory, in the order in which they are
/// looked at.
pub proof fn interpreter_places(dir: Seq<char>, existing: Seq<Seq<char>>)
    ensures
        existing.contains("bin/python3"@) ==> paths::first_existing(
            dir,
            runtime::exe_candidates(false),
            existing,
        ) == Some(paths::joined(dir, "bin/python3"@)),
        !existing.contains("bin/python3"@) && existing.contains("bin/python"@)
            ==> paths::first_existing(dir, runtime::exe_candidates(false), existing) == Some(
            paths::joined(dir, "bin/python"@),
        ),
        existing.contains("python.exe"@) ==> paths::first_existing(
            dir,
            runtime::exe_candidates(true),
            existing,
        ) == Some(paths::joined(dir, "python.exe"@)),
        !existing.contains("python.exe"@) && existing.contains("Scripts/python.exe"@)
            ==> paths::first_existing(dir, runtime::exe_candidates(true), existing) == Some(
            paths::joined(dir, "Scripts/python.exe"@),
        ),
        existing.len() == 0 ==> paths::first_existing(dir, runtime::exe_candidates(true), existing)
            is None && paths::first_existing(dir, runtime::exe_candidates(false), existing) is None,
{
    let none = Seq::<Seq<char>>::empty();
    let unix = runtime::exe_candidates(false);
    let win = runtime::exe_candidates(true);
    path_laws::first_candidate_is_taken(
        dir,
        none,
        "bin/python3"@,
        seq!["bin/python"@],
        existing,
    );
    assert(none + seq!["bin/python3"@] + seq!["bin/python"@] =~= unix);
    if !existing.contains("bin/python3"@) {
        path_laws::first_candidate_is_taken(
            dir,
            seq!["bin/python3"@],
            "bin/python"@,
            none,
            existing,
        );
        assert(seq!["bin/python3"@] + seq!["bin/python"@] + none =~= unix);
    }
    path_laws::first_candidate_is_taken(
        dir,
        none,
        "python.exe"@,
        seq!["Scripts/python.exe"@],
        existing,
    );
    assert(none + seq!["python.exe"@] + seq!["Scripts/python.exe"@] =~= win);
    if !existing.contains("python.exe"@) {
        path_laws::first_candidate_is_taken(
            dir,
            seq!["python.exe"@],
            "Scripts/python.exe"@,
            none,
            existing,
        );
        assert(seq!["python.exe"@] + seq!["Scripts/python.exe"@] + none =~= win);
    }
    if existing.len() == 0 {
        path_laws::first_candidate_is_taken(dir, unix, "bin/python"@, none, existing);
        path_laws::first_candidate_is_taken(dir, win, "bin/python"@, none, existing);
    }
}

// ── Launchers ───────────────────────────────────────────────────────────────
/// A word of a script line: no spaces, no `=`, no `:`, and no sign that starts another
/// kind of line.
pub open spec fn is_script_word(s: Seq<char>) -> bool {
    &&& s.len() > 0
    &&& s[0] != '[' && s[0] != '#' && s[0] != ';'
    &&& forall|i: int|
        0 <= i < s.len() ==> !text::is_whitespace(#[trigger] s[i]) && s[i] != '=' && s[i] != ':'
}

/// The lines of a script: its name and what it calls, with spaces round the sign or
/// without, and with extras behind it or without.
pub proof fn script_is_read(name: Seq<char>, module: Seq<char>, attr: Seq<char>, extras: Seq<char>)
    requires
        is_script_word(name),
        is_script_word(module),
        is_script_word(attr),
    ensures
        entry_points::script_of(name + seq!['='] + (module + seq![':'] + attr)) == Some(
            ScriptModel { name, module, attr: Some(attr) },
        ),
        entry_points::script_of(
            name + seq![' '] + seq!['='] + (seq![' '] + (module + seq![':'] + attr)),
        ) == Some(ScriptModel { name, module, attr: Some(attr) }),
        entry_points::script_of(
            name + seq!['='] + (module + seq![':'] + attr + seq![' '] + extras),
        ) == Some(ScriptModel { name, module, attr: Some(attr) }),
        entry_points::script_of(name + seq!['='] + module) == Some(
            ScriptModel { name, module, attr: None },
        ),
        entry_points::script_of(name) is None,
{
    let target = module + seq![':'] + attr;
    word_is_kept(name);
    word_is_kept(module);
    word_is_kept(attr);
    assert(!name.contains('='));
    text_laws::before_ends_at_first(name, '=', target);
    text_laws::before_ends_at_first(name, '=', module);
    text_laws::before_ends_at_first(name, '=', target + seq![' '] + extras);
    let spaced = name + seq![' '];
    assert(!spaced.contains('=')) by {
        assert forall|i: int| 0 <= i < spaced.len() implies spaced[i] != '=' by {
            if i < name.len() {
                assert(spaced[i] == name[i]);
            }
        }
    }
    text_laws::before_ends_at_first(spaced, '=', seq![' '] + target);
    assert(text::trim(spaced) == name) by {
        assert(spaced[0] == name[0]);
        assert(spaced.last() == ' ');
        assert(spaced.drop_last() =~= name);
        assert(text::trim_end(name) == name);
    }
    assert forall|i: int| 0 <= i < target.len() implies !text::is_whitespace(
        #[trigger] target[i],
    ) by {
        if i < module.len() {
            assert(target[i] == module[i]);
        } else if i > module.len() {
            assert(target[i] == attr[i - module.len() - 1]);
        }
    }
    assert(target[0] == module[0]);
    assert(target.last() == attr.last());
    assert(!text::is_whitespace(attr[attr.len() - 1]));
    ends_are_kept(target);
    text_laws::words_are_between_spaces(target, ' ', extras);
    text_laws::words_are_between_spaces(module, ' ', extras);
    assert(!module.contains(':'));
    text_laws::before_ends_at_first(module, ':', attr);
    let back = seq![' '] + target;
    assert(back.skip(1) =~= target);
    assert(text::trim_start(target) == target);
    assert(text::trim_start(back) == target);
    assert(text::trim(back) == target);
    let with = target + seq![' '] + extras;
    trimmed_front(target, extras);
    assert(seq![target][0] == target);
    assert(seq![module][0] == module);
}

proof fn word_is_kept(s: Seq<char>)
    requires
        is_script_word(s),
    ensures
        text::trim(s) == s,
        !s.contains('='),
        !s.contains(':'),
        !text::is_whitespace(s[0]) && !text::is_whitespace(s.last()),
{
    assert(!text::is_whitespace(s[0]));
    assert(!text::is_whitespace(s[s.len() - 1]));
    ends_are_kept(s);
}

/// The first word of a text stays the first where its end is trimmed.
proof fn trimmed_front(w: Seq<char>, rest: Seq<char>)
    requires
        w.len() > 0,
        forall|i: int| 0 <= i < w.len() ==> !text::is_whitespace(#[trigger] w[i]),
    ensures
        ({
            let words = text::words(text::trim(w + seq![' '] + rest));
            words.len() > 0 && words[0] == w
        }),
{
    let s = w + seq![' '] + rest;
    assert(s[0] == w[0]);
    assert(text::trim_start(s) == s);
    trimmed_end_front(w, rest);
}

proof fn trimmed_end_front(w: Seq<char>, rest: Seq<char>)
    requires
        w.len() > 0,
        forall|i: int| 0 <= i < w.len() ==> !text::is_whitespace(#[trigger] w[i]),
    ensures
        ({
            let words = text::words(text::trim_end(w + seq![' '] + rest));
            words.len() > 0 && words[0] == w
        }),
    decreases rest.len(),
{
    let s = w + seq![' '] + rest;
    if rest.len() == 0 {
        assert(s.last() == ' ');
        assert(s.drop_last() =~= w);
        assert(!text::is_whitespace(w[w.len() - 1]));
        assert(text::trim_end(w) == w);
        text_laws::words_are_between_spaces(w, ' ', rest);
    } else if text::is_whitespace(s.last()) {
        assert(s.drop_last() =~= w + seq![' '] + rest.drop_last());
        trimmed_end_front(w, rest.drop_last());
    } else {
        text_laws::words_are_between_spaces(w, ' ', rest);
        assert(text::words(s) == seq![w] + text::words(rest));
    }
}

/// The heading of a section of scripts, in any case of its letters.
pub open spec fn is_script_heading(line: Seq<char>) -> bool {
    text::ascii_lower(line) == "[console_scripts]"@ || text::ascii_lower(line) == "[gui_scripts]"@
}

proof fn heading_is_read(line: Seq<char>)
    requires
        is_script_heading(line),
    ensures
        text::trim(line) == line,
        line[0] == '[',
        entry_points::section_of(line) matches Some(name) && entry_points::is_script_section(name),
{
    reveal_strlit("[console_scripts]");
    reveal_strlit("[gui_scripts]");
    reveal_strlit("console_scripts");
    reveal_strlit("gui_scripts");
    let low = text::ascii_lower(line);
    let n = line.len() as int;
    assert(low.len() == line.len());
    assert(low[0] == '[' && low[n - 1] == ']');
    assert(text::lower_char(line[0]) == '[' && text::lower_char(line[n - 1]) == ']');
    assert(line[0] == '[' && line[n - 1] == ']');
    ends_are_kept(line);
    let inner = line.subrange(1, n - 1);
    assert(inner.len() > 0);
    assert(text::lower_char(inner[0]) == low[1]);
    assert(text::lower_char(inner[inner.len() - 1]) == low[n - 2]);
    ends_are_kept(inner);
    assert(text::ascii_lower(inner) =~= low.subrange(1, n - 1));
    if low == "[console_scripts]"@ {
        assert(low.subrange(1, n - 1) =~= "console_scripts"@);
    } else {
        assert(low.subrange(1, n - 1) =~= "gui_scripts"@);
    }
}

/// In a section of scripts each line that is one gives a launcher, behind those of the
/// lines before it; in another section none does, and blank lines and comments give
/// none.
pub proof fn scripts_are_in_their_sections(
    before: Seq<Seq<char>>,
    heading: Seq<char>,
    other: Seq<char>,
    line: Seq<char>,
    s: ScriptModel,
)
    requires
        is_script_heading(heading),
        other.len() >= 2,
        other[0] == '[',
        other.last() == ']',
        !is_script_heading(other),
        !text::is_whitespace(other[1]),
        !text::is_whitespace(other[other.len() - 2]),
        line.len() > 0,
        text::trim(line) == line,
        line[0] != '[' && line[0] != '#' && line[0] != ';',
        entry_points::script_of(line) == Some(s),
    ensures
        ({
            let found = entry_points::scanned(before).0;
            &&& entry_points::scanned(before.push(heading)) == (found, true)
            &&& entry_points::scanned(before.push(heading).push(line)) == (found.push(s), true)
            &&& other.len() > 2 ==> entry_points::scanned(before.push(other)) == (found, false)
            &&& other.len() > 2 ==> entry_points::scanned(before.push(other).push(line)) == (
                found,
                false,
            )
            &&& entry_points::scanned(before.push(Seq::empty())) == entry_points::scanned(before)
        }),
{
    heading_is_read(heading);
    let found = entry_points::scanned(before).0;
    let a = before.push(heading);
    assert(a.drop_last() =~= before && a.last() == heading);
    assert(entry_points::scanned(a) == (found, true));
    assert(entry_points::section_of(line) is None);
    let b = a.push(line);
    assert(b.drop_last() =~= a && b.last() == line);
    assert(entry_points::scanned(b) == (found.push(s), true));
    let c = before.push(other);
    assert(c.drop_last() =~= before && c.last() == other);
    ends_are_kept(other);
    if other.len() > 2 {
        other_heading(other);
        assert(entry_points::scanned(c) == (found, false));
        let d = c.push(line);
        assert(d.drop_last() =~= c && d.last() == line);
        assert(entry_points::scanned(d) == (found, false));
    }
    let e = before.push(Seq::<char>::empty());
    assert(e.drop_last() =~= before && e.last() == Seq::<char>::empty());
    assert(text::trim(Seq::<char>::empty()) == Seq::<char>::empty());
}

proof fn other_heading(line: Seq<char>)
    requires
        line.len() > 2,
        line[0] == '[',
        line.last() == ']',
        !text::is_whitespace(line[1]),
        !text::is_whitespace(line[line.len() - 2]),
        !is_script_heading(line),
    ensures
        entry_points::section_of(line) matches Some(name) && !entry_points::is_script_section(name),
{
    let n = line.len() as int;
    let inner = line.subrange(1, n - 1);
    assert(inner[0] == line[1] && inner.last() == line[n - 2]);
    ends_are_kept(inner);
    let low = text::ascii_lower(inner);
    reveal_strlit("[console_scripts]");
    reveal_strlit("[gui_scripts]");
    reveal_strlit("console_scripts");
    reveal_strlit("gui_scripts");
    assert(text::ascii_lower(line) =~= seq!['['] + low + seq![']']) by {
        assert forall|i: int| 0 <= i < n implies text::lower_char(line[i]) == (seq!['['] + low
            + seq![']'])[i] by {
            if 0 < i < n - 1 {
                assert(inner[i - 1] == line[i]);
            }
        }
    }
    if low == "console_scripts"@ {
        assert(text::ascii_lower(line) =~= "[console_scripts]"@);
    }
    if low == "gui_scripts"@ {
        assert(text::ascii_lower(line) =~= "[gui_scripts]"@);
    }
}

/// A launcher imports the module's name before the first point of what it calls, and
/// calls it; where nothing is given it calls `main` in the module.
pub proof fn launcher_imports_and_calls(
    python: Seq<char>,
    name: Seq<char>,
    module: Seq<char>,
    first: Seq<char>,
    rest: Seq<char>,
)
    requires
        !first.contains('.'),
    ensures
        ({
            let whole = ScriptModel { name, module, attr: Some(first) };
            let inner = ScriptModel { name, module, attr: Some(first + seq!['.'] + rest) };
            let plain = ScriptModel { name, module, attr: None };
            &&& entry_points::import_line(whole) == "from "@ + module + " import "@ + first
            &&& entry_points::import_line(inner) == "from "@ + module + " import "@ + first
            &&& entry_points::import_line(plain) == "import "@ + module
            &&& entry_points::call_target(whole) == first
            &&& entry_points::call_target(inner) == first + seq!['.'] + rest
            &&& entry_points::call_target(plain) == module + ".main"@
            &&& ("#!"@ + text::replace_char(python, '\\', "/"@) + "\n"@).is_prefix_of(
                entry_points::launcher_text(python, whole),
            )
            &&& ("sys.exit("@ + first + "())\n"@).is_suffix_of(
                entry_points::launcher_text(python, whole),
            )
        }),
{
    text_laws::before_ends_at_first(first, '.', rest);
    let s = ScriptModel { name, module, attr: Some(first) };
    let all = entry_points::launcher_text(python, s);
    let exe = text::replace_char(python, '\\', "/"@);
    reveal_strlit("\n");
    reveal_strlit("sys.exit(");
    reveal_strlit("\n# -*- coding: utf-8 -*-\nimport re\nimport sys\n");
    reveal_strlit(
        "\nif __name__ == '__main__':\n    sys.argv[0] = re.sub(r'(-script\\.pyw?|\\.exe)?$', '', sys.argv[0])\n    sys.exit(",
    );
    let middle = "\n# -*- coding: utf-8 -*-\nimport re\nimport sys\n"@;
    let call =
        "\nif __name__ == '__main__':\n    sys.argv[0] = re.sub(r'(-script\\.pyw?|\\.exe)?$', '', sys.argv[0])\n    sys.exit("@;
    let head = "#!"@ + exe + "\n"@;
    let behind = middle.skip(1) + entry_points::import_line(s) + call + first + "())\n"@;
    assert(middle =~= "\n"@ + middle.skip(1));
    assert(all =~= head + behind);
    text_laws::joined_ends(head, behind);
    let k = call.len() - "sys.exit("@.len();
    assert(call.skip(k) =~= "sys.exit("@);
    assert(call =~= call.take(k) + call.skip(k));
    let front = "#!"@ + exe + middle + entry_points::import_line(s) + call.take(k);
    let end = "sys.exit("@ + first + "())\n"@;
    assert(all =~= front + end);
    text_laws::joined_ends(front, end);
}

/// Packages give the scripts of their `entry_points.txt`, in the order of the packages,
/// and directories that are no metadata of packages give none.
pub proof fn packages_give_scripts(before: Seq<SiteEntry>, e: SiteEntry)
    ensures
        ".dist-info"@.is_suffix_of(e.name@) && e.is_dir && e.entry_points is Some
            ==> entry_points::site_scripts(before.push(e)) == entry_points::site_scripts(before)
            + entry_points::scanned(text::lines(e.entry_points->0@)).0,
        !".dist-info"@.is_suffix_of(e.name@) || !e.is_dir || e.entry_points is None
            ==> entry_points::site_scripts(before.push(e)) == entry_points::site_scripts(before),
{
    let all = before.push(e);
    assert(all.drop_last() =~= before && all.last() == e);
    assert(entry_points::site_scripts(before) + Seq::<ScriptModel>::empty()
        =~= entry_points::site_scripts(before));
}

/// On Windows a script has a file for the interpreter and a batch file beside it;
/// elsewhere it has one file under its name, which is made executable.
pub proof fn launchers_are_written(
    bin: Seq<char>,
    python: Seq<char>,
    before: Seq<ScriptModel>,
    s: ScriptModel,
)
    ensures
        entry_points::all_launcher_files(bin, python, before.push(s), false)
            == entry_points::all_launcher_files(bin, python, before, false) + seq![
            ActionModel::Write(
                paths::joined(bin, s.name),
                entry_points::launcher_text(python, s),
            ),
            ActionModel::MakeExecutable(paths::joined(bin, s.name)),
        ],
        entry_points::all_launcher_files(bin, python, before.push(s), true)
            == entry_points::all_launcher_files(bin, python, before, true) + seq![
            ActionModel::Write(
                paths::joined(bin, s.name + "-script.py"@),
                entry_points::launcher_text(python, s),
            ),
            ActionModel::Write(
                paths::joined(bin, s.name + ".bat"@),
                entry_points::batch_text(python, s),
            ),
        ],
{
    let all = before.push(s);
    assert(all.drop_last() =~= before && all.last() == s);
}

// ── Source distributions ────────────────────────────────────────────────────
/// A package and a Python file can be imported, but not the files that build and test
/// the project; other directories and other files cannot.
pub proof fn what_can_be_imported(e: SourceEntry, before: Seq<SourceEntry>, stem: Seq<char>)
    ensures
        e.kind is Package ==> sdist::importable(before.push(e)) == sdist::importable(before).push(
            (e.name@, true),
        ),
        e.kind is File && e.name@ == stem + ".py"@ && e.name@ != "setup.py"@ && e.name@
            != "conftest.py"@ ==> sdist::importable(before.push(e)) == sdist::importable(
            before,
        ).push((e.name@, false)),
        e.kind is File && (e.name@ == "setup.py"@ || e.name@ == "conftest.py"@)
            ==> sdist::importable(before.push(e)) == sdist::importable(before),
        e.kind is File && !".py"@.is_suffix_of(e.name@) ==> sdist::importable(before.push(e))
            == sdist::importable(before),
        e.kind is Dir || e.kind is Other ==> sdist::importable(before.push(e))
            == sdist::importable(before),
        sdist::importable(Seq::empty()) == Seq::<(Seq<char>, bool)>::empty(),
{
    let all = before.push(e);
    assert(all.drop_last() =~= before && all.last() == e);
    text_laws::joined_ends(stem, ".py"@);
}

/// A directory with any of the three files of projects is one.
pub proof fn project_files_mark(before: Seq<Seq<char>>, behind: Seq<Seq<char>>, name: Seq<char>)
    ensures
        name == "setup.py"@ || name == "setup.cfg"@ || name == "pyproject.toml"@
            ==> sdist::marks_project(before + seq![name] + behind),
        !before.contains("setup.py"@) && !before.contains("setup.cfg"@) && !before.contains(
            "pyproject.toml"@,
        ) ==> !sdist::marks_project(before),
{
    let all = before + seq![name] + behind;
    assert(all[before.len() as int] == name);
    assert(all.contains(name));
}

/// The endings of sources that would have to be compiled, whatever the case of their
/// letters; Python files are not among them.
pub proof fn compiled_sources(dirs: Seq<Seq<char>>, stem: Seq<char>, end: Seq<char>)
    requires
        path_laws::are_names(dirs),
        stem.len() > 0,
        !stem.contains('/'),
        !end.contains('/'),
        !end.contains('.'),
        end.len() > 0,
    ensures
        ({
            let path = text::join(dirs.push(stem + seq!['.'] + end), "/"@);
            let low = text::ascii_lower(end);
            &&& low == "c"@ || low == "cpp"@ || low == "cc"@ || low == "cxx"@ || low == "pyx"@
                || low == "pxd"@ ==> sdist::is_compiled_source(path)
            &&& low == "py"@ || low == "txt"@ || low == "toml"@ || low == "h"@
                ==> !sdist::is_compiled_source(path)
        }),
{
    reveal_strlit("..");
    assert(end.contains(end[0]));
    let name = stem + seq!['.'] + end;
    assert(name.last() == end.last());
    assert(end.contains(end[end.len() - 1]));
    assert(name != ".."@);
    path_laws::extension_is_behind_last_point(dirs, stem, end);
    reveal_strlit("c");
    reveal_strlit("cpp");
    reveal_strlit("cc");
    reveal_strlit("cxx");
    reveal_strlit("pyx");
    reveal_strlit("pxd");
    reveal_strlit("py");
    reveal_strlit("txt");
    reveal_strlit("toml");
    reveal_strlit("h");
    assert("py"@.len() == 2 && "cc"@[0] == 'c' && "py"@[0] == 'p' && "txt"@[0] == 't' && "toml"@[0]
        == 't' && "h"@[0] == 'h');
    assert("c"@[0] == 'c' && "cpp"@[0] == 'c' && "cxx"@[0] == 'c' && "pyx"@.len() == 3
        && "pxd"@.len() == 3 && "pyx"@[0] == 'p' && "pxd"@[0] == 'p');
}

/// Sources below `src` are taken where there is something to import there, and those of
/// the project itself where there is not.
pub proof fn sources_below_src(root: Seq<char>, src: Seq<SourceEntry>)
    ensures
        sdist::importable(src).len() > 0 ==> sdist::import_base(root, Some(src)) == paths::joined(
            root,
            "src"@,
        ),
        sdist::importable(src).len() == 0 ==> sdist::import_base(root, Some(src)) == root,
        sdist::import_base(root, None) == root,
{
}

// ── Names of packages ───────────────────────────────────────────────────────
/// A package is known by its name in small letters with underscores: names that differ
/// in case, or in hyphens and underscores, are one.
pub proof fn names_are_one(a: Seq<char>, b: Seq<char>)
    requires
        text::is_ascii(a),
        text::is_ascii(b),
        a.len() == b.len(),
        forall|i: int|
            0 <= i < a.len() ==> text::lower_char(#[trigger] a[i]) == text::lower_char(b[i]) || (
            (a[i] == '-' || a[i] == '_') && (b[i] == '-' || b[i] == '_')),
    ensures
        resolver::key(a) == resolver::key(b),
{
    reveal_strlit("_");
    let x = text::ascii_lower(a);
    let y = text::ascii_lower(b);
    assert forall|i: int| 0 <= i < x.len() implies (if #[trigger] x[i] == '-' {
        '_'
    } else {
        x[i]
    }) == (if y[i] == '-' {
        '_'
    } else {
        y[i]
    }) by {
        assert(text::lower_char(a[i]) == text::lower_char(b[i]) || ((a[i] == '-' || a[i] == '_')
            && (b[i] == '-' || b[i] == '_')));
    }
    hyphens_replaced(x);
    hyphens_replaced(y);
    assert(text::replace_char(x, '-', "_"@) =~= text::replace_char(y, '-', "_"@));
}

proof fn hyphens_replaced(s: Seq<char>)
    ensures
        text::replace_char(s, '-', "_"@) == Seq::new(
            s.len(),
            |i: int|
                if s[i] == '-' {
                    '_'
                } else {
                    s[i]
                },
        ),
    decreases s.len(),
{
    reveal_strlit("_");
    let want = Seq::new(
        s.len(),
        |i: int|
            if s[i] == '-' {
                '_'
            } else {
                s[i]
            },
    );
    if s.len() > 0 {
        hyphens_replaced(s.drop_last());
        assert(text::replace_char(s, '-', "_"@) =~= want);
    } else {
        assert(s =~= want);
    }
}

// ── Releases of interpreters ────────────────────────────────────────────────
/// The files of releases are looked at in order, release by release, and only those for
/// the platform are.
pub proof fn files_of_releases(
    before: Seq<runtime::GhRelease>,
    r: runtime::GhRelease,
    assets: Seq<runtime::GhAsset>,
    a: runtime::GhAsset,
    platform: Seq<char>,
)
    ensures
        runtime::all_assets(before.push(r)) == runtime::all_assets(before) + r.assets@,
        runtime::all_assets(Seq::empty()) == Seq::<runtime::GhAsset>::empty(),
        runtime::is_for(a.name@, platform) ==> runtime::matching(assets.push(a), platform)
            == runtime::matching(assets, platform).push(a),
        !runtime::is_for(a.name@, platform) ==> runtime::matching(assets.push(a), platform)
            == runtime::matching(assets, platform),
        runtime::matching(Seq::empty(), platform) == Seq::<runtime::GhAsset>::empty(),
{
    assert(before.push(r).drop_last() =~= before);
    assert(assets.push(a).drop_last() =~= assets);
}

// ── Roots of source distributions ───────────────────────────────────────────
/// The sources are in the first directory that is marked as a project; where none is
/// marked, in the one whose name is least, and where there is no directory, at the top.
pub proof fn sources_are_below_root(
    r: Seq<char>,
    top: Seq<char>,
    dirs: Seq<sdist::TopDir>,
    k: int,
)
    requires
        sdist::is_root(r, top, dirs),
    ensures
        dirs.len() == 0 ==> r == top,
        0 <= k < dirs.len() && dirs[k].has_marker && (forall|j: int|
            0 <= j < k ==> !(#[trigger] dirs[j]).has_marker) ==> r == paths::joined(
            top,
            dirs[k].name@,
        ),
        0 <= k < dirs.len() && (forall|j: int|
            0 <= j < dirs.len() ==> !(#[trigger] dirs[j]).has_marker) && (forall|j: int|
            0 <= j < dirs.len() && j != k ==> text::less(dirs[k].name@, (#[trigger] dirs[j]).name@))
            ==> r == paths::joined(top, dirs[k].name@),
{
    if 0 <= k < dirs.len() && dirs[k].has_marker && (forall|j: int|
        0 <= j < k ==> !(#[trigger] dirs[j]).has_marker) {
        assert(sdist::is_first_marked(dirs, k));
        let i = choose|i: int| #[trigger]
            sdist::is_first_marked(dirs, i) && r == paths::joined(top, dirs[i].name@);
        assert(i == k) by {
            if i < k {
                assert(!dirs[i].has_marker);
            } else if k < i {
                assert(!dirs[k].has_marker);
            }
        }
    }
    if 0 <= k < dirs.len() && (forall|j: int|
        0 <= j < dirs.len() ==> !(#[trigger] dirs[j]).has_marker) && (forall|j: int|
        0 <= j < dirs.len() && j != k ==> text::less(dirs[k].name@, (#[trigger] dirs[j]).name@)) {
        assert forall|i: int| !#[trigger] sdist::is_first_marked(dirs, i) by {
            if 0 <= i < dirs.len() {
                assert(!dirs[i].has_marker);
            }
        }
        let i = choose|i: int| #[trigger]
            sdist::is_least(dirs, i) && r == paths::joined(top, dirs[i].name@);
        assert(i == k) by {
            if i != k {
                assert(text::less(dirs[k].name@, dirs[i].name@));
                assert(!text::less(dirs[k].name@, dirs[i].name@));
            }
        }
    }
}

/// What is installed of a source distribution: each item under its name, a package with
/// its files and another item as one file, then its metadata beside them.
pub proof fn items_are_installed(
    items: Seq<(Seq<char>, bool)>,
    base: Seq<char>,
    store: Seq<char>,
    name: Seq<char>,
    version: Seq<char>,
    deps: Seq<Seq<char>>,
    i: int,
)
    requires
        0 <= i < items.len(),
    ensures
        ({
            let steps = sdist::install_steps(items, base, store, name, version, deps);
            let to = paths::joined(store, items[i].0);
            let from = paths::joined(base, items[i].0);
            let info = paths::joined(store, name + "-"@ + version + ".dist-info"@);
            let n = items.len() as int;
            &&& steps.len() == n + 3
            &&& steps[0] == ActionModel::CreateDir(store)
            &&& items[i].1 ==> steps[i + 1] == ActionModel::CopyFiles(to, from)
            &&& !items[i].1 ==> steps[i + 1] == ActionModel::CopyFile(to, from)
            &&& steps[n + 1] == ActionModel::CreateDir(info)
            &&& steps[n + 2] == ActionModel::Write(
                paths::joined(info, "METADATA"@),
                sdist::metadata(name, version, deps),
            )
        }),
{
}

/// The items come from the directory `src` where something in it can be imported, and
/// from the root otherwise.
pub proof fn items_are_below_base(t: sdist::SdistTree)
    ensures
        t.src_entries is None ==> sdist::base_of(t) == t.root@ && sdist::base_entries(t)
            == t.entries@,
        t.src_entries matches Some(v) ==> (sdist::importable(v@).len() > 0 ==> sdist::base_of(t)
            == paths::joined(t.root@, "src"@) && sdist::base_entries(t) == v@),
        t.src_entries matches Some(v) ==> (sdist::importable(v@).len() == 0 ==> sdist::base_of(t)
            == t.root@ && sdist::base_entries(t) == t.entries@),
{
}

/// An environment that is replaced is moved aside within its directory, and the
/// interpreter of a project is the one that its rules name, in the store.
pub proof fn places_of_environments(
    dir: Seq<char>,
    pid: nat,
    rules: KongRules,
    store_root: Seq<char>,
)
    requires
        dir.len() > 0,
        dir.last() != '/',
    ensures
        venv::aside_path(paths::joined(dir, ".venv"@), pid) == paths::joined(
            dir,
            ".venv.kong-old-"@ + text::decimal(pid),
        ),
        rules.runtimes is None ==> venv::runtime_dir(rules, store_root) is None,
        rules.runtimes matches Some(s) ==> (s.python is None ==> venv::runtime_dir(
            rules,
            store_root,
        ) is None),
        rules.runtimes matches Some(s) ==> (s.python matches Some(e) ==> venv::runtime_dir(
            rules,
            store_root,
        ) == Some(paths::joined(store_root, e.store_path@))),
{
    reveal_strlit(".venv");
    assert(!".venv"@.contains('/'));
    path_laws::joined_is_taken_apart(dir, ".venv"@);
}

/// On Windows a command is a batch file that runs the interpreter on the script of the
/// same name beside it, with all the arguments.
pub proof fn batch_file_runs_script(python: Seq<char>, s: ScriptModel)
    ensures
        entry_points::batch_text(python, s) == "@echo off\r\n"@ + ("\""@ + text::replace_char(
            python,
            '/',
            "\\"@,
        ) + "\" \"%~dp0"@ + s.name + "-script.py\" %*\r\n"@),
{
    reveal_strlit("@echo off\r\n\"");
    reveal_strlit("@echo off\r\n");
    reveal_strlit("\"");
    assert("@echo off\r\n\""@ =~= "@echo off\r\n"@ + "\""@);
    assert(entry_points::batch_text(python, s) =~= "@echo off\r\n"@ + ("\""@ + text::replace_char(
        python,
        '/',
        "\\"@,
    ) + "\" \"%~dp0"@ + s.name + "-script.py\" %*\r\n"@));
}

/// A version is admitted by a list of clauses where each of them admits it.
pub proof fn all_clauses_admit(before: Seq<Seq<char>>, clause: Seq<char>, x: int)
    ensures
        version_request::admitted(before.push(clause), x) == (version_request::admitted(before, x)
            && version_request::in_range(version_request::clause_range(clause)->0, x)),
        version_request::admitted(Seq::empty(), x) == (0 <= x < version_request::top()),
{
    let all = before.push(clause);
    if version_request::admitted(all, x) {
        assert(all[before.len() as int] == clause);
        assert forall|i: int| 0 <= i < before.len() implies version_request::in_range(
            version_request::clause_range(#[trigger] before[i])->0,
            x,
        ) by {
            assert(all[i] == before[i]);
        }
    }
}

/// An environment has the directory of its packages, its configuration and its
/// interpreters: on Unix two links to the runtime, on Windows the runtime's own files.
pub proof fn environment_is_laid_out(
    dir: Seq<char>,
    version: Seq<char>,
    exe: Seq<char>,
    windowed: bool,
)
    ensures
        ({
            let unix = venv::frame_steps(dir, version, Some(exe), windowed, false);
            let windows = venv::frame_steps(dir, version, Some(exe), true, true);
            let none = venv::frame_steps(dir, version, None, windowed, false);
            let bin = paths::joined(dir, "bin"@);
            let scripts = paths::joined(dir, "Scripts"@);
            let cfg = ActionModel::Write(
                paths::joined(dir, "pyvenv.cfg"@),
                venv::cfg_text(paths::parent_part(exe), version),
            );
            &&& unix.len() == 6
            &&& unix[0] == ActionModel::CreateDir(venv::site_path(dir, version, false))
            &&& unix[1] == cfg
            &&& unix[2] == ActionModel::CreateDir(bin)
            &&& unix[3] == ActionModel::Symlink(paths::joined(bin, "python3"@), exe)
            &&& unix[4] == ActionModel::Symlink(paths::joined(bin, "python"@), exe)
            &&& unix[5] is WriteNew && unix[5]->WriteNew_0 == paths::joined(bin, "activate"@)
            &&& windows.len() == 7
            &&& windows[0] == ActionModel::CreateDir(venv::site_path(dir, version, true))
            &&& windows[1] == cfg
            &&& windows[2] == ActionModel::CreateDir(scripts)
            &&& windows[3] == ActionModel::PlaceFile(paths::joined(scripts, "python.exe"@), exe)
            &&& windows[4] == ActionModel::PlaceFile(
                paths::joined(scripts, "pythonw.exe"@),
                paths::joined(paths::parent_part(exe), "pythonw.exe"@),
            )
            &&& windows[5] is WriteNew && windows[5]->WriteNew_0 == paths::joined(
                scripts,
                "Activate.ps1"@,
            )
            &&& windows[6] is WriteNew && windows[6]->WriteNew_0 == paths::joined(
                scripts,
                "activate.bat"@,
            )
            &&& none.len() == 4
            &&& venv::frame_steps(dir, version, Some(exe), false, true).len() == 6
        }),
{
}

/// The metadata that is written of a source distribution names it, its version and each
/// of its requirements on a line of its own.
pub proof fn metadata_names_requirements(
    name: Seq<char>,
    version: Seq<char>,
    before: Seq<Seq<char>>,
    dep: Seq<char>,
)
    ensures
        sdist::metadata(name, version, before.push(dep)) == sdist::metadata(name, version, before)
            + ("Requires-Dist: "@ + text::trim(dep) + "\n"@),
        sdist::metadata(name, version, Seq::empty()) == "Metadata-Version: 2.1\nName: "@ + name
            + "\nVersion: "@ + version + "\n"@,
{
    assert(before.push(dep).drop_last() =~= before);
    assert(sdist::metadata(name, version, before.push(dep)) =~= sdist::metadata(
        name,
        version,
        before,
    ) + ("Requires-Dist: "@ + text::trim(dep) + "\n"@));
    assert(sdist::metadata(name, version, Seq::empty()) =~= "Metadata-Version: 2.1\nName: "@ + name
        + "\nVersion: "@ + version + "\n"@);
}

/// The versions that are offered are those of the files, each once, in the order in
/// which they first occur.
pub proof fn offered_versions_are_listed(
    before: Seq<runtime::GhAsset>,
    a: runtime::GhAsset,
)
    ensures
        ({
            let front = runtime::versions(before);
            let all = runtime::versions(before.push(a));
            match runtime::asset_version(a.name@) {
                Some(v) => if front.contains(v) {
                    all == front
                } else {
                    all == front.push(v)
                },
                None => all == front,
            }
        }),
        runtime::versions(Seq::empty()).len() == 0,
{
    assert(before.push(a).drop_last() =~= before);
}

} // verus!
