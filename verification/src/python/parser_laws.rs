//! What holds of the dependencies that manifests and lock files of Python projects
//! give.
use vstd::prelude::*;

use crate::doc::DocModel;
use crate::doc;
use crate::paths;
use crate::python::client::DepModel;
use crate::python::client;
use crate::python::markers::EnvModel;
use crate::python::markers;
use crate::python::parser::ManifestError;
use crate::python::parser::ProjectFiles;
use crate::python::parser::PythonDepModel;
use crate::python::parser;
use crate::python::pep440::Op;
use crate::python::pep440;
use crate::python::version_laws;
use crate::text;
use crate::text_laws;

verus! {

// ── Exact versions ──────────────────────────────────────────────────────────
/// Only `==` and a version, by itself, is an exact version. Another operator is none,
/// and neither is a set of two clauses.
pub proof fn only_equality_pins(op: Op, w: Seq<char>, s: Seq<char>)
    requires
        op == Op::Eq || op == Op::Ne || op == Op::Ge || op == Op::Le || op == Op::Gt || op
            == Op::Lt || op == Op::Compatible,
        !w.contains(','),
        !w.contains('+'),
        pep440::parse(w) is Some,
        text::trim(w) == w,
    ensures
        client::pin(pep440::clauses(version_laws::op_text(op) + w)) == (if op == Op::Eq {
            Some(w)
        } else {
            None
        }),
        pep440::clauses(s).len() > 0 ==> client::pin(
            pep440::clauses(s + ","@ + (version_laws::op_text(op) + w)),
        ) is None,
        client::pin(pep440::clauses(Seq::empty())) is None,
{
    assert forall|i: int| 0 <= i < w.len() implies w[i] != ',' by {
        assert(w.contains(w[i]));
    }
    version_laws::clause_is_read(op, w);
    let o = version_laws::op_text(op);
    let t = o + w;
    assert(!t.contains(',')) by {
        reveal_strlit("==");
        reveal_strlit("!=");
        reveal_strlit(">=");
        reveal_strlit("<=");
        reveal_strlit(">");
        reveal_strlit("<");
        reveal_strlit("~=");
        assert forall|i: int| 0 <= i < t.len() implies t[i] != ',' by {
            if i < o.len() {
                assert(t[i] == o[i]);
            } else {
                assert(t[i] == w[i - o.len()]);
            }
        }
    }
    version_laws::comma_adds_clauses(s, t);
    let none = Seq::<char>::empty();
    text_laws::split_single(none, ',');
    let parts = text::split(none, ',');
    assert(parts =~= seq![none]);
    assert(parts.drop_last() =~= Seq::<Seq<char>>::empty());
    assert(text::trim(none) == none);
    reveal_strlit("===");
    reveal_strlit("==");
    reveal_strlit("!=");
    reveal_strlit(">=");
    reveal_strlit("<=");
    reveal_strlit("~=");
    reveal_strlit(">");
    reveal_strlit("<");
    assert(pep440::operator(none) is None);
    assert(pep440::clauses(none).len() == 0) by {
        assert(pep440::clauses_among(parts.drop_last()).len() == 0);
    }
}

// ── Requirements ────────────────────────────────────────────────────────────
/// A name of a package: ASCII letters, digits, hyphens, underscores and points, with a
/// letter or a digit first.
pub open spec fn is_package_name(name: Seq<char>) -> bool {
    &&& name.len() > 0
    &&& text::is_ascii_alnum(name[0])
    &&& forall|i: int|
        0 <= i < name.len() ==> text::is_ascii_alnum(#[trigger] name[i]) || name[i] == '-'
            || name[i] == '_' || name[i] == '.'
}

/// Extras behind a name: none, or names and commas in brackets.
pub open spec fn is_extras(s: Seq<char>) -> bool {
    s.len() == 0 || {
        &&& s.len() >= 2
        &&& s[0] == '['
        &&& s.last() == ']'
        &&& forall|i: int|
            0 < i < s.len() - 1 ==> text::is_ascii_alnum(#[trigger] s[i]) || s[i] == '-' || s[i]
                == '_' || s[i] == '.'
    }
}

/// A specifier behind a name: none, or a text that starts with an operator and ends
/// with no space.
pub open spec fn is_specifier(s: Seq<char>) -> bool {
    s.len() == 0 || {
        &&& s[0] == '=' || s[0] == '!' || s[0] == '<' || s[0] == '>' || s[0] == '~'
        &&& !text::is_whitespace(s.last())
        &&& !s.contains(';')
    }
}

proof fn find_any_at(a: Seq<char>, b: Seq<char>, set: Seq<char>, i: int)
    requires
        0 <= i <= a.len(),
        forall|k: int| 0 <= k < a.len() ==> !set.contains(#[trigger] a[k]),
        b.len() > 0 ==> set.contains(b[0]),
    ensures
        text::find_any_from(a + b, set, i) == (if b.len() == 0 {
            None
        } else {
            Some(a.len() as int)
        }),
    decreases a.len() - i,
{
    let s = a + b;
    if i < a.len() {
        assert(s[i] == a[i]);
        find_any_at(a, b, set, i + 1);
    } else if b.len() > 0 {
        assert(s[i] == b[0]);
    }
}

proof fn ends_are_kept(s: Seq<char>)
    requires
        s.len() > 0,
        !text::is_whitespace(s[0]),
        !text::is_whitespace(s.last()),
    ensures
        text::trim(s) == s,
{
}

proof fn name_ends_are(c: char)
    ensures
        parser::name_ends().contains(c) == (c == '=' || c == '!' || c == '<' || c == '>' || c
            == '~' || c == ' ' || c == '\t'),
{
    let e = parser::name_ends();
    assert(e.len() == 7);
    assert(e[0] == '=' && e[1] == '!' && e[2] == '<' && e[3] == '>' && e[4] == '~' && e[5] == ' '
        && e[6] == '\t');
}

/// A requirement by its parts: the name, its extras, its specifier.
pub open spec fn requirement_text(name: Seq<char>, extras: Seq<char>, spec: Seq<char>) -> Seq<
    char,
> {
    name + extras + spec
}

proof fn requirement_form(name: Seq<char>, extras: Seq<char>, spec: Seq<char>)
    requires
        is_package_name(name),
        is_extras(extras),
        is_specifier(spec),
    ensures
        ({
            let s = requirement_text(name, extras, spec);
            let n = (name + extras).len() as int;
            &&& text::trim(s) == s
            &&& !s.contains(';')
            &&& s.take(n) == name + extras
            &&& s.skip(n) == spec
            &&& text::trim(name + extras) == name + extras
            &&& client::without_extras(name + extras) == name
            &&& text::trim(spec) == spec
            &&& s.len() > 0
            &&& s[0] == name[0]
        }),
{
    let a = name + extras;
    let s = requirement_text(name, extras, spec);
    assert forall|i: int| 0 <= i < name.len() implies !text::is_whitespace(#[trigger] name[i])
        && name[i] != ';' && name[i] != '[' by {
        assert(text::is_ascii_alnum(name[i]) || name[i] == '-' || name[i] == '_' || name[i]
            == '.');
    }
    assert forall|i: int| 0 <= i < extras.len() implies extras[i] != ';' && !text::is_whitespace(
        #[trigger] extras[i],
    ) by {
        if 0 < i < extras.len() - 1 {
            assert(text::is_ascii_alnum(extras[i]) || extras[i] == '-' || extras[i] == '_'
                || extras[i] == '.');
        }
    }
    assert(!s.contains(';')) by {
        assert forall|i: int| 0 <= i < s.len() implies s[i] != ';' by {
            if i < name.len() {
                assert(s[i] == name[i]);
            } else if i < a.len() {
                assert(s[i] == extras[i - name.len()]);
            } else {
                assert(s[i] == spec[i - a.len()]);
                assert(spec.contains(spec[i - a.len()]));
            }
        }
    }
    assert(s[0] == name[0] && a[0] == name[0]);
    assert(!text::is_whitespace(s.last())) by {
        if spec.len() > 0 {
            assert(s.last() == spec.last());
        } else if extras.len() > 0 {
            assert(s.last() == extras[extras.len() - 1]);
        } else {
            assert(s.last() == name[name.len() - 1]);
        }
    }
    assert(!text::is_whitespace(a.last())) by {
        if extras.len() > 0 {
            assert(a.last() == extras[extras.len() - 1]);
        } else {
            assert(a.last() == name[name.len() - 1]);
        }
    }
    ends_are_kept(s);
    ends_are_kept(a);
    ends_are_kept(name);
    text_laws::joined_ends(a, spec);
    if spec.len() > 0 {
        ends_are_kept(spec);
    }
    assert(!name.contains('['));
    if extras.len() > 0 {
        let rest = extras.skip(1);
        assert(a =~= name + seq!['['] + rest);
        text_laws::before_ends_at_first(name, '[', rest);
        text_laws::find_present(a, '[', 0);
        assert(text::find(a, seq!['[']) == Some(name.len() as int)) by {
            assert forall|k: int| 0 <= k < name.len() implies name[k] != '[' by {}
            text_laws::find_absent(name, '[', 0);
            text_laws::find_kept(name, extras, '[', 0);
        }
        assert(a.take(name.len() as int) =~= name);
    } else {
        assert(a =~= name);
        assert forall|k: int| 0 <= k < name.len() implies name[k] != '[' by {}
        text_laws::find_absent(name, '[', 0);
    }
}

/// A requirement of a name, extras and a specifier, with a marker behind it or without,
/// is the package of that name in its normal form, whatever the extras. It has the
/// version of the specifier where that is an exact one, and the specifier as it stands
/// where it is not.
pub proof fn requirement_is_read(
    name: Seq<char>,
    extras: Seq<char>,
    spec: Seq<char>,
    marker: Seq<char>,
)
    requires
        is_package_name(name),
        is_extras(extras),
        is_specifier(spec),
    ensures
        ({
            let s = requirement_text(name, extras, spec);
            let exact = client::pin(pep440::clauses(spec));
            &&& parser::requirement(s) == Some(
                PythonDepModel {
                    name: parser::normal_name(name),
                    version: if exact is Some {
                        exact->0
                    } else {
                        Seq::empty()
                    },
                    spec: if exact is Some {
                        Seq::empty()
                    } else {
                        spec
                    },
                },
            )
            &&& parser::requirement(s + ";"@ + marker) == parser::requirement(s)
        }),
{
    let s = requirement_text(name, extras, spec);
    let a = name + extras;
    requirement_form(name, extras, spec);
    reveal_strlit(";");
    assert(";"@ =~= seq![';']);
    text_laws::before_ends_at_first(s, ';', marker);
    let ends = parser::name_ends();
    assert forall|k: int| 0 <= k < a.len() implies !ends.contains(#[trigger] a[k]) by {
        name_ends_are(a[k]);
        if k < name.len() {
            assert(a[k] == name[k]);
        } else {
            let j = k - name.len();
            assert(a[k] == extras[j]);
            if 0 < j < extras.len() - 1 {
                assert(text::is_ascii_alnum(extras[j]) || extras[j] == '-' || extras[j] == '_'
                    || extras[j] == '.');
            }
        }
    }
    if spec.len() > 0 {
        name_ends_are(spec[0]);
    }
    find_any_at(a, spec, ends, 0);
    if spec.len() == 0 {
        assert(s =~= a);
        assert(s.take(s.len() as int) =~= s);
        assert(s.skip(s.len() as int) =~= Seq::<char>::empty());
        assert(spec =~= Seq::<char>::empty());
        assert(text::trim(Seq::<char>::empty()) == Seq::<char>::empty());
    }
}

/// In a file of requirements each line is read by itself, in the order of the lines.
pub proof fn lines_are_read_in_order(a: Seq<Seq<char>>, b: Seq<Seq<char>>)
    ensures
        parser::requirement_lines(a + b) == parser::requirement_lines(a)
            + parser::requirement_lines(b),
    decreases b.len(),
{
    if b.len() == 0 {
        assert(a + b =~= a);
        assert(parser::requirement_lines(a) + Seq::<PythonDepModel>::empty()
            =~= parser::requirement_lines(a));
    } else {
        lines_are_read_in_order(a, b.drop_last());
        assert((a + b).drop_last() =~= a + b.drop_last());
        assert((a + b).last() == b.last());
        if let Some(d) = parser::requirement_line(b.last()) {
            assert((parser::requirement_lines(a) + parser::requirement_lines(b.drop_last())).push(
                d,
            ) =~= parser::requirement_lines(a) + parser::requirement_lines(b.drop_last()).push(d));
        }
    }
}

/// A line that is a requirement gives it, with a comment behind it or without. A line
/// that is blank, a comment, an option, an address or a path gives nothing.
pub proof fn lines_of_requirements(
    name: Seq<char>,
    extras: Seq<char>,
    spec: Seq<char>,
    comment: Seq<char>,
    other: Seq<char>,
)
    requires
        is_package_name(name),
        is_extras(extras),
        is_specifier(spec),
        !spec.contains('#'),
        !spec.contains(':'),
        other.len() > 0 ==> !text::is_whitespace(other[0]) && !text::is_whitespace(other.last()),
        !text::contains(other, " #"@),
    ensures
        ({
            let s = requirement_text(name, extras, spec);
            &&& parser::requirement_lines(seq![s]).len() == 1
            &&& parser::requirement_lines(seq![s])[0] == parser::requirement(s)->0
            &&& parser::requirement_lines(seq![s + " #"@ + comment])
                == parser::requirement_lines(seq![s])
            &&& other.len() == 0 || other[0] == '#' || other[0] == '-' || other[0] == '.'
                || other[0] == '/' || text::contains(other, "://"@) ==> parser::requirement_lines(
                seq![other],
            ).len() == 0
        }),
{
    let s = requirement_text(name, extras, spec);
    requirement_form(name, extras, spec);
    requirement_is_read(name, extras, spec, Seq::empty());
    assert forall|i: int| 0 <= i < s.len() implies s[i] != '#' && s[i] != ':' by {
        let a = name + extras;
        if i < name.len() {
            assert(s[i] == name[i]);
        } else if i < a.len() {
            let j = i - name.len();
            assert(s[i] == extras[j]);
            if 0 < j < extras.len() - 1 {
                assert(text::is_ascii_alnum(extras[j]) || extras[j] == '-' || extras[j] == '_'
                    || extras[j] == '.');
            }
        } else {
            assert(s[i] == spec[i - a.len()]);
            assert(spec.contains(spec[i - a.len()]));
        }
    }
    reveal_strlit(" #");
    reveal_strlit("://");
    text_laws::find_is_first(s, " #"@);
    if text::contains(s, " #"@) {
        let k = text::find(s, " #"@)->0;
        assert(s.subrange(k, k + 2)[1] == s[k + 1]);
    }
    text_laws::find_is_first(s, "://"@);
    if text::contains(s, "://"@) {
        let k = text::find(s, "://"@)->0;
        assert(s.subrange(k, k + 3)[0] == s[k]);
    }
    let with = s + " #"@ + comment;
    text_laws::find_is_first(with, " #"@);
    let n = s.len() as int;
    assert(with.subrange(n, n + 2) =~= " #"@);
    let k = text::find(with, " #"@)->0;
    if k < n {
        assert(with.subrange(k, k + 2)[1] == with[k + 1]);
        if k + 1 < n {
            assert(with[k + 1] == s[k + 1]);
        } else {
            assert(with[k + 1] == ' ');
        }
        assert(false);
    }
    assert(with.take(n) =~= s);
    single_line(s);
    single_line(with);
    single_line(other);
    if other.len() > 0 {
        ends_are_kept(other);
    } else {
        assert(text::trim(other) == other);
    }
    assert(text::is_ascii_alnum(s[0]));
}

proof fn single_line(line: Seq<char>)
    ensures
        parser::requirement_lines(seq![line]) == match parser::requirement_line(line) {
            Some(d) => seq![d],
            None => Seq::<PythonDepModel>::empty(),
        },
{
    let one = seq![line];
    assert(one.drop_last() =~= Seq::<Seq<char>>::empty());
    assert(parser::requirement_lines(one.drop_last()) =~= Seq::<PythonDepModel>::empty());
    if let Some(d) = parser::requirement_line(line) {
        assert(Seq::<PythonDepModel>::empty().push(d) =~= seq![d]);
    }
}

// ── What packages require ───────────────────────────────────────────────────
proof fn name_run_of(a: Seq<char>, b: Seq<char>)
    requires
        forall|i: int| 0 <= i < a.len() ==> client::is_name_char(#[trigger] a[i]),
        b.len() > 0 ==> !client::is_name_char(b[0]),
    ensures
        client::name_run(a + b) == a.len(),
    decreases a.len(),
{
    if a.len() == 0 {
        assert(a + b =~= b);
    } else {
        assert(client::is_name_char(a[0]));
        assert((a + b).skip(1) =~= a.skip(1) + b);
        name_run_of(a.skip(1), b);
    }
}

/// What a package requires without a marker is a dependency with the name as it
/// stands, its specifier, and the version of that where it is an exact one. With a
/// marker it is the same where the marker applies, and nothing where it does not. What
/// an extra brings is left out.
pub proof fn required_package_is_read(
    name: Seq<char>,
    extras: Seq<char>,
    spec: Seq<char>,
    marker: Seq<char>,
    env: EnvModel,
)
    requires
        is_package_name(name),
        is_extras(extras),
        is_specifier(spec),
        !text::contains(requirement_text(name, extras, spec), "extra =="@),
        !text::contains(requirement_text(name, extras, spec), "extra=="@),
    ensures
        ({
            let s = requirement_text(name, extras, spec);
            let with = s + ";"@ + marker;
            &&& client::entry_dep(s, env) == Some(
                DepModel {
                    name,
                    version: match client::pin(pep440::clauses(spec)) {
                        Some(v) => v,
                        None => Seq::empty(),
                    },
                    spec,
                },
            )
            &&& text::contains(with, "extra =="@) || text::contains(with, "extra=="@)
                ==> client::entry_dep(with, env) is None
            &&& !text::contains(with, "extra =="@) && !text::contains(with, "extra=="@)
                ==> client::entry_dep(with, env) == (if markers::applies(
                marker,
                env,
                Seq::empty(),
            ) {
                client::entry_dep(s, env)
            } else {
                None
            })
        }),
{
    let s = requirement_text(name, extras, spec);
    let a = name + extras;
    requirement_form(name, extras, spec);
    reveal_strlit(";");
    assert(";"@ =~= seq![';']);
    text_laws::before_ends_at_first(s, ';', marker);
    assert forall|i: int| 0 <= i < a.len() implies client::is_name_char(#[trigger] a[i]) by {
        if i < name.len() {
            assert(a[i] == name[i]);
            assert(text::is_ascii_alnum(name[i]) || name[i] == '-' || name[i] == '_' || name[i]
                == '.');
        } else {
            let j = i - name.len();
            assert(a[i] == extras[j]);
            if 0 < j < extras.len() - 1 {
                assert(text::is_ascii_alnum(extras[j]) || extras[j] == '-' || extras[j] == '_'
                    || extras[j] == '.');
            }
        }
    }
    name_run_of(a, spec);
    assert(s =~= a + spec);
}

/// The dependencies of a package are those of its entries, in their order.
pub proof fn entries_are_read_in_order(a: Seq<Seq<char>>, b: Seq<Seq<char>>, env: EnvModel)
    ensures
        client::entry_deps(a + b, env) == client::entry_deps(a, env) + client::entry_deps(b, env),
        forall|e: Seq<char>|
            client::entry_deps(seq![e], env) == match #[trigger] client::entry_dep(e, env) {
                Some(d) => seq![d],
                None => Seq::<DepModel>::empty(),
            },
    decreases b.len(),
{
    assert forall|e: Seq<char>|
        client::entry_deps(seq![e], env) == match #[trigger] client::entry_dep(e, env) {
            Some(d) => seq![d],
            None => Seq::<DepModel>::empty(),
        } by {
        assert(seq![e].drop_last() =~= Seq::<Seq<char>>::empty());
        assert(client::entry_deps(Seq::empty(), env) =~= Seq::<DepModel>::empty());
        if let Some(d) = client::entry_dep(e, env) {
            assert(Seq::<DepModel>::empty().push(d) =~= seq![d]);
        }
    }
    if b.len() == 0 {
        assert(a + b =~= a);
        assert(client::entry_deps(a, env) + Seq::<DepModel>::empty() =~= client::entry_deps(
            a,
            env,
        ));
    } else {
        entries_are_read_in_order(a, b.drop_last(), env);
        assert((a + b).drop_last() =~= a + b.drop_last());
        assert((a + b).last() == b.last());
        if let Some(d) = client::entry_dep(b.last(), env) {
            assert((client::entry_deps(a, env) + client::entry_deps(b.drop_last(), env)).push(d)
                =~= client::entry_deps(a, env) + client::entry_deps(b.drop_last(), env).push(d));
        }
    }
}

/// A version is offered where one of its files is not yanked: one all of whose files
/// are yanked, or that has none, is not, and the others are, in their order.
pub proof fn yanked_versions_are_left_out(
    before: Seq<(Seq<char>, DocModel)>,
    version: Seq<char>,
    files: Seq<DocModel>,
)
    ensures
        ({
            let all = before.push((version, DocModel::List(files)));
            let first = client::offered_releases(before);
            &&& (exists|i: int|
                0 <= i < files.len() && doc::get(#[trigger] files[i], "yanked"@) != Some(
                    DocModel::Bool(true),
                )) ==> client::offered_releases(all) == first.push(version)
            &&& (forall|i: int|
                0 <= i < files.len() ==> doc::get(#[trigger] files[i], "yanked"@) == Some(
                    DocModel::Bool(true),
                )) ==> client::offered_releases(all) == first
        }),
{
    let all = before.push((version, DocModel::List(files)));
    assert(all.drop_last() =~= before);
    assert(all.last() == (version, DocModel::List(files)));
    if exists|i: int|
        0 <= i < files.len() && doc::get(#[trigger] files[i], "yanked"@) != Some(
            DocModel::Bool(true),
        ) {
        let i = choose|i: int|
            0 <= i < files.len() && doc::get(#[trigger] files[i], "yanked"@) != Some(
                DocModel::Bool(true),
            );
        assert(!client::is_yanked(files[i]));
    } else {
        assert forall|i: int| 0 <= i < files.len() implies client::is_yanked(
            #[trigger] files[i],
        ) by {
            assert(doc::get(files[i], "yanked"@) == Some(DocModel::Bool(true)));
        }
    }
}

/// The endings of the wheels of the platforms.
pub proof fn wheel_endings(os: Seq<char>, arch: Seq<char>)
    ensures
        client::wheel_suffix("macos"@, "aarch64"@) == "arm64.whl"@,
        client::wheel_suffix("macos"@, "x86_64"@) == "x86_64.whl"@,
        client::wheel_suffix("linux"@, "x86_64"@) == "x86_64.whl"@,
        client::wheel_suffix("linux"@, "aarch64"@) == "aarch64.whl"@,
        client::wheel_suffix("windows"@, "x86_64"@) == "amd64.whl"@,
        os != "macos"@ && os != "linux"@ && os != "windows"@ ==> client::wheel_suffix(os, arch)
            == ""@,
        arch != "x86_64"@ && arch != "aarch64"@ ==> client::wheel_suffix(os, arch) == ""@,
{
    reveal_strlit("macos");
    reveal_strlit("linux");
    reveal_strlit("windows");
    reveal_strlit("x86_64");
    reveal_strlit("aarch64");
    assert("macos"@[0] == 'm' && "linux"@[0] == 'l' && "windows"@[0] == 'w');
    assert("x86_64"@[0] == 'x' && "aarch64"@[0] == 'a');
}

// ── Poetry ──────────────────────────────────────────────────────────────────
proof fn three_numbers(a: u64, b: u64, c: u64)
    ensures
        ({
            let v = parser::dotted(a as nat, b as nat, c as nat);
            parser::numbers_among(text::split(v, '.')) == seq![a, b, c]
        }),
{
    let x = text::decimal(a as nat);
    let y = text::decimal(b as nat);
    let z = text::decimal(c as nat);
    reveal_strlit(".");
    assert("."@ =~= seq!['.']);
    text::decimal_is_read(a as nat);
    text::decimal_is_read(b as nat);
    text::decimal_is_read(c as nat);
    assert(!x.contains('.')) by {
        assert forall|i: int| 0 <= i < x.len() implies x[i] != '.' by {
            assert(text::is_digit(x[i]));
        }
    }
    assert forall|i: int| 0 <= i < y.len() implies y[i] != '.' by {
        assert(text::is_digit(y[i]));
    }
    assert forall|i: int| 0 <= i < z.len() implies z[i] != '.' by {
        assert(text::is_digit(z[i]));
    }
    text_laws::split_single(x, '.');
    text_laws::split_last(x, '.', y);
    text_laws::split_last(x + seq!['.'] + y, '.', z);
    let parts = seq![x].push(y).push(z);
    assert(text::split(parser::dotted(a as nat, b as nat, c as nat), '.') == parts);
    let max = u64::MAX as nat;
    text_laws::numbers_are_read(a as nat, max, Seq::empty());
    text_laws::numbers_are_read(b as nat, max, Seq::empty());
    text_laws::numbers_are_read(c as nat, max, Seq::empty());
    assert(parts.drop_last() =~= seq![x].push(y));
    assert(parts.drop_last().drop_last() =~= seq![x]);
    assert(seq![x].drop_last() =~= Seq::<Seq<char>>::empty());
    reveal_with_fuel(parser::numbers_among, 4);
    assert(parser::numbers_among(parts) =~= seq![a, b, c]);
}

/// `^A.B.C` asks for what `>=A.B.C` asks for, below the next version that may differ:
/// the next major one, or below 1 the next minor one, or below 0.1 the next one.
pub proof fn caret_bounds(a: u64, b: u64, c: u64)
    ensures
        ({
            let v = parser::dotted(a as nat, b as nat, c as nat);
            &&& a > 0 ==> parser::caret(v) == ">="@ + v + ",<"@ + parser::dotted(
                a as nat + 1,
                0,
                0,
            )
            &&& a == 0 && b > 0 ==> parser::caret(v) == ">="@ + v + ",<"@ + parser::dotted(
                0,
                b as nat + 1,
                0,
            )
            &&& a == 0 && b == 0 ==> parser::caret(v) == ">="@ + v + ",<"@ + parser::dotted(
                0,
                0,
                c as nat + 1,
            )
        }),
{
    three_numbers(a, b, c);
}

/// `~A.B.C` asks for what `>=A.B.C` asks for, below the next minor version.
pub proof fn tilde_bounds(a: u64, b: u64, c: u64)
    ensures
        ({
            let v = parser::dotted(a as nat, b as nat, c as nat);
            parser::tilde(v) == ">="@ + v + ",<"@ + parser::dotted(a as nat, b as nat + 1, 0)
        }),
{
    three_numbers(a, b, c);
    let v = parser::dotted(a as nat, b as nat, c as nat);
    reveal_strlit(".");
    reveal_strlit(".0");
    assert(text::decimal(0) =~= seq!['0']);
    assert(".0"@ =~= "."@ + text::decimal(0));
    assert(parser::tilde(v) =~= ">="@ + v + ",<"@ + parser::dotted(a as nat, b as nat + 1, 0));
}

/// A constraint `*`, or none, leaves the version open; a number alone is an exact
/// version; a specifier stands as it is; `^` and `~` are bounds.
pub proof fn constraints_are_read(name: Seq<char>, raw: Seq<char>)
    requires
        raw.len() > 0,
        !text::is_whitespace(raw[0]),
        !text::is_whitespace(raw.last()),
    ensures
        parser::poetry_dep(name, "*"@) == (PythonDepModel {
            name: parser::normal_name(name),
            version: Seq::empty(),
            spec: Seq::empty(),
        }),
        parser::poetry_dep(name, Seq::empty()) == parser::poetry_dep(name, "*"@),
        '0' <= raw[0] <= '9' ==> parser::poetry_dep(name, raw) == parser::pinned(name, "=="@ + raw),
        raw[0] == '>' || raw[0] == '<' || raw[0] == '=' || raw[0] == '!' ==> parser::poetry_dep(
            name,
            raw,
        ) == parser::pinned(name, raw),
        "~="@.is_prefix_of(raw) ==> parser::poetry_dep(name, raw) == parser::pinned(name, raw),
        '0' <= raw[0] <= '9' ==> parser::poetry_dep(name, seq!['^'] + raw) == parser::pinned(
            name,
            parser::caret(raw),
        ),
        '0' <= raw[0] <= '9' ==> parser::poetry_dep(name, seq!['~'] + raw) == parser::pinned(
            name,
            parser::tilde(raw),
        ),
{
    reveal_strlit("*");
    reveal_strlit("~=");
    ends_are_kept("*"@);
    assert(text::trim(Seq::<char>::empty()) == Seq::<char>::empty());
    ends_are_kept(raw);
    let c = seq!['^'] + raw;
    let t = seq!['~'] + raw;
    assert(c.last() == raw.last() && t.last() == raw.last());
    ends_are_kept(c);
    ends_are_kept(t);
    assert(c.skip(1) =~= raw);
    assert(t.skip(1) =~= raw);
    assert("*"@[0] == '*');
    if '0' <= raw[0] <= '9' {
        assert(t[1] == raw[0]);
        text_laws::no_prefix("~="@, t, 1);
    }
    if "~="@.is_prefix_of(raw) {
        assert(raw.subrange(0, 2)[0] == raw[0]);
    }
}

/// Of the dependencies that Poetry lists the interpreter is none; the others are read
/// in their order, from a text or from the `version` of a table.
pub proof fn poetry_entries_are_read(
    before: Seq<(Seq<char>, DocModel)>,
    name: Seq<char>,
    constraint: Seq<char>,
    fields: Seq<(Seq<char>, DocModel)>,
)
    ensures
        name == "python"@ ==> parser::poetry_entries(
            before.push((name, DocModel::Text(constraint))),
        ) == parser::poetry_entries(before),
        name != "python"@ ==> parser::poetry_entries(
            before.push((name, DocModel::Text(constraint))),
        ) == parser::poetry_entries(before).push(parser::poetry_dep(name, constraint)),
        name != "python"@ && doc::lookup(fields, "version"@) == Some(DocModel::Text(constraint))
            ==> parser::poetry_entries(before.push((name, DocModel::Table(fields))))
            == parser::poetry_entries(before.push((name, DocModel::Text(constraint)))),
        name != "python"@ && doc::lookup(fields, "version"@) is None ==> parser::poetry_entries(
            before.push((name, DocModel::Table(fields))),
        ) == parser::poetry_entries(before.push((name, DocModel::Text("*"@)))),
{
    let t = before.push((name, DocModel::Text(constraint)));
    let f = before.push((name, DocModel::Table(fields)));
    let s = before.push((name, DocModel::Text("*"@)));
    assert(t.drop_last() =~= before && f.drop_last() =~= before && s.drop_last() =~= before);
    reveal_strlit("*");
    ends_are_kept("*"@);
    assert(text::trim(Seq::<char>::empty()) == Seq::<char>::empty());
}

/// The dependencies of `[project]` go before those of Poetry: those are read only where
/// there are none of the others.
pub proof fn project_goes_before_poetry(
    project: DocModel,
    fields: Seq<(Seq<char>, DocModel)>,
    items: Seq<DocModel>,
)
    requires
        project is Table,
        doc::get(project, "project"@) == Some(DocModel::Table(fields)),
        doc::lookup(fields, "dependencies"@) == Some(DocModel::List(items)),
        parser::listed_deps(items).len() > 0,
    ensures
        parser::pyproject_deps(project) == parser::listed_deps(items),
{
}

/// Each text of a list of dependencies is a requirement, and they are read in their
/// order.
pub proof fn listed_texts_are_requirements(before: Seq<DocModel>, s: Seq<char>)
    ensures
        parser::listed_deps(before.push(DocModel::Text(s))) == match parser::requirement(s) {
            Some(d) => parser::listed_deps(before).push(d),
            None => parser::listed_deps(before),
        },
        parser::listed_deps(Seq::empty()) == Seq::<PythonDepModel>::empty(),
{
    let all = before.push(DocModel::Text(s));
    assert(all.drop_last() =~= before);
    assert(all.last() == DocModel::Text(s));
}

// ── Lock files ──────────────────────────────────────────────────────────────
/// Each package of a lock file with a name and a version is one dependency with the
/// name in its normal form and exactly that version, whatever other fields it has, and
/// they stand in the order of the file.
pub proof fn locked_package_is_one_dep(
    before: Seq<DocModel>,
    fields: Seq<(Seq<char>, DocModel)>,
    name: Seq<char>,
    version: Seq<char>,
    lock_fields: Seq<(Seq<char>, DocModel)>,
)
    requires
        name.len() > 0,
        version.len() > 0,
        doc::lookup(fields, "name"@) == Some(DocModel::Text(name)),
        doc::lookup(fields, "version"@) == Some(DocModel::Text(version)),
        doc::lookup(lock_fields, "package"@) == Some(
            DocModel::List(before.push(DocModel::Table(fields))),
        ),
    ensures
        parser::package_lock_deps(DocModel::Table(lock_fields)) == parser::locked_packages(
            before,
        ).push(
            PythonDepModel { name: parser::normal_name(name), version, spec: Seq::empty() },
        ),
{
    let all = before.push(DocModel::Table(fields));
    assert(all.drop_last() =~= before);
    assert(all.last() == DocModel::Table(fields));
}

/// In `Pipfile.lock` the packages of `default` come first and then those of `develop`,
/// each with the version behind its `==`.
pub proof fn pipfile_sections_are_read(
    lock_fields: Seq<(Seq<char>, DocModel)>,
    default: Seq<(Seq<char>, DocModel)>,
    develop: Seq<(Seq<char>, DocModel)>,
    name: Seq<char>,
    fields: Seq<(Seq<char>, DocModel)>,
    version: Seq<char>,
)
    requires
        doc::lookup(lock_fields, "default"@) == Some(DocModel::Table(default)),
        doc::lookup(lock_fields, "develop"@) == Some(
            DocModel::Table(develop.push((name, DocModel::Table(fields)))),
        ),
        version.len() > 0,
        version[0] != '=',
        doc::lookup(fields, "version"@) == Some(DocModel::Text("=="@ + version)),
    ensures
        parser::pipfile_deps(DocModel::Table(lock_fields)) == parser::pipfile_entries(default)
            + parser::pipfile_entries(develop).push(
            PythonDepModel { name: parser::normal_name(name), version, spec: Seq::empty() },
        ),
{
    let all = develop.push((name, DocModel::Table(fields)));
    assert(all.drop_last() =~= develop);
    assert(all.last() == (name, DocModel::Table(fields)));
    reveal_strlit("==");
    let s = "=="@ + version;
    text_laws::joined_ends("=="@, version);
    text_laws::no_prefix("=="@, version, 0);
    assert(text::trim_start_text(version, "=="@) == version);
    assert(text::trim_start_text(s, "=="@) == version);
}

/// Of the files of a project the first that is there is read and no other: `uv.lock`,
/// `poetry.lock`, `Pipfile.lock`, `requirements.txt`, `pyproject.toml`.
pub proof fn files_have_an_order(files: ProjectFiles)
    ensures
        files.uv_lock is Some ==> parser::project_deps(files) == parser::package_lock_outcome(
            files.uv_lock->0@,
        ),
        files.uv_lock is None && files.poetry_lock is Some ==> parser::project_deps(files)
            == parser::package_lock_outcome(files.poetry_lock->0@),
        files.uv_lock is None && files.poetry_lock is None && files.pipfile_lock is Some
            ==> parser::project_deps(files) == parser::pipfile_outcome(files.pipfile_lock->0@),
        files.uv_lock is None && files.poetry_lock is None && files.pipfile_lock is None
            && files.requirements is Some ==> parser::project_deps(files) == Ok::<
            Seq<PythonDepModel>,
            ManifestError,
        >(parser::requirement_lines(text::lines(files.requirements->0@))),
        files.uv_lock is None && files.poetry_lock is None && files.pipfile_lock is None
            && files.requirements is None && files.pyproject is Some ==> parser::project_deps(
            files,
        ) == parser::pyproject_outcome(files.pyproject->0@),
        files.uv_lock is None && files.poetry_lock is None && files.pipfile_lock is None
            && files.requirements is None && files.pyproject is None ==> parser::project_deps(
            files,
        ) == Ok::<Seq<PythonDepModel>, ManifestError>(Seq::empty()),
{
}

/// The file that dependencies are read from is named where it cannot be read.
pub proof fn read_file_is_named(dir: Seq<char>, files: ProjectFiles)
    ensures
        files.uv_lock is Some ==> parser::manifest_name(files) == "uv.lock"@,
        files.uv_lock is None && files.poetry_lock is Some ==> parser::manifest_name(files)
            == "poetry.lock"@,
        files.uv_lock is None && files.poetry_lock is None && files.pipfile_lock is Some
            ==> parser::manifest_name(files) == "Pipfile.lock"@,
        files.uv_lock is None && files.poetry_lock is None && files.pipfile_lock is None
            && files.requirements is Some ==> parser::manifest_name(files) == "requirements.txt"@,
        files.uv_lock is None && files.poetry_lock is None && files.pipfile_lock is None
            && files.requirements is None ==> parser::manifest_name(files) == "pyproject.toml"@,
        parser::manifest_error_text(ManifestError::NotToml, dir, files)
            == "failed to parse TOML: "@ + paths::joined(dir, parser::manifest_name(files)),
        parser::manifest_error_text(ManifestError::NotJson, dir, files)
            == "failed to parse JSON: "@ + paths::joined(dir, parser::manifest_name(files)),
{
}

/// The versions that an index lists are those of its releases with a file that is not
/// withdrawn, and an answer without releases lists none.
pub proof fn listed_versions_are_offered(
    fields: Seq<(Seq<char>, DocModel)>,
    releases: Seq<(Seq<char>, DocModel)>,
)
    requires
        doc::lookup(fields, "releases"@) == Some(DocModel::Table(releases)),
        forall|i: int| 0 <= i < releases.len() ==> (#[trigger] releases[i]).1 is List,
    ensures
        client::listed_versions(Some(DocModel::Table(fields))) == Some(
            client::offered_releases(releases),
        ),
        client::listed_versions(None) is None,
        client::listed_versions(Some(DocModel::Table(Seq::empty()))) is None,
{
}

/// The release of a version is the first with it.
pub proof fn release_is_first_of_version(
    releases: Seq<(String, Vec<crate::python::wheel::PypiFileEntry>)>,
    version: Seq<char>,
    i: int,
    j: int,
)
    requires
        client::is_release(releases, version, i),
        0 <= j < releases.len(),
        releases[j].0@ == version,
    ensures
        0 <= i <= j,
        releases[i].0@ == version,
{
}

/// A package of a lock file without a name or a version, or with an empty one, is left
/// out.
pub proof fn unnamed_packages_are_left_out(
    before: Seq<DocModel>,
    fields: Seq<(Seq<char>, DocModel)>,
)
    requires
        ({
            ||| doc::lookup(fields, "name"@) is None
            ||| doc::lookup(fields, "version"@) is None
            ||| doc::lookup(fields, "name"@) == Some(DocModel::Text(Seq::empty()))
            ||| doc::lookup(fields, "version"@) == Some(DocModel::Text(Seq::empty()))
        }),
    ensures
        parser::locked_packages(before.push(DocModel::Table(fields))) == parser::locked_packages(
            before,
        ),
        parser::locked_packages(Seq::empty()) == Seq::<PythonDepModel>::empty(),
{
    assert(before.push(DocModel::Table(fields)).drop_last() =~= before);
}

proof fn replaced_one_by_one(s: Seq<char>, a: char, b: char)
    ensures
        text::replace_char(s, a, seq![b]).len() == s.len(),
        forall|i: int|
            0 <= i < s.len() ==> #[trigger] text::replace_char(s, a, seq![b])[i] == (if s[i] == a {
                b
            } else {
                s[i]
            }),
    decreases s.len(),
{
    if s.len() > 0 {
        replaced_one_by_one(s.drop_last(), a, b);
    }
}

/// The name of a package is written in lower case, with `_` for `-` and for a point.
pub proof fn names_are_normal(name: Seq<char>, i: int)
    requires
        text::is_ascii(name),
        0 <= i < name.len(),
    ensures
        ({
            let r = parser::normal_name(name);
            &&& r.len() == name.len()
            &&& name[i] == '-' || name[i] == '.' ==> r[i] == '_'
            &&& 'A' <= name[i] <= 'Z' ==> r[i] as u32 - 'a' as u32 == name[i] as u32 - 'A' as u32
            &&& name[i] != '-' && name[i] != '.' && !('A' <= name[i] <= 'Z') ==> r[i] == name[i]
        }),
{
    reveal_strlit("_");
    assert("_"@ =~= seq!['_']);
    let low = text::ascii_lower(name);
    text_laws::lower_is_by_letter(name, i);
    replaced_one_by_one(low, '-', '_');
    replaced_one_by_one(text::replace_char(low, '-', seq!['_']), '.', '_');
}

} // verus!
