//! The dependencies that a Python project declares in its manifests.
use vstd::prelude::*;

use crate::chars;
use crate::doc;
use crate::doc::Doc;
use crate::doc::DocModel;
use crate::paths;
use crate::python::client;
use crate::python::pep440;
use crate::python::pep440::SpecifierSet;
use crate::text;
use crate::unicode;

verus! {

/// A dependency of a Python project.
///
/// `version` is a version where the manifest gives exactly one; otherwise it is
/// empty, and `spec` says which versions are accepted. Lock files give a version
/// and no specifier.
#[derive(Debug)]
pub struct PythonDep {
    pub name: String,
    pub version: String,
    /// The specifier as it was declared.
    pub spec: String,
}

/// What a dependency holds.
pub struct PythonDepModel {
    pub name: Seq<char>,
    pub version: Seq<char>,
    pub spec: Seq<char>,
}

impl View for PythonDep {
    type V = PythonDepModel;

    open spec fn view(&self) -> PythonDepModel {
        PythonDepModel { name: self.name@, version: self.version@, spec: self.spec@ }
    }
}

/// What a list of dependencies holds.
pub open spec fn dep_views(v: Seq<PythonDep>) -> Seq<PythonDepModel> {
    Seq::new(v.len(), |i: int| v[i]@)
}

/// A list with one more dependency at its end, if there is one.
pub open spec fn with_dep(front: Seq<PythonDepModel>, d: Option<PythonDepModel>) -> Seq<
    PythonDepModel,
> {
    match d {
        Some(d) => front.push(d),
        None => front,
    }
}

/// Why a manifest cannot be read.
#[derive(Debug, Clone, Copy, PartialEq, Eq, Structural)]
pub enum ManifestError {
    NotToml,
    NotJson,
}

// ── Names ───────────────────────────────────────────────────────────────────
/// The normal form of a package name: in small letters, with `_` for `-` and `.`.
pub open spec fn normal_name(name: Seq<char>) -> Seq<char> {
    text::replace_char(
        text::replace_char(unicode::lowercase(name), '-', "_"@),
        '.',
        "_"@,
    )
}

/// The normal form of one ASCII character of a package name.
pub open spec fn normal_char(c: char) -> char {
    if c == '-' || c == '.' {
        '_'
    } else {
        text::lower_char(c)
    }
}

/// The normal form of a package name of ASCII characters.
pub open spec fn ascii_normal_name(name: Seq<char>) -> Seq<char> {
    Seq::new(name.len(), |i: int| normal_char(name[i]))
}

/// Replacing one character by another is done at each place.
proof fn replace_each(s: Seq<char>, a: char, b: Seq<char>)
    requires
        b.len() == 1,
    ensures
        text::replace_char(s, a, b).len() == s.len(),
        forall|i: int|
            0 <= i < s.len() ==> #[trigger] text::replace_char(s, a, b)[i] == (if s[i] == a {
                b[0]
            } else {
                s[i]
            }),
    decreases s.len(),
{
    if s.len() > 0 {
        replace_each(s.drop_last(), a, b);
    }
}

proof fn normal_of_ascii(name: Seq<char>)
    requires
        text::is_ascii(name),
    ensures
        normal_name(name) == ascii_normal_name(name),
{
    let low = unicode::lowercase(name);
    reveal_strlit("_");
    replace_each(low, '-', "_"@);
    replace_each(text::replace_char(low, '-', "_"@), '.', "_"@);
    assert(normal_name(name) =~= ascii_normal_name(name));
}

/// The normal form of an ASCII name is in small letters, without hyphens and points,
/// and it is its own normal form.
pub proof fn normal_name_is_stable(name: Seq<char>)
    requires
        text::is_ascii(name),
    ensures
        normal_name(name) == ascii_normal_name(name),
        normal_name(normal_name(name)) == normal_name(name),
{
    normal_of_ascii(name);
    let normal = ascii_normal_name(name);
    assert forall|i: int| 0 <= i < normal.len() implies (#[trigger] normal[i]) as u32 <= 127 by {
        assert(name[i] as u32 <= 127);
    }
    normal_of_ascii(normal);
    assert(ascii_normal_name(normal) =~= normal);
}

/// The normal form of a package name.
pub fn normalize_python_name(name: &str) -> (r: String)
    ensures
        r@ == normal_name(name@),
{
    let lower = unicode::str_to_lowercase(name);
    let lower = chars::of(lower.as_str());
    let hyphens = chars::replace_char(&lower, '-', "_");
    chars::to_string(&chars::replace_char(&hyphens, '.', "_"))
}

/// A dependency has a version or a specifier, not both.
pub proof fn version_or_specifier(name: Seq<char>, spec: Seq<char>)
    ensures
        pinned(name, spec).version.len() == 0 || pinned(name, spec).spec.len() == 0,
{
}

/// The dependencies of lock files have a version and no specifier.
pub proof fn locked_deps_are_exact(items: Seq<DocModel>, i: int)
    requires
        0 <= i < locked_packages(items).len(),
    ensures
        locked_packages(items)[i].version.len() > 0,
        locked_packages(items)[i].spec.len() == 0,
    decreases items.len(),
{
    if i < locked_packages(items.drop_last()).len() {
        locked_deps_are_exact(items.drop_last(), i);
    }
}

/// The dependencies of a section of `Pipfile.lock` have a version and no
/// specifier.
pub proof fn pipfile_deps_are_exact(entries: Seq<(Seq<char>, DocModel)>, i: int)
    requires
        0 <= i < pipfile_entries(entries).len(),
    ensures
        pipfile_entries(entries)[i].version.len() > 0,
        pipfile_entries(entries)[i].spec.len() == 0,
    decreases entries.len(),
{
    if i < pipfile_entries(entries.drop_last()).len() {
        pipfile_deps_are_exact(entries.drop_last(), i);
    }
}

// ── Requirement lines ───────────────────────────────────────────────────────
/// The characters that end a package name.
pub open spec fn name_ends() -> Seq<char> {
    seq!['=', '!', '<', '>', '~', ' ', '\t']
}

/// A dependency of a name on the versions that a specifier accepts: one exact
/// version becomes the version, anything else stays a specifier.
pub open spec fn pinned(name: Seq<char>, spec: Seq<char>) -> PythonDepModel {
    match client::pin(pep440::clauses(spec)) {
        Some(v) => PythonDepModel { name: normal_name(name), version: v, spec: Seq::empty() },
        None => PythonDepModel { name: normal_name(name), version: Seq::empty(), spec },
    }
}

/// The dependency of a requirement such as `requests[security]>=2.0`.
pub open spec fn requirement(line: Seq<char>) -> Option<PythonDepModel> {
    let body = text::trim(text::before(line, ';'));
    let n = match text::find_any(body, name_ends()) {
        Some(n) => n,
        None => body.len() as int,
    };
    let name = client::without_extras(text::trim(body.take(n)));
    if body.len() == 0 || name.len() == 0 {
        None
    } else {
        Some(pinned(name, text::trim(body.skip(n))))
    }
}

fn name_end_set() -> (r: &'static str)
    ensures
        r@ == name_ends(),
{
    proof {
        reveal_strlit("=!<>~ \t");
        assert("=!<>~ \t"@ =~= name_ends());
    }
    "=!<>~ \t"
}

fn make_dep(name: &str, spec: String) -> (r: PythonDep)
    ensures
        r@ == pinned(name@, spec@),
{
    match SpecifierSet::parse(spec.as_str()).exact_pin() {
        Some(v) => PythonDep { name: normalize_python_name(name), version: v, spec: String::new() },
        None => PythonDep { name: normalize_python_name(name), version: String::new(), spec },
    }
}

/// The dependency of one requirement. An exact `==X.Y.Z` becomes the version; any
/// other specifier is kept as it is written. The marker behind `;` and extras in
/// brackets are dropped.
pub fn parse_requirement_line(line: &str) -> (r: Option<PythonDep>)
    ensures
        match r {
            Some(d) => requirement(line@) == Some(d@),
            None => requirement(line@) is None,
        },
{
    let whole = chars::of(line);
    let body = chars::trim(chars::before(&whole, ';'));
    if body.len() == 0 {
        return None;
    }
    let n: usize = match chars::find_any(body, name_end_set()) {
        Some(n) => n,
        None => body.len(),
    };
    let raw = chars::trim(chars::take(body, n));
    let name = match chars::find_char(raw, '[') {
        Some(b) => chars::trim(chars::take(raw, b)),
        None => raw,
    };
    if name.len() == 0 {
        return None;
    }
    let spec = chars::to_string(chars::trim(chars::skip(body, n)));
    Some(make_dep(chars::to_string(name).as_str(), spec))
}

/// A line without a comment that follows a space.
pub open spec fn without_comment(line: Seq<char>) -> Seq<char> {
    match text::find(line, " #"@) {
        Some(i) => line.take(i),
        None => line,
    }
}

/// The dependency of a line of `requirements.txt`, if it declares one: empty
/// lines, comments, options, addresses and paths do not.
pub open spec fn requirement_line(raw: Seq<char>) -> Option<PythonDepModel> {
    let line = text::trim(without_comment(raw));
    if line.len() == 0 || line[0] == '#' || line[0] == '-' {
        None
    } else if text::contains(line, "://"@) || line[0] == '.' || line[0] == '/' {
        None
    } else {
        requirement(line)
    }
}

/// The dependencies of some lines, in their order.
pub open spec fn requirement_lines(lines: Seq<Seq<char>>) -> Seq<PythonDepModel>
    decreases lines.len(),
{
    if lines.len() == 0 {
        Seq::empty()
    } else {
        with_dep(requirement_lines(lines.drop_last()), requirement_line(lines.last()))
    }
}

fn parse_line(raw: &[char]) -> (r: Option<PythonDep>)
    ensures
        match r {
            Some(d) => requirement_line(raw@) == Some(d@),
            None => requirement_line(raw@) is None,
        },
{
    let mark = chars::of(" #");
    let bare = match chars::find(raw, &mark) {
        Some(i) => chars::take(raw, i),
        None => raw,
    };
    let line = chars::trim(bare);
    if line.len() == 0 || line[0] == '#' || line[0] == '-' {
        return None;
    }
    if chars::contains(line, "://") || line[0] == '.' || line[0] == '/' {
        return None;
    }
    parse_requirement_line(chars::to_string(line).as_str())
}

/// The dependencies of a `requirements.txt`.
pub fn parse_requirements_txt(content: &str) -> (r: Vec<PythonDep>)
    ensures
        dep_views(r@) == requirement_lines(text::lines(content@)),
{
    let whole = chars::of(content);
    let lines = chars::lines(&whole);
    let ghost texts = chars::slice_views(lines@);
    let mut deps: Vec<PythonDep> = Vec::new();
    let mut i: usize = 0;
    assert(dep_views(deps@) =~= requirement_lines(texts.take(0)));
    while i < lines.len()
        invariant
            i <= lines.len(),
            texts == chars::slice_views(lines@),
            dep_views(deps@) == requirement_lines(texts.take(i as int)),
        decreases lines.len() - i,
    {
        let ghost before = deps@;
        proof {
            assert(texts.take(i + 1).drop_last() =~= texts.take(i as int));
            assert(texts.take(i + 1).last() == lines@[i as int]@);
        }
        if let Some(d) = parse_line(lines[i]) {
            let ghost model = d@;
            deps.push(d);
            assert(dep_views(deps@) =~= dep_views(before).push(model));
        }
        i = i + 1;
    }
    assert(texts.take(i as int) =~= texts);
    deps
}

// ── Poetry constraints ──────────────────────────────────────────────────────
/// The numbers among some texts, in their order.
pub open spec fn numbers_among(parts: Seq<Seq<char>>) -> Seq<u64>
    decreases parts.len(),
{
    if parts.len() == 0 {
        Seq::empty()
    } else {
        let front = numbers_among(parts.drop_last());
        match text::parse_unsigned(parts.last(), u64::MAX as nat) {
            Some(n) => front.push(n as u64),
            None => front,
        }
    }
}

/// The number at a position, zero where there is none.
pub open spec fn number_at(parts: Seq<u64>, i: int) -> nat {
    if i < parts.len() {
        parts[i] as nat
    } else {
        0
    }
}

/// Three numbers with dots between them.
pub open spec fn dotted(a: nat, b: nat, c: nat) -> Seq<char> {
    text::decimal(a) + "."@ + text::decimal(b) + "."@ + text::decimal(c)
}

/// The first version that is no longer compatible: the leftmost number that is
/// not zero, or the last one, goes up by one.
pub open spec fn next_compatible(parts: Seq<u64>) -> Seq<char> {
    let (major, minor, patch) = (number_at(parts, 0), number_at(parts, 1), number_at(parts, 2));
    if major > 0 {
        dotted(major + 1, 0, 0)
    } else if minor > 0 {
        dotted(0, minor + 1, 0)
    } else {
        dotted(0, 0, patch + 1)
    }
}

/// The specifier of `^v`: from `v` to before the next version that is not
/// compatible.
pub open spec fn caret(v: Seq<char>) -> Seq<char> {
    let parts = numbers_among(text::split(v, '.'));
    if parts.len() == 0 {
        ">="@ + v
    } else {
        ">="@ + v + ",<"@ + next_compatible(parts)
    }
}

/// The specifier of `~v`: from `v` to before the next minor version, or the next
/// major version where `v` is one number.
pub open spec fn tilde(v: Seq<char>) -> Seq<char> {
    let parts = numbers_among(text::split(v, '.'));
    if parts.len() == 0 {
        ">="@ + v
    } else if parts.len() == 1 {
        ">="@ + v + ",<"@ + text::decimal(parts[0] as nat + 1)
    } else if parts.len() == 2 {
        ">="@ + v + ",<"@ + text::decimal(parts[0] as nat) + "."@ + text::decimal(
            parts[1] as nat + 1,
        )
    } else {
        ">="@ + v + ",<"@ + text::decimal(parts[0] as nat) + "."@ + text::decimal(
            parts[1] as nat + 1,
        ) + ".0"@
    }
}

/// The specifier that a constraint of Poetry stands for. A caret and a tilde are
/// its own; a version alone is that version; specifiers pass through.
pub open spec fn poetry_specifier(raw: Seq<char>) -> Seq<char> {
    if raw[0] == '^' {
        caret(text::trim(raw.skip(1)))
    } else if raw[0] == '~' && !"~="@.is_prefix_of(raw) {
        tilde(text::trim(raw.skip(1)))
    } else if text::is_digit(raw[0]) {
        "=="@ + raw
    } else {
        raw
    }
}

/// The dependency of a name with a constraint of Poetry.
pub open spec fn poetry_dep(name: Seq<char>, constraint: Seq<char>) -> PythonDepModel {
    let raw = text::trim(constraint);
    if raw.len() == 0 || raw == "*"@ {
        PythonDepModel { name: normal_name(name), version: Seq::empty(), spec: Seq::empty() }
    } else {
        pinned(name, poetry_specifier(raw))
    }
}

fn parse_numbers(v: &[char]) -> (r: Vec<u64>)
    ensures
        r@ == numbers_among(text::split(v@, '.')),
{
    let parts = chars::split(v, '.');
    let ghost texts = chars::slice_views(parts@);
    let mut out: Vec<u64> = Vec::new();
    let mut i: usize = 0;
    while i < parts.len()
        invariant
            i <= parts.len(),
            texts == chars::slice_views(parts@),
            out@ == numbers_among(texts.take(i as int)),
        decreases parts.len() - i,
    {
        proof {
            assert(texts.take(i + 1).drop_last() =~= texts.take(i as int));
            assert(texts.take(i + 1).last() == parts@[i as int]@);
        }
        if let Some(n) = chars::parse_u64(parts[i]) {
            out.push(n);
        }
        i = i + 1;
    }
    assert(texts.take(i as int) =~= texts);
    out
}

fn push_decimal(out: &mut String, n: u128)
    ensures
        final(out)@ == old(out)@ + text::decimal(n as nat),
{
    let digits = chars::to_string(&chars::decimal(n));
    out.append(digits.as_str());
}

/// The specifier of `^v`.
fn caret_to_specifier(v: &[char]) -> (r: String)
    ensures
        r@ == caret(v@),
{
    let parts = parse_numbers(v);
    let mut out = String::from_str(">=");
    out.append(chars::to_string(v).as_str());
    if parts.len() == 0 {
        return out;
    }
    let mut major: u128 = parts[0] as u128;
    let mut minor: u128 = if parts.len() > 1 {
        parts[1] as u128
    } else {
        0
    };
    let mut patch: u128 = if parts.len() > 2 {
        parts[2] as u128
    } else {
        0
    };
    if major > 0 {
        major = major + 1;
        minor = 0;
        patch = 0;
    } else if minor > 0 {
        minor = minor + 1;
        patch = 0;
    } else {
        patch = patch + 1;
    }
    out.append(",<");
    let ghost front = out@;
    push_decimal(&mut out, major);
    out.append(".");
    push_decimal(&mut out, minor);
    out.append(".");
    push_decimal(&mut out, patch);
    assert(out@ =~= front + dotted(major as nat, minor as nat, patch as nat));
    out
}

/// The specifier of `~v`.
fn tilde_to_specifier(v: &[char]) -> (r: String)
    ensures
        r@ == tilde(v@),
{
    let parts = parse_numbers(v);
    let mut out = String::from_str(">=");
    out.append(chars::to_string(v).as_str());
    if parts.len() == 0 {
        return out;
    }
    out.append(",<");
    if parts.len() == 1 {
        push_decimal(&mut out, parts[0] as u128 + 1);
        return out;
    }
    push_decimal(&mut out, parts[0] as u128);
    out.append(".");
    push_decimal(&mut out, parts[1] as u128 + 1);
    if parts.len() > 2 {
        out.append(".0");
    }
    out
}

/// The dependency of a name with a constraint of Poetry, such as `^1.2`.
pub fn parse_poetry_constraint(name: &str, raw: &str) -> (r: Option<PythonDep>)
    ensures
        r matches Some(d) && d@ == poetry_dep(name@, raw@),
{
    let whole = chars::of(raw);
    let raw = chars::trim(&whole);
    if raw.len() == 0 || chars::is(raw, "*") {
        return Some(
            PythonDep {
                name: normalize_python_name(name),
                version: String::new(),
                spec: String::new(),
            },
        );
    }
    let spec = if raw[0] == '^' {
        caret_to_specifier(chars::trim(chars::skip(raw, 1)))
    } else if raw[0] == '~' && !chars::starts_with(raw, "~=") {
        tilde_to_specifier(chars::trim(chars::skip(raw, 1)))
    } else if chars::is_digit(raw[0]) {
        let mut exact = String::from_str("==");
        exact.append(chars::to_string(raw).as_str());
        exact
    } else {
        chars::to_string(raw)
    };
    Some(make_dep(name, spec))
}

// ── pyproject.toml ──────────────────────────────────────────────────────────
/// The dependencies of the requirements among some values.
pub open spec fn listed_deps(items: Seq<DocModel>) -> Seq<PythonDepModel>
    decreases items.len(),
{
    if items.len() == 0 {
        Seq::empty()
    } else {
        with_dep(
            listed_deps(items.drop_last()),
            match items.last() {
                DocModel::Text(s) => requirement(s),
                _ => None,
            },
        )
    }
}

/// The dependency of an entry under `tool.poetry.dependencies`, which is a
/// constraint or a table with one. The entry for Python itself is none.
pub open spec fn poetry_entry(name: Seq<char>, value: DocModel) -> Option<PythonDepModel> {
    if name == "python"@ {
        None
    } else {
        match value {
            DocModel::Text(s) => Some(poetry_dep(name, s)),
            DocModel::Table(_) => Some(
                poetry_dep(
                    name,
                    match doc::text_at(value, "version"@) {
                        Some(s) => s,
                        None => Seq::empty(),
                    },
                ),
            ),
            _ => None,
        }
    }
}

/// The dependencies of the entries under `tool.poetry.dependencies`.
pub open spec fn poetry_entries(entries: Seq<(Seq<char>, DocModel)>) -> Seq<PythonDepModel>
    decreases entries.len(),
{
    if entries.len() == 0 {
        Seq::empty()
    } else {
        with_dep(
            poetry_entries(entries.drop_last()),
            poetry_entry(entries.last().0, entries.last().1),
        )
    }
}

/// The dependencies of a `pyproject.toml`: those under `project.dependencies`, or
/// where there are none those under `tool.poetry.dependencies`.
pub open spec fn pyproject_deps(project: DocModel) -> Seq<PythonDepModel> {
    let listed = match doc::as_list(
        doc::get_opt(doc::get(project, "project"@), "dependencies"@),
    ) {
        Some(items) => listed_deps(items),
        None => Seq::empty(),
    };
    if listed.len() > 0 {
        listed
    } else {
        match doc::as_table(
            doc::get_opt(doc::get_opt(doc::get(project, "tool"@), "poetry"@), "dependencies"@),
        ) {
            Some(entries) => poetry_entries(entries),
            None => Seq::empty(),
        }
    }
}

fn read_listed(items: &Vec<Doc>) -> (r: Vec<PythonDep>)
    ensures
        dep_views(r@) == listed_deps(doc::item_models(items@)),
{
    let ghost models = doc::item_models(items@);
    let mut deps: Vec<PythonDep> = Vec::new();
    let mut i: usize = 0;
    assert(dep_views(deps@) =~= listed_deps(models.take(0)));
    while i < items.len()
        invariant
            i <= items.len(),
            models == doc::item_models(items@),
            dep_views(deps@) == listed_deps(models.take(i as int)),
        decreases items.len() - i,
    {
        let ghost before = deps@;
        proof {
            assert(models.take(i + 1).drop_last() =~= models.take(i as int));
            assert(models.take(i + 1).last() == items@[i as int]@);
        }
        if let Some(s) = items[i].as_str() {
            if let Some(d) = parse_requirement_line(s.as_str()) {
                let ghost model = d@;
                deps.push(d);
                assert(dep_views(deps@) =~= dep_views(before).push(model));
            }
        }
        i = i + 1;
    }
    assert(models.take(i as int) =~= models);
    deps
}

fn read_poetry_entry(name: &str, value: &Doc) -> (r: Option<PythonDep>)
    ensures
        match r {
            Some(d) => poetry_entry(name@, value@) == Some(d@),
            None => poetry_entry(name@, value@) is None,
        },
{
    if chars::str_same(name, "python") {
        return None;
    }
    if let Some(s) = value.as_str() {
        return parse_poetry_constraint(name, s.as_str());
    }
    if value.as_table().is_some() {
        return match doc::text_of(value.get("version")) {
            Some(s) => parse_poetry_constraint(name, s.as_str()),
            None => {
                let none = String::new();
                parse_poetry_constraint(name, none.as_str())
            },
        };
    }
    None
}

fn read_poetry_entries(entries: &Vec<(String, Doc)>) -> (r: Vec<PythonDep>)
    ensures
        dep_views(r@) == poetry_entries(doc::entry_models(entries@)),
{
    let ghost models = doc::entry_models(entries@);
    let mut deps: Vec<PythonDep> = Vec::new();
    let mut i: usize = 0;
    assert(dep_views(deps@) =~= poetry_entries(models.take(0)));
    while i < entries.len()
        invariant
            i <= entries.len(),
            models == doc::entry_models(entries@),
            dep_views(deps@) == poetry_entries(models.take(i as int)),
        decreases entries.len() - i,
    {
        let ghost before = deps@;
        proof {
            assert(models.take(i + 1).drop_last() =~= models.take(i as int));
            assert(models.take(i + 1).last() == (entries@[i as int].0@, entries@[i as int].1@));
        }
        if let Some(d) = read_poetry_entry(entries[i].0.as_str(), &entries[i].1) {
            let ghost model = d@;
            deps.push(d);
            assert(dep_views(deps@) =~= dep_views(before).push(model));
        }
        i = i + 1;
    }
    assert(models.take(i as int) =~= models);
    deps
}

/// The dependencies of a `pyproject.toml` that has been read.
pub fn read_pyproject(project: &Doc) -> (r: Vec<PythonDep>)
    ensures
        dep_views(r@) == pyproject_deps(project@),
{
    let mut deps: Vec<PythonDep> = Vec::new();
    assert(dep_views(deps@) =~= Seq::empty());
    if let Some(items) = doc::list_of(doc::get_in(project.get("project"), "dependencies")) {
        deps = read_listed(items);
    }
    if deps.len() == 0 {
        assert(dep_views(deps@) =~= Seq::empty());
        if let Some(entries) = doc::table_of(
            doc::get_in(doc::get_in(project.get("tool"), "poetry"), "dependencies"),
        ) {
            deps = read_poetry_entries(entries);
        }
    }
    deps
}

/// The view of the outcome of reading a manifest.
pub open spec fn outcome_view(r: Result<Vec<PythonDep>, ManifestError>) -> Result<
    Seq<PythonDepModel>,
    ManifestError,
> {
    match r {
        Ok(v) => Ok(dep_views(v@)),
        Err(e) => Err(e),
    }
}

/// What a `pyproject.toml` declares, by its text.
pub open spec fn pyproject_outcome(content: Seq<char>) -> Result<
    Seq<PythonDepModel>,
    ManifestError,
> {
    match doc::toml_document(content) {
        Some(d) => Ok(pyproject_deps(d)),
        None => Err(ManifestError::NotToml),
    }
}

/// The dependencies of a `pyproject.toml`.
pub fn parse_pyproject_toml(content: &str) -> (r: Result<Vec<PythonDep>, ManifestError>)
    ensures
        outcome_view(r) == pyproject_outcome(content@),
{
    match doc::parse_toml(content) {
        Some(d) => Ok(read_pyproject(&d)),
        None => Err(ManifestError::NotToml),
    }
}

// ── Lock files ──────────────────────────────────────────────────────────────
/// The dependency of a locked package, if it has a name and a version.
pub open spec fn locked_package(pkg: DocModel) -> Option<PythonDepModel> {
    match (doc::text_at(pkg, "name"@), doc::text_at(pkg, "version"@)) {
        (Some(name), Some(version)) => if name.len() > 0 && version.len() > 0 {
            Some(PythonDepModel { name: normal_name(name), version, spec: Seq::empty() })
        } else {
            None
        },
        _ => None,
    }
}

/// The dependencies of locked packages, in their order.
pub open spec fn locked_packages(items: Seq<DocModel>) -> Seq<PythonDepModel>
    decreases items.len(),
{
    if items.len() == 0 {
        Seq::empty()
    } else {
        with_dep(locked_packages(items.drop_last()), locked_package(items.last()))
    }
}

/// The dependencies of a lock file of uv or Poetry: its packages.
pub open spec fn package_lock_deps(lock: DocModel) -> Seq<PythonDepModel> {
    match doc::as_list(doc::get(lock, "package"@)) {
        Some(items) => locked_packages(items),
        None => Seq::empty(),
    }
}

fn read_locked_package(pkg: &Doc) -> (r: Option<PythonDep>)
    ensures
        match r {
            Some(d) => locked_package(pkg@) == Some(d@),
            None => locked_package(pkg@) is None,
        },
{
    match (doc::text_of(pkg.get("name")), doc::text_of(pkg.get("version"))) {
        (Some(name), Some(version)) => {
            if !name.as_str().is_empty() && !version.as_str().is_empty() {
                Some(
                    PythonDep {
                        name: normalize_python_name(name.as_str()),
                        version: version.clone(),
                        spec: String::new(),
                    },
                )
            } else {
                None
            }
        },
        _ => None,
    }
}

/// The dependencies of a lock file of uv or Poetry that has been read.
pub fn read_package_lock(lock: &Doc) -> (r: Vec<PythonDep>)
    ensures
        dep_views(r@) == package_lock_deps(lock@),
{
    let mut deps: Vec<PythonDep> = Vec::new();
    assert(dep_views(deps@) =~= Seq::empty());
    if let Some(items) = doc::list_of(lock.get("package")) {
        let ghost models = doc::item_models(items@);
        let mut i: usize = 0;
        assert(dep_views(deps@) =~= locked_packages(models.take(0)));
        while i < items.len()
            invariant
                i <= items.len(),
                models == doc::item_models(items@),
                dep_views(deps@) == locked_packages(models.take(i as int)),
            decreases items.len() - i,
        {
            let ghost before = deps@;
            proof {
                assert(models.take(i + 1).drop_last() =~= models.take(i as int));
                assert(models.take(i + 1).last() == items@[i as int]@);
            }
            if let Some(d) = read_locked_package(&items[i]) {
                let ghost model = d@;
                deps.push(d);
                assert(dep_views(deps@) =~= dep_views(before).push(model));
            }
            i = i + 1;
        }
        assert(models.take(i as int) =~= models);
    }
    deps
}

/// What a lock file of uv or Poetry declares, by its text.
pub open spec fn package_lock_outcome(content: Seq<char>) -> Result<
    Seq<PythonDepModel>,
    ManifestError,
> {
    match doc::toml_document(content) {
        Some(d) => Ok(package_lock_deps(d)),
        None => Err(ManifestError::NotToml),
    }
}

/// The dependencies of a `uv.lock`.
pub fn parse_uv_lock(content: &str) -> (r: Result<Vec<PythonDep>, ManifestError>)
    ensures
        outcome_view(r) == package_lock_outcome(content@),
{
    match doc::parse_toml(content) {
        Some(d) => Ok(read_package_lock(&d)),
        None => Err(ManifestError::NotToml),
    }
}

/// The dependencies of a `poetry.lock`.
pub fn parse_poetry_lock(content: &str) -> (r: Result<Vec<PythonDep>, ManifestError>)
    ensures
        outcome_view(r) == package_lock_outcome(content@),
{
    match doc::parse_toml(content) {
        Some(d) => Ok(read_package_lock(&d)),
        None => Err(ManifestError::NotToml),
    }
}

/// The dependency of an entry of `Pipfile.lock`, if it has a version.
pub open spec fn pipfile_entry(name: Seq<char>, info: DocModel) -> Option<PythonDepModel> {
    let version = text::trim_start_text(
        match doc::text_at(info, "version"@) {
            Some(v) => v,
            None => Seq::empty(),
        },
        "=="@,
    );
    if version.len() > 0 {
        Some(PythonDepModel { name: normal_name(name), version, spec: Seq::empty() })
    } else {
        None
    }
}

/// The dependencies of the entries of a section of `Pipfile.lock`.
pub open spec fn pipfile_entries(entries: Seq<(Seq<char>, DocModel)>) -> Seq<PythonDepModel>
    decreases entries.len(),
{
    if entries.len() == 0 {
        Seq::empty()
    } else {
        with_dep(
            pipfile_entries(entries.drop_last()),
            pipfile_entry(entries.last().0, entries.last().1),
        )
    }
}

/// The dependencies of a section of `Pipfile.lock`.
pub open spec fn pipfile_section(lock: DocModel, section: Seq<char>) -> Seq<PythonDepModel> {
    match doc::as_table(doc::get(lock, section)) {
        Some(entries) => pipfile_entries(entries),
        None => Seq::empty(),
    }
}

/// The dependencies of a `Pipfile.lock`: those of use, then those of development.
pub open spec fn pipfile_deps(lock: DocModel) -> Seq<PythonDepModel> {
    pipfile_section(lock, "default"@) + pipfile_section(lock, "develop"@)
}

fn read_pipfile_entry(name: &str, info: &Doc) -> (r: Option<PythonDep>)
    ensures
        match r {
            Some(d) => pipfile_entry(name@, info@) == Some(d@),
            None => pipfile_entry(name@, info@) is None,
        },
{
    let whole = match doc::text_of(info.get("version")) {
        Some(v) => chars::of(v.as_str()),
        None => Vec::new(),
    };
    let version = chars::trim_start_text(&whole, "==");
    if version.len() > 0 {
        Some(
            PythonDep {
                name: normalize_python_name(name),
                version: chars::to_string(version),
                spec: String::new(),
            },
        )
    } else {
        None
    }
}

fn read_pipfile_section(lock: &Doc, section: &str, deps: &mut Vec<PythonDep>)
    ensures
        dep_views(final(deps)@) == dep_views(old(deps)@) + pipfile_section(lock@, section@),
{
    let ghost start = dep_views(deps@);
    assert(start + Seq::<PythonDepModel>::empty() =~= start);
    if let Some(entries) = doc::table_of(lock.get(section)) {
        let ghost models = doc::entry_models(entries@);
        let mut i: usize = 0;
        assert(pipfile_entries(models.take(0)) =~= Seq::empty());
        while i < entries.len()
            invariant
                i <= entries.len(),
                models == doc::entry_models(entries@),
                dep_views(deps@) == start + pipfile_entries(models.take(i as int)),
            decreases entries.len() - i,
        {
            let ghost before = deps@;
            proof {
                assert(models.take(i + 1).drop_last() =~= models.take(i as int));
                assert(models.take(i + 1).last() == (
                    entries@[i as int].0@,
                    entries@[i as int].1@,
                ));
            }
            if let Some(d) = read_pipfile_entry(entries[i].0.as_str(), &entries[i].1) {
                let ghost model = d@;
                deps.push(d);
                proof {
                    assert(dep_views(deps@) =~= dep_views(before).push(model));
                    assert(start + pipfile_entries(models.take(i as int)).push(model)
                        =~= dep_views(before).push(model));
                }
            }
            i = i + 1;
        }
        assert(models.take(i as int) =~= models);
    }
}

/// The dependencies of a `Pipfile.lock` that has been read.
pub fn read_pipfile_lock(lock: &Doc) -> (r: Vec<PythonDep>)
    ensures
        dep_views(r@) == pipfile_deps(lock@),
{
    let mut deps: Vec<PythonDep> = Vec::new();
    assert(dep_views(deps@) =~= Seq::empty());
    read_pipfile_section(lock, "default", &mut deps);
    read_pipfile_section(lock, "develop", &mut deps);
    assert(dep_views(deps@) =~= pipfile_deps(lock@));
    deps
}

/// What a `Pipfile.lock` declares, by its text.
pub open spec fn pipfile_outcome(content: Seq<char>) -> Result<Seq<PythonDepModel>, ManifestError> {
    match doc::json_document(content) {
        Some(d) => Ok(pipfile_deps(d)),
        None => Err(ManifestError::NotJson),
    }
}

/// The dependencies of a `Pipfile.lock`.
pub fn parse_pipfile_lock(content: &str) -> (r: Result<Vec<PythonDep>, ManifestError>)
    ensures
        outcome_view(r) == pipfile_outcome(content@),
{
    match doc::parse_json(content) {
        Some(d) => Ok(read_pipfile_lock(&d)),
        None => Err(ManifestError::NotJson),
    }
}

// ── Detection ───────────────────────────────────────────────────────────────
/// The manifests of a Python project, by the contents of those that exist.
#[derive(Debug)]
pub struct ProjectFiles {
    pub uv_lock: Option<String>,
    pub poetry_lock: Option<String>,
    pub pipfile_lock: Option<String>,
    pub requirements: Option<String>,
    pub pyproject: Option<String>,
}

/// What a project declares, by the first of its manifests that exists: `uv.lock`,
/// `poetry.lock`, `Pipfile.lock`, `requirements.txt`, `pyproject.toml`.
pub open spec fn project_deps(files: ProjectFiles) -> Result<Seq<PythonDepModel>, ManifestError> {
    if let Some(content) = files.uv_lock {
        package_lock_outcome(content@)
    } else if let Some(content) = files.poetry_lock {
        package_lock_outcome(content@)
    } else if let Some(content) = files.pipfile_lock {
        pipfile_outcome(content@)
    } else if let Some(content) = files.requirements {
        Ok(requirement_lines(text::lines(content@)))
    } else if let Some(content) = files.pyproject {
        pyproject_outcome(content@)
    } else {
        Ok(Seq::empty())
    }
}

/// The dependencies of a project, from the first of its manifests that exists.
pub fn detect_and_parse(files: &ProjectFiles) -> (r: Result<Vec<PythonDep>, ManifestError>)
    ensures
        outcome_view(r) == project_deps(*files),
{
    if let Some(content) = &files.uv_lock {
        return parse_uv_lock(content.as_str());
    }
    if let Some(content) = &files.poetry_lock {
        return parse_poetry_lock(content.as_str());
    }
    if let Some(content) = &files.pipfile_lock {
        return parse_pipfile_lock(content.as_str());
    }
    if let Some(content) = &files.requirements {
        return Ok(parse_requirements_txt(content.as_str()));
    }
    if let Some(content) = &files.pyproject {
        return parse_pyproject_toml(content.as_str());
    }
    let none: Vec<PythonDep> = Vec::new();
    assert(dep_views(none@) =~= Seq::empty());
    Ok(none)
}

/// The manifest from which the dependencies of a project are read.
pub open spec fn manifest_name(files: ProjectFiles) -> Seq<char> {
    if files.uv_lock is Some {
        "uv.lock"@
    } else if files.poetry_lock is Some {
        "poetry.lock"@
    } else if files.pipfile_lock is Some {
        "Pipfile.lock"@
    } else if files.requirements is Some {
        "requirements.txt"@
    } else {
        "pyproject.toml"@
    }
}

/// What is said of the manifest of a project in a directory that cannot be read.
pub open spec fn manifest_error_text(
    e: ManifestError,
    dir: Seq<char>,
    files: ProjectFiles,
) -> Seq<char> {
    (match e {
        ManifestError::NotToml => "failed to parse TOML: "@,
        ManifestError::NotJson => "failed to parse JSON: "@,
    }) + paths::joined(dir, manifest_name(files))
}

impl ManifestError {
    /// The error in words, for a project in a directory with some manifests.
    pub fn message(&self, dir: &str, files: &ProjectFiles) -> (r: String)
        ensures
            r@ == manifest_error_text(*self, dir@, *files),
    {
        let name = if files.uv_lock.is_some() {
            "uv.lock"
        } else if files.poetry_lock.is_some() {
            "poetry.lock"
        } else if files.pipfile_lock.is_some() {
            "Pipfile.lock"
        } else if files.requirements.is_some() {
            "requirements.txt"
        } else {
            "pyproject.toml"
        };
        let mut m = String::from_str(
            match self {
                ManifestError::NotToml => "failed to parse TOML: ",
                ManifestError::NotJson => "failed to parse JSON: ",
            },
        );
        m.append(paths::join(dir, name).as_str());
        m
    }
}

} // verus!
