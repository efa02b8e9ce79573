//! The dependencies that a Node.js project declares or has locked.
use vstd::prelude::*;

use crate::chars;
use crate::doc;
use crate::doc::Doc;
use crate::doc::DocModel;
use crate::extract;
use crate::node::platform;
use crate::node::platform::HostModel;
use crate::node::platform::HostTriple;
use crate::paths;
use crate::text;
use crate::unicode;

verus! {

/// A dependency of a Node.js project.
#[derive(Debug)]
pub struct NodeDep {
    pub name: String,
    pub version: String,
    pub _resolved: Option<String>,
    pub _integrity: Option<String>,
    /// The operating systems it is for, in npm's words; empty for all.
    pub os: Vec<String>,
    /// The processors it is for; empty for all.
    pub cpu: Vec<String>,
    /// The C libraries it is for; empty for all.
    pub libc: Vec<String>,
    /// An optional dependency that is not for the host is skipped; a required one
    /// is an error.
    pub optional: bool,
    /// Where a package that does not come from the registry is. It is linked, not
    /// downloaded.
    pub local: Option<LocalSource>,
}

/// Where a local package is, as the project declares it.
#[derive(Debug, PartialEq, Eq)]
pub struct LocalSource {
    /// The path, with slashes: absolute, or seen from the directory of the
    /// manifest.
    pub path: String,
    /// The entry that declares it, in words.
    pub origin: String,
}

/// Where a local package is.
pub struct LocalModel {
    pub path: Seq<char>,
    pub origin: Seq<char>,
}

/// What a dependency holds.
pub struct NodeDepModel {
    pub name: Seq<char>,
    pub version: Seq<char>,
    pub resolved: Option<Seq<char>>,
    pub integrity: Option<Seq<char>>,
    pub os: Seq<Seq<char>>,
    pub cpu: Seq<Seq<char>>,
    pub libc: Seq<Seq<char>>,
    pub optional: bool,
    pub local: Option<LocalModel>,
}

impl View for LocalSource {
    type V = LocalModel;

    open spec fn view(&self) -> LocalModel {
        LocalModel { path: self.path@, origin: self.origin@ }
    }
}

/// The view of a place that may be missing.
pub open spec fn opt_local(o: Option<LocalSource>) -> Option<LocalModel> {
    match o {
        Some(l) => Some(l@),
        None => None,
    }
}

impl View for NodeDep {
    type V = NodeDepModel;

    open spec fn view(&self) -> NodeDepModel {
        NodeDepModel {
            name: self.name@,
            version: self.version@,
            resolved: text::opt_view(self._resolved),
            integrity: text::opt_view(self._integrity),
            os: text::views(self.os@),
            cpu: text::views(self.cpu@),
            libc: text::views(self.libc@),
            optional: self.optional,
            local: opt_local(self.local),
        }
    }
}

/// What a list of dependencies holds.
pub open spec fn dep_views(v: Seq<NodeDep>) -> Seq<NodeDepModel> {
    Seq::new(v.len(), |i: int| v[i]@)
}

/// The dependency is for some platforms only.
pub open spec fn is_constrained(d: NodeDepModel) -> bool {
    d.os.len() > 0 || d.cpu.len() > 0 || d.libc.len() > 0
}

impl NodeDep {
    /// Does this package not come from the registry?
    pub fn is_local(&self) -> (r: bool)
        ensures
            r == (self@.local is Some),
    {
        self.local.is_some()
    }

    /// Is this package for some platforms only?
    pub fn has_platform_constraint(&self) -> (r: bool)
        ensures
            r == is_constrained(self@),
    {
        self.os.len() > 0 || self.cpu.len() > 0 || self.libc.len() > 0
    }
}

// ── Errors ──────────────────────────────────────────────────────────────────
/// Why the dependencies cannot be told or installed.
#[derive(Debug)]
pub enum NodeError {
    /// A file is not JSON.
    NotJson { path: String },
    /// An entry of a lock file is a packed local package.
    LockTarball { lock_name: String, key: String, resolved: String },
    /// An entry of a manifest is a packed local package.
    ManifestTarball { path: String, section: String, name: String, version: String },
    /// A required dependency is not for the host.
    BadPlatform {
        name: String,
        version: String,
        os: Vec<String>,
        cpu: Vec<String>,
        libc: Vec<String>,
        host: HostTriple,
    },
}

/// What an error says.
pub enum NodeErrorModel {
    NotJson { path: Seq<char> },
    LockTarball { lock_name: Seq<char>, key: Seq<char>, resolved: Seq<char> },
    ManifestTarball { path: Seq<char>, section: Seq<char>, name: Seq<char>, version: Seq<char> },
    BadPlatform {
        name: Seq<char>,
        version: Seq<char>,
        os: Seq<Seq<char>>,
        cpu: Seq<Seq<char>>,
        libc: Seq<Seq<char>>,
        host: HostModel,
    },
}

impl View for NodeError {
    type V = NodeErrorModel;

    open spec fn view(&self) -> NodeErrorModel {
        match *self {
            NodeError::NotJson { path } => NodeErrorModel::NotJson { path: path@ },
            NodeError::LockTarball { lock_name, key, resolved } => NodeErrorModel::LockTarball {
                lock_name: lock_name@,
                key: key@,
                resolved: resolved@,
            },
            NodeError::ManifestTarball { path, section, name, version } =>
                NodeErrorModel::ManifestTarball {
                path: path@,
                section: section@,
                name: name@,
                version: version@,
            },
            NodeError::BadPlatform { name, version, os, cpu, libc, host } =>
                NodeErrorModel::BadPlatform {
                name: name@,
                version: version@,
                os: text::views(os@),
                cpu: text::views(cpu@),
                libc: text::views(libc@),
                host: host@,
            },
        }
    }
}

/// A text in quotes.
pub open spec fn quoted(s: Seq<char>) -> Seq<char> {
    "\""@ + s + "\""@
}

/// A hexadecimal digit.
pub open spec fn hex_char(n: nat) -> char {
    "0123456789abcdef"@[n as int]
}

/// A number below 128 in hexadecimal digits.
pub open spec fn hex_text(n: nat) -> Seq<char> {
    if n < 16 {
        seq![hex_char(n)]
    } else {
        seq![hex_char(n / 16), hex_char(n % 16)]
    }
}

/// A character as it is written in a text in quotes: a control character by its
/// letter or its number, a quote and a backslash behind a backslash.
pub open spec fn escaped_char(c: char) -> Seq<char> {
    if c == '"' {
        "\\\""@
    } else if c == '\\' {
        "\\\\"@
    } else if c == '\n' {
        "\\n"@
    } else if c == '\r' {
        "\\r"@
    } else if c == '\t' {
        "\\t"@
    } else if c == '\0' {
        "\\0"@
    } else if (c as u32) < 32 || c as u32 == 127 {
        "\\u{"@ + hex_text(c as nat) + "}"@
    } else if c as u32 > 127 {
        unicode::wide_escape(c)
    } else {
        seq![c]
    }
}

/// A text as it is written in quotes.
pub open spec fn escaped(s: Seq<char>) -> Seq<char>
    decreases s.len(),
{
    if s.len() == 0 {
        Seq::empty()
    } else {
        escaped(s.drop_last()) + escaped_char(s.last())
    }
}

/// Some texts in words, such as `["linux", "darwin"]`.
pub open spec fn list_text(items: Seq<Seq<char>>) -> Seq<char> {
    "["@ + text::join(items.map_values(|s: Seq<char>| quoted(escaped(s))), ", "@) + "]"@
}

/// The C library of a host in words.
pub open spec fn libc_text(libc: Option<Seq<char>>) -> Seq<char> {
    match libc {
        Some(l) => "Some("@ + quoted(escaped(l)) + ")"@,
        None => "None"@,
    }
}

/// What is said of packed local packages.
pub open spec fn tarball_advice() -> Seq<char> {
    " — kong links local DIRECTORIES but does not install local .tgz files yet. Depend on the unpacked directory (\"file:<dir>\") or publish the package to a registry."@
}

/// An error in words.
pub open spec fn error_text(e: NodeErrorModel) -> Seq<char> {
    match e {
        NodeErrorModel::NotJson { path } => "failed to parse JSON: "@ + path,
        NodeErrorModel::LockTarball { lock_name, key, resolved } => lock_name + ": entry "@
            + quoted(key) + " is a local tarball dependency (resolved: "@ + quoted(resolved) + ")"@
            + tarball_advice(),
        NodeErrorModel::ManifestTarball { path, section, name, version } => path + ": "@ + section
            + " "@ + quoted(name) + ": "@ + quoted(version) + " is a local tarball"@
            + tarball_advice(),
        NodeErrorModel::BadPlatform { name, version, os, cpu, libc, host } => "package '"@ + name
            + "@"@ + version + "' is not compatible with this host (os="@ + list_text(os) + " cpu="@
            + list_text(cpu) + " libc="@ + list_text(libc) + "; host os="@ + host.os + " cpu="@
            + host.cpu + " libc="@ + libc_text(host.libc)
            + ") — it is a required dependency (EBADPLATFORM)"@,
    }
}

fn append_quoted(m: &mut String, s: &str)
    ensures
        final(m)@ == old(m)@ + quoted(s@),
{
    m.append("\"");
    m.append(s);
    m.append("\"");
    assert(m@ =~= old(m)@ + quoted(s@));
}

fn hex_digit(n: u32) -> (r: char)
    requires
        n < 16,
    ensures
        r == hex_char(n as nat),
{
    let digits = chars::of("0123456789abcdef");
    proof {
        reveal_strlit("0123456789abcdef");
    }
    digits[n as usize]
}

fn append_escaped(out: &mut String, c: char)
    ensures
        final(out)@ == old(out)@ + escaped_char(c),
{
    let code: u32 = c as u32;
    if c == '"' {
        out.append("\\\"");
    } else if c == '\\' {
        out.append("\\\\");
    } else if c == '\n' {
        out.append("\\n");
    } else if c == '\r' {
        out.append("\\r");
    } else if c == '\t' {
        out.append("\\t");
    } else if c == '\0' {
        out.append("\\0");
    } else if code < 32 || code == 127 {
        out.append("\\u{");
        if code >= 16 {
            out.push(hex_digit(code / 16));
        }
        out.push(hex_digit(code % 16));
        out.append("}");
        assert(out@ =~= old(out)@ + escaped_char(c));
    } else if code > 127 {
        out.append(unicode::char_escape(c).as_str());
    } else {
        out.push(c);
        assert(out@ =~= old(out)@ + escaped_char(c));
    }
}

fn escape(s: &str) -> (r: String)
    ensures
        r@ == escaped(s@),
{
    let whole = chars::of(s);
    let mut out = String::new();
    let mut i: usize = 0;
    assert(out@ =~= escaped(whole@.take(0)));
    while i < whole.len()
        invariant
            i <= whole.len(),
            whole@ == s@,
            out@ == escaped(whole@.take(i as int)),
        decreases whole.len() - i,
    {
        proof {
            assert(whole@.take(i + 1).drop_last() =~= whole@.take(i as int));
            assert(whole@.take(i + 1).last() == whole@[i as int]);
        }
        append_escaped(&mut out, whole[i]);
        i = i + 1;
    }
    assert(whole@.take(i as int) =~= s@);
    out
}

fn append_list(m: &mut String, items: &Vec<String>)
    ensures
        final(m)@ == old(m)@ + list_text(text::views(items@)),
{
    let ghost texts = text::views(items@);
    let mut parts: Vec<String> = Vec::new();
    let mut i: usize = 0;
    while i < items.len()
        invariant
            i <= items.len(),
            texts == text::views(items@),
            parts@.len() == i,
            forall|k: int| 0 <= k < i ==> (#[trigger] parts@[k])@ == quoted(escaped(texts[k])),
        decreases items.len() - i,
    {
        let mut part = String::new();
        append_quoted(&mut part, escape(items[i].as_str()).as_str());
        assert(part@ =~= quoted(escaped(texts[i as int])));
        parts.push(part);
        i = i + 1;
    }
    assert(text::views(parts@) =~= texts.map_values(|s: Seq<char>| quoted(escaped(s))));
    let joined = chars::join(&parts, ", ");
    m.append("[");
    m.append(joined.as_str());
    m.append("]");
    assert(m@ =~= old(m)@ + list_text(texts));
}

fn append_libc(m: &mut String, libc: &Option<String>)
    ensures
        final(m)@ == old(m)@ + libc_text(text::opt_view(*libc)),
{
    match libc {
        Some(l) => {
            m.append("Some(");
            append_quoted(m, escape(l.as_str()).as_str());
            m.append(")");
            assert(m@ =~= old(m)@ + libc_text(Some(l@)));
        },
        None => {
            m.append("None");
        },
    }
}

fn append_advice(m: &mut String)
    ensures
        final(m)@ == old(m)@ + tarball_advice(),
{
    m.append(
        " — kong links local DIRECTORIES but does not install local .tgz files yet. Depend on the unpacked directory (\"file:<dir>\") or publish the package to a registry.",
    );
}

impl NodeError {
    /// The error in words.
    pub fn message(&self) -> (r: String)
        ensures
            r@ == error_text(self@),
    {
        let mut m = String::new();
        match self {
            NodeError::NotJson { path } => {
                m.append("failed to parse JSON: ");
                m.append(path.as_str());
                assert(m@ =~= error_text(self@));
            },
            NodeError::LockTarball { lock_name, key, resolved } => {
                m.append(lock_name.as_str());
                m.append(": entry ");
                append_quoted(&mut m, key.as_str());
                m.append(" is a local tarball dependency (resolved: ");
                append_quoted(&mut m, resolved.as_str());
                m.append(")");
                append_advice(&mut m);
                assert(m@ =~= error_text(self@));
            },
            NodeError::ManifestTarball { path, section, name, version } => {
                m.append(path.as_str());
                m.append(": ");
                m.append(section.as_str());
                m.append(" ");
                append_quoted(&mut m, name.as_str());
                m.append(": ");
                append_quoted(&mut m, version.as_str());
                m.append(" is a local tarball");
                append_advice(&mut m);
                assert(m@ =~= error_text(self@));
            },
            NodeError::BadPlatform { name, version, os, cpu, libc, host } => {
                m.append("package '");
                m.append(name.as_str());
                m.append("@");
                m.append(version.as_str());
                m.append("' is not compatible with this host (os=");
                append_list(&mut m, os);
                m.append(" cpu=");
                append_list(&mut m, cpu);
                m.append(" libc=");
                append_list(&mut m, libc);
                m.append("; host os=");
                m.append(host.os.as_str());
                m.append(" cpu=");
                m.append(host.cpu.as_str());
                m.append(" libc=");
                append_libc(&mut m, &host.libc);
                m.append(") — it is a required dependency (EBADPLATFORM)");
                assert(m@ =~= error_text(self@));
            },
        }
        m
    }
}

/// The view of an outcome.
pub open spec fn outcome_view(r: Result<Vec<NodeDep>, NodeError>) -> Result<
    Seq<NodeDepModel>,
    NodeErrorModel,
> {
    match r {
        Ok(v) => Ok(dep_views(v@)),
        Err(e) => Err(e@),
    }
}

// ── Keys and paths ──────────────────────────────────────────────────────────
/// The package that a key of a lock file is about: what stands behind the last
/// `node_modules/`.
pub open spec fn leaf(key: Seq<char>) -> Seq<char> {
    match text::rfind_text(key, "node_modules/"@) {
        Some(i) => key.skip(i + "node_modules/"@.len()),
        None => key,
    }
}

/// The path starts with a drive, as in `C:/`.
pub open spec fn has_drive(p: Seq<char>) -> bool {
    &&& p.len() >= 3
    &&& ('a' <= p[0] <= 'z' || 'A' <= p[0] <= 'Z')
    &&& p[1] == ':'
    &&& (p[2] == '/' || p[2] == '\\')
}

/// The path names a packed package.
pub open spec fn is_tarball(p: Seq<char>) -> bool {
    let l = text::ascii_lower(p);
    ".tgz"@.is_suffix_of(l) || ".tar.gz"@.is_suffix_of(l) || ".tar"@.is_suffix_of(l)
}

/// The key is about a package in the tree of the project: one in `node_modules`,
/// or one in the `node_modules` of a member of the project's workspace.
pub open spec fn is_in_tree(key: Seq<char>) -> bool {
    ||| "node_modules/"@.is_prefix_of(key)
    ||| {
        &&& text::contains(key, "/node_modules/"@)
        &&& !"../"@.is_prefix_of(key)
        &&& !"/"@.is_prefix_of(key)
        &&& !has_drive(key)
    }
}

fn leaf_name(key: &[char]) -> (r: String)
    ensures
        r@ == leaf(key@),
{
    match chars::rfind_text(key, "node_modules/") {
        Some(i) => {
            let n: usize = chars::of("node_modules/").len();
            chars::to_string(chars::skip(key, i + n))
        },
        None => chars::to_string(key),
    }
}

pub(crate) fn has_drive_prefix(p: &[char]) -> (r: bool)
    ensures
        r == has_drive(p@),
{
    p.len() >= 3 && (('a' <= p[0] && p[0] <= 'z') || ('A' <= p[0] && p[0] <= 'Z')) && p[1] == ':'
        && (p[2] == '/' || p[2] == '\\')
}

fn is_tarball_path(p: &[char]) -> (r: bool)
    ensures
        r == is_tarball(p@),
{
    let l = chars::ascii_lower(p);
    chars::ends_with(&l, ".tgz") || chars::ends_with(&l, ".tar.gz") || chars::ends_with(&l, ".tar")
}

fn with_slashes(p: &[char]) -> (r: String)
    ensures
        r@ == paths::slashed(p@),
{
    chars::to_string(&chars::replace_char(p, '\\', "/"))
}

fn in_tree(key: &[char]) -> (r: bool)
    ensures
        r == is_in_tree(key@),
{
    chars::starts_with(key, "node_modules/") || (chars::contains(key, "/node_modules/")
        && !chars::starts_with(key, "../") && !chars::starts_with(key, "/") && !has_drive_prefix(
        key,
    ))
}

// ── Entries ─────────────────────────────────────────────────────────────────
/// The texts among some values.
pub open spec fn texts_among(items: Seq<DocModel>) -> Seq<Seq<char>>
    decreases items.len(),
{
    if items.len() == 0 {
        Seq::empty()
    } else {
        let front = texts_among(items.drop_last());
        match items.last() {
            DocModel::Text(s) => front.push(s),
            _ => front,
        }
    }
}

/// The texts of the list under a key; none where there is no list.
pub open spec fn text_list(value: DocModel, key: Seq<char>) -> Seq<Seq<char>> {
    match doc::as_list(doc::get(value, key)) {
        Some(items) => texts_among(items),
        None => Seq::empty(),
    }
}

/// The text under a key, or another where there is none.
pub open spec fn text_or(value: DocModel, key: Seq<char>, other: Seq<char>) -> Seq<char> {
    match doc::text_at(value, key) {
        Some(s) => s,
        None => other,
    }
}

/// A dependency on the registry, by its name and its entry.
pub open spec fn registry_dep(name: Seq<char>, version: Seq<char>, value: DocModel) -> NodeDepModel {
    NodeDepModel {
        name,
        version,
        resolved: doc::text_at(value, "resolved"@),
        integrity: doc::text_at(value, "integrity"@),
        os: text_list(value, "os"@),
        cpu: text_list(value, "cpu"@),
        libc: text_list(value, "libc"@),
        optional: doc::is_true(doc::get(value, "optional"@)),
        local: None,
    }
}

/// A dependency on a local directory.
pub open spec fn local_dep(
    name: Seq<char>,
    version: Seq<char>,
    resolved: Option<Seq<char>>,
    optional: bool,
    path: Seq<char>,
    origin: Seq<char>,
) -> NodeDepModel {
    NodeDepModel {
        name,
        version,
        resolved,
        integrity: None,
        os: Seq::empty(),
        cpu: Seq::empty(),
        libc: Seq::empty(),
        optional,
        local: Some(LocalModel { path: paths::slashed(path), origin }),
    }
}

fn read_str_array(value: &Doc, key: &str) -> (r: Vec<String>)
    ensures
        text::views(r@) == text_list(value@, key@),
{
    let mut out: Vec<String> = Vec::new();
    assert(text::views(out@) =~= Seq::empty());
    if let Some(items) = doc::list_of(value.get(key)) {
        let ghost models = doc::item_models(items@);
        let mut i: usize = 0;
        assert(texts_among(models.take(0)) =~= Seq::empty());
        while i < items.len()
            invariant
                i <= items.len(),
                models == doc::item_models(items@),
                text::views(out@) == texts_among(models.take(i as int)),
            decreases items.len() - i,
        {
            let ghost before = out@;
            proof {
                assert(models.take(i + 1).drop_last() =~= models.take(i as int));
                assert(models.take(i + 1).last() == items@[i as int]@);
            }
            if let Some(s) = items[i].as_str() {
                out.push(s.clone());
                assert(text::views(out@) =~= text::views(before).push(s@));
            }
            i = i + 1;
        }
        assert(models.take(i as int) =~= models);
    }
    out
}

fn clone_opt(o: Option<&String>) -> (r: Option<String>)
    ensures
        text::opt_view(r) == match o {
            Some(s) => Some(s@),
            None => None,
        },
{
    match o {
        Some(s) => Some(s.clone()),
        None => None,
    }
}

fn make_registry_dep(name: String, version: String, value: &Doc) -> (r: NodeDep)
    ensures
        r@ == registry_dep(name@, version@, value@),
{
    NodeDep {
        name,
        version,
        _resolved: clone_opt(doc::text_of(value.get("resolved"))),
        _integrity: clone_opt(doc::text_of(value.get("integrity"))),
        os: read_str_array(value, "os"),
        cpu: read_str_array(value, "cpu"),
        libc: read_str_array(value, "libc"),
        optional: doc::flag_of(value.get("optional")),
        local: None,
    }
}

fn make_local_dep(
    name: String,
    version: String,
    resolved: Option<String>,
    optional: bool,
    path: &[char],
    origin: String,
) -> (r: NodeDep)
    ensures
        r@ == local_dep(name@, version@, text::opt_view(resolved), optional, path@, origin@),
{
    let r = NodeDep {
        name,
        version,
        _resolved: resolved,
        _integrity: None,
        os: Vec::new(),
        cpu: Vec::new(),
        libc: Vec::new(),
        optional,
        local: Some(LocalSource { path: with_slashes(path), origin }),
    };
    assert(r@.os =~= Seq::empty());
    assert(r@.cpu =~= Seq::empty());
    assert(r@.libc =~= Seq::empty());
    r
}

// ── Platforms ───────────────────────────────────────────────────────────────
/// The dependency can be installed on the host.
pub open spec fn fits_host(d: NodeDepModel, host: HostModel) -> bool {
    !is_constrained(d) || platform::compatible(host, d.os, d.cpu, d.libc)
}

/// The dependencies that are installed on the host: those that fit it. One that
/// does not is skipped where it is optional, and else an error.
pub open spec fn host_deps(deps: Seq<NodeDepModel>, host: HostModel) -> Result<
    Seq<NodeDepModel>,
    NodeErrorModel,
>
    decreases deps.len(),
{
    if deps.len() == 0 {
        Ok(Seq::empty())
    } else {
        match host_deps(deps.drop_last(), host) {
            Err(e) => Err(e),
            Ok(kept) => {
                let d = deps.last();
                if fits_host(d, host) {
                    Ok(kept.push(d))
                } else if d.optional {
                    Ok(kept)
                } else {
                    Err(
                        NodeErrorModel::BadPlatform {
                            name: d.name,
                            version: d.version,
                            os: d.os,
                            cpu: d.cpu,
                            libc: d.libc,
                            host,
                        },
                    )
                }
            },
        }
    }
}

/// The first error stays, whatever follows.
proof fn host_error_stays(deps: Seq<NodeDepModel>, n: int, host: HostModel)
    requires
        0 <= n <= deps.len(),
        host_deps(deps.take(n), host) is Err,
    ensures
        host_deps(deps, host) == host_deps(deps.take(n), host),
    decreases deps.len(),
{
    if n < deps.len() {
        assert(deps.drop_last().take(n) =~= deps.take(n));
        host_error_stays(deps.drop_last(), n, host);
    } else {
        assert(deps.take(n) =~= deps);
    }
}

/// Keeps the dependencies that are installed on the host. One that does not fit it
/// is skipped where it is optional, and else an error.
pub fn filter_for_host(deps: Vec<NodeDep>, host: &HostTriple) -> (r: Result<
    Vec<NodeDep>,
    NodeError,
>)
    ensures
        outcome_view(r) == host_deps(dep_views(deps@), host@),
{
    let ghost models = dep_views(deps@);
    let mut kept: Vec<NodeDep> = Vec::new();
    assert(dep_views(kept@) =~= Seq::empty());
    assert(models.take(0) =~= Seq::empty());
    for d in it: deps
        invariant
            it.seq() == deps@,
            models == dep_views(deps@),
            host_deps(models.take(it.index()), host@) == Ok::<Seq<NodeDepModel>, NodeErrorModel>(
                dep_views(kept@),
            ),
    {
        let ghost before = kept@;
        let ghost i = it.index();
        proof {
            assert(d@ == models[i]);
            assert(models.take(i + 1).drop_last() =~= models.take(i));
            assert(models.take(i + 1).last() == d@);
        }
        if !d.has_platform_constraint() || platform::is_compatible(
            host,
            &d.os,
            &d.cpu,
            &d.libc,
        ) {
            let ghost model = d@;
            kept.push(d);
            assert(dep_views(kept@) =~= dep_views(before).push(model));
        } else if !d.optional {
            proof {
                host_error_stays(models, i + 1, host@);
            }
            return Err(
                NodeError::BadPlatform {
                    name: d.name,
                    version: d.version,
                    os: d.os,
                    cpu: d.cpu,
                    libc: d.libc,
                    host: HostTriple {
                        os: host.os.clone(),
                        cpu: host.cpu.clone(),
                        libc: clone_opt(host.libc.as_ref()),
                    },
                },
            );
        }
    }
    assert(models.take(models.len() as int) =~= models);
    Ok(kept)
}

/// Every dependency that is kept fits the host.
pub proof fn kept_deps_fit(deps: Seq<NodeDepModel>, host: HostModel, i: int)
    requires
        host_deps(deps, host) matches Ok(kept) && 0 <= i < kept.len(),
    ensures
        fits_host(host_deps(deps, host)->Ok_0[i], host),
        deps.contains(host_deps(deps, host)->Ok_0[i]),
    decreases deps.len(),
{
    let front = host_deps(deps.drop_last(), host)->Ok_0;
    if i < front.len() {
        kept_deps_fit(deps.drop_last(), host, i);
        let d = front[i];
        let k = choose|k: int| 0 <= k < deps.drop_last().len() && deps.drop_last()[k] == d;
        assert(deps[k] == d);
    } else {
        assert(deps[deps.len() - 1] == deps.last());
    }
}

/// Dependencies that were kept are all kept when they are filtered again.
pub proof fn filtering_is_stable(deps: Seq<NodeDepModel>, host: HostModel)
    requires
        forall|i: int| 0 <= i < deps.len() ==> fits_host(#[trigger] deps[i], host),
    ensures
        host_deps(deps, host) == Ok::<Seq<NodeDepModel>, NodeErrorModel>(deps),
    decreases deps.len(),
{
    if deps.len() > 0 {
        filtering_is_stable(deps.drop_last(), host);
        assert(deps.drop_last().push(deps.last()) =~= deps);
    } else {
        assert(deps =~= Seq::empty());
    }
}

// ── package-lock.json ───────────────────────────────────────────────────────
/// The local package that a link entry of a lock file stands for. A link into a
/// `node_modules` tree is none, since its target has an entry of its own; a link
/// that is not at the top of the project's tree is none either.
pub open spec fn link_dep(
    key: Seq<char>,
    value: DocModel,
    packages: Seq<(Seq<char>, DocModel)>,
    lock_name: Seq<char>,
) -> Option<NodeDepModel> {
    match doc::text_at(value, "resolved"@) {
        None => None,
        Some(resolved) => {
            let target = paths::slashed(resolved);
            if "node_modules/"@.is_prefix_of(target) || text::contains(target, "/node_modules/"@) {
                None
            } else if !"node_modules/"@.is_prefix_of(key) || text::contains(
                key.skip("node_modules/"@.len() as int),
                "/node_modules/"@,
            ) {
                None
            } else {
                Some(
                    local_dep(
                        leaf(key),
                        match doc::lookup(packages, resolved) {
                            Some(t) => text_or(t, "version"@, "0.0.0"@),
                            None => "0.0.0"@,
                        },
                        Some(resolved),
                        doc::is_true(doc::get(value, "optional"@)),
                        resolved,
                        lock_name + " entry \""@ + key + "\" (link → \""@ + resolved + "\")"@,
                    ),
                )
            }
        },
    }
}

/// The dependency that an entry of a lock file stands for, if it does.
///
/// The entry of the project itself does not, nor one outside the project's tree.
/// A package that was installed from a local directory is local; a packed one is
/// an error. Any other entry with a version comes from the registry.
pub open spec fn lock_entry(
    key: Seq<char>,
    value: DocModel,
    packages: Seq<(Seq<char>, DocModel)>,
    lock_name: Seq<char>,
) -> Result<Option<NodeDepModel>, NodeErrorModel> {
    if key.len() == 0 {
        Ok(None)
    } else if doc::is_true(doc::get(value, "link"@)) {
        Ok(link_dep(key, value, packages, lock_name))
    } else if !is_in_tree(key) {
        Ok(None)
    } else {
        let file = match doc::text_at(value, "resolved"@) {
            Some(resolved) => text::strip_prefix(resolved, "file:"@),
            None => None,
        };
        match file {
            Some(path) => {
                let resolved = doc::text_at(value, "resolved"@)->0;
                if is_tarball(path) {
                    Err(NodeErrorModel::LockTarball { lock_name, key, resolved })
                } else {
                    Ok(
                        Some(
                            local_dep(
                                leaf(key),
                                text_or(value, "version"@, "0.0.0"@),
                                Some(resolved),
                                false,
                                path,
                                lock_name + " entry \""@ + key + "\" (resolved: \""@ + resolved
                                    + "\")"@,
                            ),
                        ),
                    )
                }
            },
            None => {
                let version = text_or(value, "version"@, Seq::empty());
                if version.len() > 0 {
                    Ok(Some(registry_dep(leaf(key), version, value)))
                } else {
                    Ok(None)
                }
            },
        }
    }
}

/// Dependencies and one more, unless there is an error.
pub open spec fn extended(
    front: Result<Seq<NodeDepModel>, NodeErrorModel>,
    next: Result<Option<NodeDepModel>, NodeErrorModel>,
) -> Result<Seq<NodeDepModel>, NodeErrorModel> {
    match front {
        Err(e) => Err(e),
        Ok(deps) => match next {
            Err(e) => Err(e),
            Ok(None) => Ok(deps),
            Ok(Some(d)) => Ok(deps.push(d)),
        },
    }
}

/// The dependencies of entries of a lock file whose packages are `packages`.
pub open spec fn lock_entries(
    entries: Seq<(Seq<char>, DocModel)>,
    packages: Seq<(Seq<char>, DocModel)>,
    lock_name: Seq<char>,
) -> Result<Seq<NodeDepModel>, NodeErrorModel>
    decreases entries.len(),
{
    if entries.len() == 0 {
        Ok(Seq::empty())
    } else {
        extended(
            lock_entries(entries.drop_last(), packages, lock_name),
            lock_entry(entries.last().0, entries.last().1, packages, lock_name),
        )
    }
}

proof fn lock_error_stays(
    entries: Seq<(Seq<char>, DocModel)>,
    n: int,
    packages: Seq<(Seq<char>, DocModel)>,
    lock_name: Seq<char>,
)
    requires
        0 <= n <= entries.len(),
        lock_entries(entries.take(n), packages, lock_name) is Err,
    ensures
        lock_entries(entries, packages, lock_name) == lock_entries(
            entries.take(n),
            packages,
            lock_name,
        ),
    decreases entries.len(),
{
    if n < entries.len() {
        assert(entries.drop_last().take(n) =~= entries.take(n));
        lock_error_stays(entries.drop_last(), n, packages, lock_name);
    } else {
        assert(entries.take(n) =~= entries);
    }
}

/// A value found under a key is smaller than the entries it is found in.
pub proof fn lookup_is_smaller(entries: Seq<(Seq<char>, DocModel)>, key: Seq<char>)
    ensures
        doc::lookup(entries, key) matches Some(d) ==> decreases_to!(entries => d),
    decreases entries.len(),
{
    if entries.len() > 0 {
        if entries[0].0 == key {
            assert(decreases_to!(entries => entries[0]));
            assert(decreases_to!(entries[0] => entries[0].1));
        } else {
            lookup_is_smaller(entries.skip(1), key);
            assert(decreases_to!(entries => entries.skip(1)));
        }
    }
}

/// The local path in a version of an old lock file or a manifest.
pub open spec fn local_spec(version: Seq<char>) -> Option<Seq<char>> {
    match text::strip_prefix(version, "file:"@) {
        Some(p) => Some(p),
        None => text::strip_prefix(version, "link:"@),
    }
}

/// The dependencies of an entry of a lock file of the first version: its own, and
/// those nested in it.
pub open spec fn v1_entry(name: Seq<char>, value: DocModel) -> Seq<NodeDepModel>
    decreases value, 0int,
{
    let version = text_or(value, "version"@, Seq::empty());
    match local_spec(version) {
        Some(path) => if is_tarball(path) {
            Seq::empty()
        } else {
            seq![
                local_dep(
                    name,
                    "0.0.0"@,
                    None,
                    false,
                    path,
                    "package-lock.json (v1) dependency \""@ + name + "\": \""@ + version + "\""@,
                ),
            ]
        },
        None => {
            let own = if version.len() > 0 {
                seq![registry_dep(name, version, value)]
            } else {
                Seq::empty()
            };
            match value {
                DocModel::Table(fields) => {
                    proof {
                        lookup_is_smaller(fields, "dependencies"@);
                    }
                    match doc::lookup(fields, "dependencies"@) {
                        Some(DocModel::Table(nested)) => own + v1_entries(nested),
                        _ => own,
                    }
                },
                _ => own,
            }
        },
    }
}

/// The dependencies of entries of a lock file of the first version.
pub open spec fn v1_entries(entries: Seq<(Seq<char>, DocModel)>) -> Seq<NodeDepModel>
    decreases entries, 1int,
{
    if entries.len() == 0 {
        Seq::empty()
    } else {
        v1_entries(entries.drop_last()) + v1_entry(entries.last().0, entries.last().1)
    }
}

/// The dependencies of a `package-lock.json`.
pub open spec fn package_lock_deps(lock: DocModel, lock_name: Seq<char>) -> Result<
    Seq<NodeDepModel>,
    NodeErrorModel,
> {
    match doc::as_table(doc::get(lock, "packages"@)) {
        Some(packages) => lock_entries(packages, packages, lock_name),
        None => match doc::as_table(doc::get(lock, "dependencies"@)) {
            Some(entries) => Ok(v1_entries(entries)),
            None => Ok(Seq::empty()),
        },
    }
}

fn local_dep_from_link(key: &str, value: &Doc, packages: &Doc, lock_name: &str) -> (r: Option<
    NodeDep,
>)
    requires
        packages@ is Table,
    ensures
        match r {
            Some(d) => link_dep(key@, value@, packages@->Table_0, lock_name@) == Some(d@),
            None => link_dep(key@, value@, packages@->Table_0, lock_name@) is None,
        },
{
    let resolved = match doc::text_of(value.get("resolved")) {
        Some(s) => s,
        None => {
            return None;
        },
    };
    let raw = chars::of(resolved.as_str());
    let target = chars::replace_char(&raw, '\\', "/");
    if chars::starts_with(&target, "node_modules/") || chars::contains(&target, "/node_modules/") {
        return None;
    }
    let whole = chars::of(key);
    match chars::strip_prefix(&whole, "node_modules/") {
        None => {
            return None;
        },
        Some(rest) => {
            if chars::contains(rest, "/node_modules/") {
                return None;
            }
        },
    }
    let version = match doc::text_of(doc::get_in(packages.get(resolved.as_str()), "version")) {
        Some(v) => v.clone(),
        None => String::from_str("0.0.0"),
    };
    let mut origin = String::from_str(lock_name);
    origin.append(" entry \"");
    origin.append(key);
    origin.append("\" (link → \"");
    origin.append(resolved.as_str());
    origin.append("\")");
    Some(
        make_local_dep(
            leaf_name(&whole),
            version,
            Some(resolved.clone()),
            doc::flag_of(value.get("optional")),
            &raw,
            origin,
        ),
    )
}

/// The outcome of one entry.
spec fn entry_view(r: Result<Option<NodeDep>, NodeError>) -> Result<
    Option<NodeDepModel>,
    NodeErrorModel,
> {
    match r {
        Ok(Some(d)) => Ok(Some(d@)),
        Ok(None) => Ok(None),
        Err(e) => Err(e@),
    }
}

fn read_lock_entry(key: &str, value: &Doc, packages: &Doc, lock_name: &str) -> (r: Result<
    Option<NodeDep>,
    NodeError,
>)
    requires
        packages@ is Table,
    ensures
        entry_view(r) == lock_entry(key@, value@, packages@->Table_0, lock_name@),
{
    let whole = chars::of(key);
    if whole.len() == 0 {
        return Ok(None);
    }
    if doc::flag_of(value.get("link")) {
        return Ok(local_dep_from_link(key, value, packages, lock_name));
    }
    if !in_tree(&whole) {
        return Ok(None);
    }
    if let Some(resolved) = doc::text_of(value.get("resolved")) {
        let raw = chars::of(resolved.as_str());
        if let Some(path) = chars::strip_prefix(&raw, "file:") {
            if is_tarball_path(path) {
                return Err(
                    NodeError::LockTarball {
                        lock_name: String::from_str(lock_name),
                        key: String::from_str(key),
                        resolved: resolved.clone(),
                    },
                );
            }
            let version = match doc::text_of(value.get("version")) {
                Some(v) => v.clone(),
                None => String::from_str("0.0.0"),
            };
            let mut origin = String::from_str(lock_name);
            origin.append(" entry \"");
            origin.append(key);
            origin.append("\" (resolved: \"");
            origin.append(resolved.as_str());
            origin.append("\")");
            return Ok(
                Some(
                    make_local_dep(
                        leaf_name(&whole),
                        version,
                        Some(resolved.clone()),
                        false,
                        path,
                        origin,
                    ),
                ),
            );
        }
    }
    match doc::text_of(value.get("version")) {
        Some(version) => {
            if version.as_str().is_empty() {
                Ok(None)
            } else {
                Ok(Some(make_registry_dep(leaf_name(&whole), version.clone(), value)))
            }
        },
        None => Ok(None),
    }
}

fn read_packages(packages: &Doc, lock_name: &str) -> (r: Result<Vec<NodeDep>, NodeError>)
    requires
        packages@ is Table,
    ensures
        outcome_view(r) == lock_entries(
            packages@->Table_0,
            packages@->Table_0,
            lock_name@,
        ),
{
    let mut deps: Vec<NodeDep> = Vec::new();
    let entries = match packages.as_table() {
        Some(entries) => entries,
        None => {
            return Ok(deps);
        },
    };
    let ghost models = doc::entry_models(entries@);
    let mut i: usize = 0;
    assert(dep_views(deps@) =~= Seq::empty());
    while i < entries.len()
        invariant
            i <= entries.len(),
            models == doc::entry_models(entries@),
            packages@ == DocModel::Table(models),
            lock_entries(models.take(i as int), models, lock_name@) == Ok::<
                Seq<NodeDepModel>,
                NodeErrorModel,
            >(dep_views(deps@)),
        decreases entries.len() - i,
    {
        let ghost before = deps@;
        proof {
            assert(models.take(i + 1).drop_last() =~= models.take(i as int));
            assert(models.take(i + 1).last() == (entries@[i as int].0@, entries@[i as int].1@));
        }
        match read_lock_entry(entries[i].0.as_str(), &entries[i].1, packages, lock_name) {
            Ok(Some(d)) => {
                let ghost model = d@;
                deps.push(d);
                assert(dep_views(deps@) =~= dep_views(before).push(model));
            },
            Ok(None) => {},
            Err(e) => {
                proof {
                    lock_error_stays(models, i + 1, models, lock_name@);
                }
                return Err(e);
            },
        }
        i = i + 1;
    }
    assert(models.take(i as int) =~= models);
    Ok(deps)
}

fn parse_v1_deps(entries: &Vec<(String, Doc)>, out: &mut Vec<NodeDep>)
    ensures
        dep_views(final(out)@) == dep_views(old(out)@) + v1_entries(doc::entry_models(entries@)),
    decreases doc::entry_models(entries@),
{
    let ghost models = doc::entry_models(entries@);
    let ghost start = dep_views(out@);
    let mut i: usize = 0;
    assert(start + v1_entries(models.take(0)) =~= start);
    while i < entries.len()
        invariant
            i <= entries.len(),
            models == doc::entry_models(entries@),
            dep_views(out@) == start + v1_entries(models.take(i as int)),
        decreases entries.len() - i,
    {
        let ghost front = v1_entries(models.take(i as int));
        let ghost before = out@;
        let name = &entries[i].0;
        let value = &entries[i].1;
        proof {
            assert(models.take(i + 1).drop_last() =~= models.take(i as int));
            assert(models.take(i + 1).last() == (name@, value@));
            assert(models[i as int] == (name@, value@));
            assert(decreases_to!(models => models[i as int]));
            assert(decreases_to!(models[i as int] => models[i as int].1));
        }
        let version = match doc::text_of(value.get("version")) {
            Some(v) => v.clone(),
            None => String::new(),
        };
        assert(version@ == text_or(value@, "version"@, Seq::empty()));
        let raw = chars::of(version.as_str());
        let spec = match chars::strip_prefix(&raw, "file:") {
            Some(p) => Some(p),
            None => chars::strip_prefix(&raw, "link:"),
        };
        match spec {
            Some(path) => {
                if !is_tarball_path(path) {
                    let mut origin = String::from_str("package-lock.json (v1) dependency \"");
                    origin.append(name.as_str());
                    origin.append("\": \"");
                    origin.append(version.as_str());
                    origin.append("\"");
                    let d = make_local_dep(
                        name.clone(),
                        String::from_str("0.0.0"),
                        None,
                        false,
                        path,
                        origin,
                    );
                    let ghost model = d@;
                    out.push(d);
                    assert(dep_views(out@) =~= dep_views(before).push(model));
                    assert(v1_entry(name@, value@) == seq![model]);
                    assert(dep_views(out@) =~= start + (front + seq![model]));
                } else {
                    assert(v1_entry(name@, value@) =~= Seq::empty());
                    assert(front + Seq::<NodeDepModel>::empty() =~= front);
                }
            },
            None => {
                let ghost mut own: Seq<NodeDepModel> = Seq::empty();
                if !version.as_str().is_empty() {
                    let d = make_registry_dep(name.clone(), version, value);
                    proof {
                        own = seq![d@];
                    }
                    out.push(d);
                }
                assert(dep_views(out@) =~= dep_views(before) + own);
                let ghost middle = dep_views(out@);
                if let Some(nested) = doc::table_of(value.get("dependencies")) {
                    proof {
                        lookup_is_smaller(value@->Table_0, "dependencies"@);
                        assert(decreases_to!(value@ => value@->Table_0));
                        let inner = doc::lookup(value@->Table_0, "dependencies"@)->0;
                        assert(inner == DocModel::Table(doc::entry_models(nested@)));
                        assert(decreases_to!(inner => inner->Table_0));
                    }
                    parse_v1_deps(nested, out);
                    assert(v1_entry(name@, value@) == own + v1_entries(
                        doc::entry_models(nested@),
                    ));
                    assert(dep_views(out@) =~= start + (front + (own + v1_entries(
                        doc::entry_models(nested@),
                    ))));
                } else {
                    assert(v1_entry(name@, value@) == own);
                    assert(dep_views(out@) =~= start + (front + own));
                }
            },
        }
        i = i + 1;
    }
    assert(models.take(i as int) =~= models);
}

/// The dependencies of a `package-lock.json` that has been read. `lock_name` is
/// the name of the file, for messages.
pub fn read_package_lock(lock: &Doc, lock_name: &str) -> (r: Result<Vec<NodeDep>, NodeError>)
    ensures
        outcome_view(r) == package_lock_deps(lock@, lock_name@),
{
    if let Some(packages) = lock.get("packages") {
        if packages.as_table().is_some() {
            return read_packages(packages, lock_name);
        }
    }
    let mut deps: Vec<NodeDep> = Vec::new();
    assert(dep_views(deps@) =~= Seq::empty());
    if let Some(entries) = doc::table_of(lock.get("dependencies")) {
        parse_v1_deps(entries, &mut deps);
        assert(dep_views(deps@) =~= v1_entries(doc::entry_models(entries@)));
    }
    Ok(deps)
}

/// The name of the lock file at a path, for messages.
pub open spec fn lock_name_of(path: Seq<char>) -> Seq<char> {
    match extract::file_name(path) {
        Some(name) => name,
        None => "package-lock.json"@,
    }
}

/// What the `package-lock.json` at a path declares, by its text.
pub open spec fn package_lock_outcome(content: Seq<char>, path: Seq<char>) -> Result<
    Seq<NodeDepModel>,
    NodeErrorModel,
> {
    match doc::json_document(content) {
        Some(d) => package_lock_deps(d, lock_name_of(path)),
        None => Err(NodeErrorModel::NotJson { path }),
    }
}

/// The dependencies of the `package-lock.json` at a path, by its content.
pub fn parse_package_lock(content: &str, path: &str) -> (r: Result<Vec<NodeDep>, NodeError>)
    ensures
        outcome_view(r) == package_lock_outcome(content@, path@),
{
    match doc::parse_json(content) {
        Some(d) => {
            let lock_name = match extract::name_of(&chars::of(path)) {
                Some(name) => name,
                None => String::from_str("package-lock.json"),
            };
            read_package_lock(&d, lock_name.as_str())
        },
        None => Err(NodeError::NotJson { path: String::from_str(path) }),
    }
}

// ── package.json ────────────────────────────────────────────────────────────
/// A version range without the signs before it.
pub open spec fn bare_version(range: Seq<char>) -> Seq<char> {
    text::trim_start_text(
        text::trim_start_set(text::trim_start_set(range, "^"@), "~"@),
        ">="@,
    )
}

/// The dependency of an entry of the `package.json` at a path, if it gives a version.
pub open spec fn manifest_entry(
    path: Seq<char>,
    section: Seq<char>,
    name: Seq<char>,
    value: DocModel,
) -> Result<Option<NodeDepModel>, NodeErrorModel> {
    let version = match value {
        DocModel::Text(s) => s,
        _ => Seq::empty(),
    };
    match local_spec(version) {
        Some(dir) => if is_tarball(dir) {
            Err(NodeErrorModel::ManifestTarball { path, section, name, version })
        } else {
            Ok(
                Some(
                    local_dep(
                        name,
                        "0.0.0"@,
                        None,
                        false,
                        dir,
                        "package.json "@ + section + " \""@ + name + "\": \""@ + version + "\""@,
                    ),
                ),
            )
        },
        None => {
            let bare = bare_version(version);
            if bare.len() > 0 {
                Ok(
                    Some(
                        NodeDepModel {
                            name,
                            version: bare,
                            resolved: None,
                            integrity: None,
                            os: Seq::empty(),
                            cpu: Seq::empty(),
                            libc: Seq::empty(),
                            optional: false,
                            local: None,
                        },
                    ),
                )
            } else {
                Ok(None)
            }
        },
    }
}

/// Dependencies, and behind them those of entries of a section of a
/// `package.json`.
pub open spec fn manifest_entries(
    front: Result<Seq<NodeDepModel>, NodeErrorModel>,
    path: Seq<char>,
    section: Seq<char>,
    entries: Seq<(Seq<char>, DocModel)>,
) -> Result<Seq<NodeDepModel>, NodeErrorModel>
    decreases entries.len(),
{
    if entries.len() == 0 {
        front
    } else {
        extended(
            manifest_entries(front, path, section, entries.drop_last()),
            manifest_entry(path, section, entries.last().0, entries.last().1),
        )
    }
}

/// Dependencies, and behind them those of a section of a `package.json`.
pub open spec fn manifest_section(
    front: Result<Seq<NodeDepModel>, NodeErrorModel>,
    manifest: DocModel,
    path: Seq<char>,
    section: Seq<char>,
) -> Result<Seq<NodeDepModel>, NodeErrorModel> {
    match doc::as_table(doc::get(manifest, section)) {
        Some(entries) => manifest_entries(front, path, section, entries),
        None => front,
    }
}

/// The dependencies of a `package.json`: those of use, then those of development.
pub open spec fn package_json_deps(manifest: DocModel, path: Seq<char>) -> Result<
    Seq<NodeDepModel>,
    NodeErrorModel,
> {
    manifest_section(
        manifest_section(Ok(Seq::empty()), manifest, path, "dependencies"@),
        manifest,
        path,
        "devDependencies"@,
    )
}

proof fn manifest_error_stays(
    front: Result<Seq<NodeDepModel>, NodeErrorModel>,
    path: Seq<char>,
    section: Seq<char>,
    entries: Seq<(Seq<char>, DocModel)>,
    n: int,
)
    requires
        0 <= n <= entries.len(),
        manifest_entries(front, path, section, entries.take(n)) is Err,
    ensures
        manifest_entries(front, path, section, entries) == manifest_entries(
            front,
            path,
            section,
            entries.take(n),
        ),
    decreases entries.len(),
{
    if n < entries.len() {
        assert(entries.drop_last().take(n) =~= entries.take(n));
        manifest_error_stays(front, path, section, entries.drop_last(), n);
    } else {
        assert(entries.take(n) =~= entries);
    }
}

fn read_manifest_entry(path: &str, section: &str, name: &str, value: &Doc) -> (r: Result<
    Option<NodeDep>,
    NodeError,
>)
    ensures
        entry_view(r) == manifest_entry(path@, section@, name@, value@),
{
    let version = match value.as_str() {
        Some(v) => v.clone(),
        None => String::new(),
    };
    let raw = chars::of(version.as_str());
    let spec = match chars::strip_prefix(&raw, "file:") {
        Some(p) => Some(p),
        None => chars::strip_prefix(&raw, "link:"),
    };
    if let Some(dir) = spec {
        if is_tarball_path(dir) {
            return Err(
                NodeError::ManifestTarball {
                    path: String::from_str(path),
                    section: String::from_str(section),
                    name: String::from_str(name),
                    version,
                },
            );
        }
        let mut origin = String::from_str("package.json ");
        origin.append(section);
        origin.append(" \"");
        origin.append(name);
        origin.append("\": \"");
        origin.append(version.as_str());
        origin.append("\"");
        return Ok(
            Some(
                make_local_dep(
                    String::from_str(name),
                    String::from_str("0.0.0"),
                    None,
                    false,
                    dir,
                    origin,
                ),
            ),
        );
    }
    let bare = chars::trim_start_text(
        chars::trim_start_set(chars::trim_start_set(&raw, "^"), "~"),
        ">=",
    );
    if bare.len() == 0 {
        return Ok(None);
    }
    let d = NodeDep {
        name: String::from_str(name),
        version: chars::to_string(bare),
        _resolved: None,
        _integrity: None,
        os: Vec::new(),
        cpu: Vec::new(),
        libc: Vec::new(),
        optional: false,
        local: None,
    };
    assert(d@.os =~= Seq::empty());
    assert(d@.cpu =~= Seq::empty());
    assert(d@.libc =~= Seq::empty());
    Ok(Some(d))
}

fn read_manifest_section(
    manifest: &Doc,
    path: &str,
    section: &str,
    earlier: Vec<NodeDep>,
) -> (r: Result<Vec<NodeDep>, NodeError>)
    ensures
        outcome_view(r) == manifest_section(Ok(dep_views(earlier@)), manifest@, path@, section@),
{
    let ghost front: Result<Seq<NodeDepModel>, NodeErrorModel> = Ok(dep_views(earlier@));
    let mut deps = earlier;
    let entries = match doc::table_of(manifest.get(section)) {
        Some(entries) => entries,
        None => {
            return Ok(deps);
        },
    };
    let ghost models = doc::entry_models(entries@);
    let mut i: usize = 0;
    assert(models.take(0) =~= Seq::empty());
    while i < entries.len()
        invariant
            i <= entries.len(),
            models == doc::entry_models(entries@),
            doc::as_table(doc::get(manifest@, section@)) == Some(models),
            front == Ok::<Seq<NodeDepModel>, NodeErrorModel>(dep_views(earlier@)),
            manifest_entries(front, path@, section@, models.take(i as int)) == Ok::<
                Seq<NodeDepModel>,
                NodeErrorModel,
            >(dep_views(deps@)),
        decreases entries.len() - i,
    {
        let ghost before = deps@;
        proof {
            assert(models.take(i + 1).drop_last() =~= models.take(i as int));
            assert(models.take(i + 1).last() == (entries@[i as int].0@, entries@[i as int].1@));
        }
        match read_manifest_entry(path, section, entries[i].0.as_str(), &entries[i].1) {
            Ok(Some(d)) => {
                let ghost model = d@;
                deps.push(d);
                assert(dep_views(deps@) =~= dep_views(before).push(model));
            },
            Ok(None) => {},
            Err(e) => {
                proof {
                    manifest_error_stays(front, path@, section@, models, i + 1);
                }
                return Err(e);
            },
        }
        i = i + 1;
    }
    assert(models.take(i as int) =~= models);
    Ok(deps)
}

/// The dependencies of a `package.json` that has been read.
pub fn read_package_json(manifest: &Doc, path: &str) -> (r: Result<Vec<NodeDep>, NodeError>)
    ensures
        outcome_view(r) == package_json_deps(manifest@, path@),
{
    let none: Vec<NodeDep> = Vec::new();
    assert(dep_views(none@) =~= Seq::empty());
    match read_manifest_section(manifest, path, "dependencies", none) {
        Ok(deps) => read_manifest_section(manifest, path, "devDependencies", deps),
        Err(e) => {
            proof {
                section_error_stays(e@, manifest@, path@, "devDependencies"@);
            }
            Err(e)
        },
    }
}

proof fn section_error_stays(
    e: NodeErrorModel,
    manifest: DocModel,
    path: Seq<char>,
    section: Seq<char>,
)
    ensures
        manifest_section(Err(e), manifest, path, section) == Err::<
            Seq<NodeDepModel>,
            NodeErrorModel,
        >(e),
{
    if let Some(entries) = doc::as_table(doc::get(manifest, section)) {
        assert(entries.take(0) =~= Seq::empty());
        manifest_error_stays(Err(e), path, section, entries, 0);
    }
}

/// What the `package.json` at a path declares, by its text.
pub open spec fn package_json_outcome(content: Seq<char>, path: Seq<char>) -> Result<
    Seq<NodeDepModel>,
    NodeErrorModel,
> {
    match doc::json_document(content) {
        Some(d) => package_json_deps(d, path),
        None => Err(NodeErrorModel::NotJson { path }),
    }
}

/// The dependencies of the `package.json` at a path, by its content.
pub fn parse_package_json(content: &str, path: &str) -> (r: Result<Vec<NodeDep>, NodeError>)
    ensures
        outcome_view(r) == package_json_outcome(content@, path@),
{
    match doc::parse_json(content) {
        Some(d) => read_package_json(&d, path),
        None => Err(NodeError::NotJson { path: String::from_str(path) }),
    }
}

// ── Detection ───────────────────────────────────────────────────────────────
/// What a project declares, by its `package-lock.json`, or without one by its
/// `package.json`.
pub open spec fn project_deps(
    dir: Seq<char>,
    package_lock: Option<Seq<char>>,
    package_json: Option<Seq<char>>,
) -> Result<Seq<NodeDepModel>, NodeErrorModel> {
    match package_lock {
        Some(content) => package_lock_outcome(content, paths::joined(dir, "package-lock.json"@)),
        None => match package_json {
            Some(content) => package_json_outcome(content, paths::joined(dir, "package.json"@)),
            None => Ok(Seq::empty()),
        },
    }
}

/// What of a project's dependencies is installed on a host.
pub open spec fn installed_deps(
    dir: Seq<char>,
    package_lock: Option<Seq<char>>,
    package_json: Option<Seq<char>>,
    host: HostModel,
) -> Result<Seq<NodeDepModel>, NodeErrorModel> {
    match project_deps(dir, package_lock, package_json) {
        Ok(deps) => host_deps(deps, host),
        Err(e) => Err(e),
    }
}

fn parse_all(dir: &str, package_lock: Option<&str>, package_json: Option<&str>) -> (r: Result<
    Vec<NodeDep>,
    NodeError,
>)
    ensures
        outcome_view(r) == project_deps(
            dir@,
            text::opt_str_view(package_lock),
            text::opt_str_view(package_json),
        ),
{
    if let Some(content) = package_lock {
        return parse_package_lock(content, paths::join(dir, "package-lock.json").as_str());
    }
    if let Some(content) = package_json {
        return parse_package_json(content, paths::join(dir, "package.json").as_str());
    }
    let none: Vec<NodeDep> = Vec::new();
    assert(dep_views(none@) =~= Seq::empty());
    Ok(none)
}

/// The dependencies of a project that are installed on the machine that it is
/// on, by its directory and the contents of its `package-lock.json` and
/// `package.json` where it has them.
pub fn detect_and_parse(
    dir: &str,
    package_lock: Option<&str>,
    package_json: Option<&str>,
    current: &HostTriple,
) -> (r: Result<Vec<NodeDep>, NodeError>)
    ensures
        outcome_view(r) == installed_deps(
            dir@,
            text::opt_str_view(package_lock),
            text::opt_str_view(package_json),
            current@,
        ),
{
    detect_and_parse_for_host(dir, package_lock, package_json, current)
}

/// The dependencies of a project that are installed on a host.
pub fn detect_and_parse_for_host(
    dir: &str,
    package_lock: Option<&str>,
    package_json: Option<&str>,
    host: &HostTriple,
) -> (r: Result<Vec<NodeDep>, NodeError>)
    ensures
        outcome_view(r) == installed_deps(
            dir@,
            text::opt_str_view(package_lock),
            text::opt_str_view(package_json),
            host@,
        ),
{
    match parse_all(dir, package_lock, package_json) {
        Ok(deps) => filter_for_host(deps, host),
        Err(e) => Err(e),
    }
}

// ── Laws ────────────────────────────────────────────────────────────────────
/// No entry outside the project's tree becomes a dependency on the registry.
pub proof fn outside_entries_are_dropped(
    key: Seq<char>,
    value: DocModel,
    packages: Seq<(Seq<char>, DocModel)>,
    lock_name: Seq<char>,
)
    requires
        !is_in_tree(key),
    ensures
        match lock_entry(key, value, packages, lock_name) {
            Ok(Some(d)) => d.local is Some,
            Ok(None) => true,
            Err(_) => false,
        },
{
}

/// A local package is never asked of the registry, and carries no constraint on
/// platforms.
pub proof fn local_packages_are_unconstrained(
    key: Seq<char>,
    value: DocModel,
    packages: Seq<(Seq<char>, DocModel)>,
    lock_name: Seq<char>,
    host: HostModel,
)
    ensures
        lock_entry(key, value, packages, lock_name) matches Ok(Some(d)) ==> d.local is Some
            ==> fits_host(d, host),
{
}

} // verus!
