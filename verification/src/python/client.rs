//! What is asked of PyPI, and what its answers mean.
use vstd::prelude::*;

use crate::chars;
use crate::doc;
use crate::doc::Doc;
use crate::doc::DocModel;
use crate::python::markers;
use crate::python::markers::EnvModel;
use crate::python::markers::MarkerEnv;
use crate::python::pep440;
use crate::python::pep440::ClauseModel;
use crate::python::pep440::SpecifierSet;
use crate::python::wheel;
use crate::python::wheel::PypiFileEntry;
use crate::text;
use crate::unicode;

verus! {

/// A dependency that a package declares.
///
/// `version` is a version only where the package asks for exactly that one, with
/// `==X.Y.Z`; otherwise it is empty, and `spec` says which versions are accepted.
#[derive(Debug)]
pub struct TransitiveDep {
    pub name: String,
    pub version: String,
    /// The specifier as it was declared.
    pub spec: String,
}

/// What a declared dependency holds.
pub struct DepModel {
    pub name: Seq<char>,
    pub version: Seq<char>,
    pub spec: Seq<char>,
}

impl View for TransitiveDep {
    type V = DepModel;

    open spec fn view(&self) -> DepModel {
        DepModel { name: self.name@, version: self.version@, spec: self.spec@ }
    }
}

/// What a list of declared dependencies holds.
pub open spec fn dep_views(v: Seq<TransitiveDep>) -> Seq<DepModel> {
    Seq::new(v.len(), |i: int| v[i]@)
}

/// The version text of a set of clauses that is one exact pin.
pub open spec fn pin(cs: Seq<ClauseModel>) -> Option<Seq<char>> {
    if cs.len() == 1 && cs[0].op == pep440::Op::Eq {
        Some(cs[0].raw)
    } else {
        None
    }
}

/// The characters of a package name with the extras in brackets behind it.
pub open spec fn is_name_char(c: char) -> bool {
    unicode::is_alphanumeric(c) || c == '-' || c == '_' || c == '.' || c == '[' || c == ']'
}

/// The number of leading name characters.
pub open spec fn name_run(s: Seq<char>) -> nat
    decreases s.len(),
{
    if s.len() > 0 && is_name_char(s[0]) {
        1 + name_run(s.skip(1))
    } else {
        0
    }
}

/// A name without the extras in brackets behind it.
pub open spec fn without_extras(raw: Seq<char>) -> Seq<char> {
    match text::find(raw, seq!['[']) {
        Some(b) => text::trim(raw.take(b)),
        None => raw,
    }
}

/// The dependency that the part of an entry before its marker declares.
pub open spec fn declared(body: Seq<char>) -> Option<DepModel> {
    let n = name_run(body) as int;
    let name = without_extras(text::trim(body.take(n)));
    let spec = text::trim(body.skip(n));
    if name.len() == 0 {
        None
    } else {
        Some(
            DepModel {
                name,
                version: match pin(pep440::clauses(spec)) {
                    Some(v) => v,
                    None => Seq::empty(),
                },
                spec,
            },
        )
    }
}

/// The entry is for an extra, which is not asked for.
pub open spec fn is_optional(entry: Seq<char>) -> bool {
    text::contains(entry, "extra =="@) || text::contains(entry, "extra=="@)
}

/// The dependency that an entry declares for a platform, if any: entries for
/// extras and entries whose marker excludes the platform declare none.
pub open spec fn entry_dep(entry: Seq<char>, env: EnvModel) -> Option<DepModel> {
    if is_optional(entry) {
        None
    } else {
        match text::split_once(entry, seq![';']) {
            Some((body, marker)) => if markers::applies(marker, env, Seq::empty()) {
                declared(text::trim(body))
            } else {
                None
            },
            None => declared(text::trim(entry)),
        }
    }
}

/// The dependencies that entries declare, in their order.
pub open spec fn entry_deps(entries: Seq<Seq<char>>, env: EnvModel) -> Seq<DepModel>
    decreases entries.len(),
{
    if entries.len() == 0 {
        Seq::empty()
    } else {
        let front = entry_deps(entries.drop_last(), env);
        match entry_dep(entries.last(), env) {
            Some(d) => front.push(d),
            None => front,
        }
    }
}

fn count_name(s: &[char]) -> (n: usize)
    ensures
        n == name_run(s@),
        n <= s@.len(),
{
    let mut i: usize = 0;
    assert(s@.skip(0) =~= s@);
    while i < s.len() && (unicode::char_is_alphanumeric(s[i]) || s[i] == '-' || s[i] == '_' || s[i]
        == '.' || s[i] == '[' || s[i] == ']')
        invariant
            i <= s.len(),
            name_run(s@) == i + name_run(s@.skip(i as int)),
        decreases s.len() - i,
    {
        assert(s@.skip(i as int).skip(1) =~= s@.skip(i + 1));
        i = i + 1;
    }
    i
}

/// The version text of a specifier that is one exact pin.
fn extract_exact_pin(spec: &str) -> (r: Option<String>)
    ensures
        text::opt_view(r) == pin(pep440::clauses(spec@)),
{
    SpecifierSet::parse(spec).exact_pin()
}

fn parse_declared(body: &[char]) -> (r: Option<TransitiveDep>)
    ensures
        match r {
            Some(d) => declared(body@) == Some(d@),
            None => declared(body@) is None,
        },
{
    let n: usize = count_name(body);
    let raw = chars::trim(chars::take(body, n));
    let name = match chars::find_char(raw, '[') {
        Some(b) => chars::trim(chars::take(raw, b)),
        None => raw,
    };
    if name.len() == 0 {
        return None;
    }
    let spec = chars::to_string(chars::trim(chars::skip(body, n)));
    let version = match extract_exact_pin(spec.as_str()) {
        Some(v) => v,
        None => String::new(),
    };
    Some(TransitiveDep { name: chars::to_string(name), version, spec })
}

fn parse_entry(entry: &str, env: &MarkerEnv) -> (r: Option<TransitiveDep>)
    ensures
        match r {
            Some(d) => entry_dep(entry@, env@) == Some(d@),
            None => entry_dep(entry@, env@) is None,
        },
{
    let whole = chars::of(entry);
    if chars::contains(&whole, "extra ==") || chars::contains(&whole, "extra==") {
        return None;
    }
    match chars::find_char(&whole, ';') {
        Some(i) => {
            let marker = chars::to_string(chars::skip(&whole, i + 1));
            if markers::marker_applies_in(marker.as_str(), env) {
                parse_declared(chars::trim(chars::take(&whole, i)))
            } else {
                None
            }
        },
        None => parse_declared(chars::trim(&whole)),
    }
}

/// The dependencies that `Requires-Dist` entries declare for a platform.
///
/// Entries for extras are left out, and those whose marker excludes the platform.
/// Extras that an entry asks for itself, as in `requests[security]`, are dropped
/// from the name.
pub fn parse_requires_dist(entries: &[String], env: &MarkerEnv) -> (r: Vec<TransitiveDep>)
    ensures
        dep_views(r@) == entry_deps(text::views(entries@), env@),
{
    let ghost texts = text::views(entries@);
    let mut deps: Vec<TransitiveDep> = Vec::new();
    let mut i: usize = 0;
    assert(dep_views(deps@) =~= entry_deps(texts.take(0), env@));
    while i < entries.len()
        invariant
            i <= entries.len(),
            texts == text::views(entries@),
            dep_views(deps@) == entry_deps(texts.take(i as int), env@),
        decreases entries.len() - i,
    {
        let ghost before = deps@;
        proof {
            assert(texts.take(i + 1).drop_last() =~= texts.take(i as int));
            assert(texts.take(i + 1).last() == entries@[i as int]@);
        }
        if let Some(d) = parse_entry(entries[i].as_str(), env) {
            let ghost model = d@;
            deps.push(d);
            assert(dep_views(deps@) =~= dep_views(before).push(model));
        }
        i = i + 1;
    }
    assert(texts.take(i as int) =~= texts);
    deps
}

/// The dependencies that `Requires-Dist` entries declare for a platform, for
/// packages that are already in the store.
pub fn parse_requires_dist_pub(entries: &[String], env: &MarkerEnv) -> (r: Vec<TransitiveDep>)
    ensures
        dep_views(r@) == entry_deps(text::views(entries@), env@),
{
    parse_requires_dist(entries, env)
}

/// A dependency has a version only where its package asks for exactly that one,
/// and the specifier says so.
pub proof fn version_is_exact_pin(entry: Seq<char>, env: EnvModel)
    ensures
        entry_dep(entry, env) matches Some(d) ==> match pin(pep440::clauses(d.spec)) {
            Some(v) => d.version == v,
            None => d.version.len() == 0,
        },
{
}

// ── Versions ────────────────────────────────────────────────────────────────
/// The address of a package's metadata.
pub fn metadata_url(name: &str) -> (r: String)
    ensures
        r@ == "https://pypi.org/pypi/"@ + name@ + "/json"@,
{
    let mut url = String::from_str("https://pypi.org/pypi/");
    url.append(name);
    url.append("/json");
    url
}

/// The file was withdrawn.
pub open spec fn is_yanked(file: DocModel) -> bool {
    doc::is_true(doc::get(file, "yanked"@))
}

/// One of the files of a release was not withdrawn.
pub open spec fn is_offered(files: Seq<DocModel>) -> bool {
    exists|i: int| 0 <= i < files.len() && !is_yanked(#[trigger] files[i])
}

/// The releases that are offered, by the lists of their files.
pub open spec fn offered_releases(releases: Seq<(Seq<char>, DocModel)>) -> Seq<Seq<char>>
    decreases releases.len(),
{
    if releases.len() == 0 {
        Seq::empty()
    } else {
        let front = offered_releases(releases.drop_last());
        match releases.last().1 {
            DocModel::List(files) => if is_offered(files) {
                front.push(releases.last().0)
            } else {
                front
            },
            _ => front,
        }
    }
}

/// The versions that an answer of PyPI lists: its releases that have files which were
/// not withdrawn. Nothing where the answer has no releases, or one that is no list of
/// files.
pub open spec fn listed_versions(answer: Option<DocModel>) -> Option<Seq<Seq<char>>> {
    match doc::as_table(doc::get_opt(answer, "releases"@)) {
        Some(releases) => if forall|i: int|
            0 <= i < releases.len() ==> (#[trigger] releases[i]).1 is List {
            Some(offered_releases(releases))
        } else {
            None
        },
        None => None,
    }
}

/// One of the files of a release was not withdrawn.
fn has_offered(files: &Vec<Doc>) -> (r: bool)
    ensures
        r == is_offered(doc::item_models(files@)),
{
    let ghost all = doc::item_models(files@);
    let mut i: usize = 0;
    while i < files.len()
        invariant
            i <= files.len(),
            all == doc::item_models(files@),
            forall|k: int| 0 <= k < i ==> is_yanked(#[trigger] all[k]),
        decreases files.len() - i,
    {
        assert(all[i as int] == files@[i as int]@);
        if !doc::flag_of(files[i].get("yanked")) {
            return true;
        }
        i = i + 1;
    }
    false
}

/// The versions that are listed among releases with their files.
pub fn versions_of(releases: &Vec<(String, Doc)>) -> (r: Option<Vec<String>>)
    ensures
        ({
            let all = doc::entry_models(releases@);
            match r {
                Some(v) => text::views(v@) == offered_releases(all) && forall|i: int|
                    0 <= i < all.len() ==> (#[trigger] all[i]).1 is List,
                None => exists|i: int| 0 <= i < all.len() && !((#[trigger] all[i]).1 is List),
            }
        }),
{
    let ghost all = doc::entry_models(releases@);
    let mut out: Vec<String> = Vec::new();
    let mut i: usize = 0;
    assert(text::views(out@) =~= offered_releases(all.take(0)));
    while i < releases.len()
        invariant
            i <= releases.len(),
            all == doc::entry_models(releases@),
            text::views(out@) == offered_releases(all.take(i as int)),
            forall|k: int| 0 <= k < i ==> (#[trigger] all[k]).1 is List,
        decreases releases.len() - i,
    {
        let ghost before = out@;
        proof {
            assert(all.take(i + 1).drop_last() =~= all.take(i as int));
            assert(all.take(i + 1).last() == (releases@[i as int].0@, releases@[i as int].1@));
        }
        match doc::list_of(Some(&releases[i].1)) {
            Some(files) => {
                if has_offered(files) {
                    out.push(releases[i].0.clone());
                    assert(text::views(out@) =~= text::views(before).push(releases@[i as int].0@));
                }
            },
            None => {
                assert(!(all[i as int].1 is List));
                return None;
            },
        }
        i = i + 1;
    }
    assert(all.take(i as int) =~= all);
    Some(out)
}

/// The versions of a package that an answer of PyPI lists: the releases that have
/// files, without those whose files were all withdrawn.
pub fn list_versions(answer: &str) -> (r: Option<Vec<String>>)
    ensures
        match r {
            Some(v) => listed_versions(doc::json_document(answer@)) == Some(text::views(v@)),
            None => listed_versions(doc::json_document(answer@)) is None,
        },
{
    match doc::parse_json(answer) {
        Some(d) => match doc::table_of(d.get("releases")) {
            Some(releases) => versions_of(releases),
            None => None,
        },
        None => None,
    }
}

/// How the version of a package is found.
#[derive(Debug)]
pub enum Resolution {
    /// This is the version.
    Version(String),
    /// The versions of the package must be listed first.
    ListVersions,
    /// No version satisfies the specifiers: the latest is taken.
    TakeLatest,
}

/// The version of a package for a set of specifiers. An exact pin is taken as it
/// is; otherwise the versions of the package must be listed, and the highest one
/// that satisfies the set is taken. Where none does, the latest is.
pub fn resolve_best_version(spec: &SpecifierSet, listed: Option<&Vec<String>>) -> (r: Resolution)
    ensures
        match pin(spec@) {
            Some(v) => r matches Resolution::Version(s) && s@ == v,
            None => match listed {
                None => r is ListVersions,
                Some(versions) => match r {
                    Resolution::Version(s) => exists|i: int| #[trigger]
                        pep440::is_best(text::views(versions@), spec@, i) && s@
                            == versions@[i]@,
                    Resolution::ListVersions => false,
                    Resolution::TakeLatest => forall|i: int|
                        !#[trigger] pep440::is_candidate(text::views(versions@), spec@, i),
                },
            },
        },
{
    if let Some(v) = spec.exact_pin() {
        return Resolution::Version(v);
    }
    match listed {
        None => Resolution::ListVersions,
        Some(versions) => match pep440::select_best(versions.as_slice(), spec) {
            Some(best) => Resolution::Version(String::from_str(best)),
            None => Resolution::TakeLatest,
        },
    }
}

/// A version that listing gave satisfies every specifier; one that does not is
/// taken only where none does.
pub proof fn resolved_version_satisfies(available: Seq<Seq<char>>, cs: Seq<ClauseModel>, i: int)
    requires
        pep440::is_best(available, cs, i),
    ensures
        pep440::parse(available[i]) matches Some(v) && pep440::satisfies(cs, v),
{
}

// ── Files ───────────────────────────────────────────────────────────────────
/// Why a package has no file to install.
#[derive(Debug, Clone, Copy, PartialEq, Eq, Structural)]
pub enum FileError {
    /// The package has no release of that version.
    NoSuchVersion,
    /// The release has neither a wheel for the target nor a source distribution.
    NoSuitableFile,
}

/// The position of the first release of a version.
pub open spec fn is_release(
    releases: Seq<(String, Vec<PypiFileEntry>)>,
    version: Seq<char>,
    i: int,
) -> bool {
    &&& 0 <= i < releases.len()
    &&& releases[i].0@ == version
    &&& forall|j: int| 0 <= j < i ==> (#[trigger] releases[j]).0@ != version
}

/// The file to install of a version of a package.
pub fn choose_file<'a>(
    releases: &'a [(String, Vec<PypiFileEntry>)],
    version: &str,
    target_py_tag: &str,
    platform_tag: &str,
    arch_suffix: &str,
) -> (r: Result<&'a PypiFileEntry, FileError>)
    ensures
        match r {
            Ok(f) => exists|i: int, k: int|
                {
                    &&& #[trigger] is_release(releases@, version@, i)
                    &&& #[trigger] wheel::is_chosen(
                        releases@[i].1@,
                        target_py_tag@,
                        platform_tag@,
                        arch_suffix@,
                        k,
                    )
                    &&& *f == releases@[i].1@[k]
                },
            Err(FileError::NoSuchVersion) => forall|i: int|
                0 <= i < releases@.len() ==> (#[trigger] releases@[i]).0@ != version@,
            Err(FileError::NoSuitableFile) => exists|i: int|
                {
                    &&& #[trigger] is_release(releases@, version@, i)
                    &&& forall|k: int|
                        !#[trigger] wheel::is_chosen(
                            releases@[i].1@,
                            target_py_tag@,
                            platform_tag@,
                            arch_suffix@,
                            k,
                        )
                },
        },
{
    let mut i: usize = 0;
    while i < releases.len()
        invariant
            i <= releases.len(),
            forall|j: int| 0 <= j < i ==> (#[trigger] releases@[j]).0@ != version@,
        decreases releases.len() - i,
    {
        if chars::str_same(releases[i].0.as_str(), version) {
            assert(is_release(releases@, version@, i as int));
            return match wheel::select_best_file_for(
                releases[i].1.as_slice(),
                target_py_tag,
                platform_tag,
                arch_suffix,
            ) {
                Some(f) => Ok(f),
                None => Err(FileError::NoSuitableFile),
            };
        }
        i = i + 1;
    }
    Err(FileError::NoSuchVersion)
}

/// What PyPI says of a package.
#[derive(Debug)]
pub struct PypiPackageInfo {
    pub requires_dist: Vec<String>,
    /// The files of each version.
    pub releases: Vec<(String, Vec<PypiFileEntry>)>,
}

/// What is downloaded of a package.
#[derive(Debug)]
pub struct PypiDownload {
    pub url: String,
    /// The digest that its content must have.
    pub sha256: String,
    /// It is a source distribution.
    pub is_sdist: bool,
    /// What the package depends on.
    pub transitive: Vec<TransitiveDep>,
}

/// A package that cannot be downloaded.
#[derive(Debug)]
pub struct FetchError {
    pub reason: FileError,
    pub name: String,
    pub version: String,
    pub target_py_tag: String,
}

impl FetchError {
    /// What is said of it.
    pub fn message(&self) -> (r: String)
        ensures
            r@ == match self.reason {
                FileError::NoSuchVersion => "version '"@ + self.version@ + "' not found for '"@
                    + self.name@ + "' on PyPI"@,
                FileError::NoSuitableFile => "no suitable file for "@ + self.name@ + "=="@
                    + self.version@ + " (target "@ + self.target_py_tag@ + ")"@,
            },
    {
        match self.reason {
            FileError::NoSuchVersion => {
                let mut out = String::from_str("version '");
                out.append(self.version.as_str());
                out.append("' not found for '");
                out.append(self.name.as_str());
                out.append("' on PyPI");
                out
            },
            FileError::NoSuitableFile => {
                let mut out = String::from_str("no suitable file for ");
                out.append(self.name.as_str());
                out.append("==");
                out.append(self.version.as_str());
                out.append(" (target ");
                out.append(self.target_py_tag.as_str());
                out.append(")");
                out
            },
        }
    }
}

/// What is downloaded of a version of a package, for an interpreter and a platform,
/// and what the package depends on there.
pub fn fetch_and_download(
    info: &PypiPackageInfo,
    name: &str,
    version: &str,
    target_py_tag: &str,
    platform_tag: &str,
    arch_suffix: &str,
    env: &MarkerEnv,
) -> (r: Result<PypiDownload, FetchError>)
    ensures
        match r {
            Ok(d) => {
                &&& exists|i: int, k: int|
                    {
                        &&& #[trigger] is_release(info.releases@, version@, i)
                        &&& #[trigger] wheel::is_chosen(
                            info.releases@[i].1@,
                            target_py_tag@,
                            platform_tag@,
                            arch_suffix@,
                            k,
                        )
                        &&& d.url == info.releases@[i].1@[k].url
                        &&& d.sha256 == info.releases@[i].1@[k].digests.sha256
                        &&& d.is_sdist == (info.releases@[i].1@[k].packagetype@ == "sdist"@)
                    }
                &&& dep_views(d.transitive@) == entry_deps(text::views(info.requires_dist@), env@)
            },
            Err(e) => {
                &&& e.name@ == name@
                &&& e.version@ == version@
                &&& e.target_py_tag@ == target_py_tag@
                &&& match e.reason {
                    FileError::NoSuchVersion => forall|i: int|
                        0 <= i < info.releases@.len() ==> (#[trigger] info.releases@[i]).0@
                            != version@,
                    FileError::NoSuitableFile => exists|i: int|
                        {
                            &&& #[trigger] is_release(info.releases@, version@, i)
                            &&& forall|k: int|
                                !#[trigger] wheel::is_chosen(
                                    info.releases@[i].1@,
                                    target_py_tag@,
                                    platform_tag@,
                                    arch_suffix@,
                                    k,
                                )
                        },
                }
            },
        },
{
    match choose_file(&info.releases, version, target_py_tag, platform_tag, arch_suffix) {
        Ok(file) => Ok(
            PypiDownload {
                url: file.url.clone(),
                sha256: file.digests.sha256.clone(),
                is_sdist: chars::str_same(file.packagetype.as_str(), "sdist"),
                transitive: parse_requires_dist(&info.requires_dist, env),
            },
        ),
        Err(reason) => Err(
            FetchError {
                reason,
                name: String::from_str(name),
                version: String::from_str(version),
                target_py_tag: String::from_str(target_py_tag),
            },
        ),
    }
}

/// The latest version of a package, by the answer of PyPI; nothing where that does
/// not name one.
pub fn resolve_latest_version(answer: &str) -> (r: Option<String>)
    ensures
        text::opt_view(r) == match doc::json_document(answer@) {
            Some(d) => doc::as_text(doc::get_opt(doc::get(d, "info"@), "version"@)),
            None => None,
        },
{
    match doc::parse_json(answer) {
        Some(d) => match doc::text_of(doc::get_in(d.get("info"), "version")) {
            Some(v) => Some(v.clone()),
            None => None,
        },
        None => None,
    }
}

/// The end of the names of wheels for a machine, by its operating system and
/// architecture.
pub open spec fn wheel_suffix(os: Seq<char>, arch: Seq<char>) -> Seq<char> {
    if os == "macos"@ && arch == "aarch64"@ {
        "arm64.whl"@
    } else if os == "macos"@ && arch == "x86_64"@ {
        "x86_64.whl"@
    } else if os == "linux"@ && arch == "x86_64"@ {
        "x86_64.whl"@
    } else if os == "linux"@ && arch == "aarch64"@ {
        "aarch64.whl"@
    } else if os == "windows"@ && arch == "x86_64"@ {
        "amd64.whl"@
    } else {
        ""@
    }
}

/// The end of the names of wheels for a machine.
pub fn arch_suffix(os: &str, arch: &str) -> (r: &'static str)
    ensures
        r@ == wheel_suffix(os@, arch@),
{
    let x86_64 = chars::str_same(arch, "x86_64");
    let aarch64 = chars::str_same(arch, "aarch64");
    if chars::str_same(os, "macos") {
        if aarch64 {
            return "arm64.whl";
        }
        if x86_64 {
            return "x86_64.whl";
        }
    }
    if chars::str_same(os, "linux") {
        if x86_64 {
            return "x86_64.whl";
        }
        if aarch64 {
            return "aarch64.whl";
        }
    }
    if chars::str_same(os, "windows") && x86_64 {
        return "amd64.whl";
    }
    ""
}

} // verus!
