//! The rules of a project: what it depends on, pinned, and where each package is
//! in the store.
use vstd::prelude::*;

use crate::brew::parser::BrewDep;
use crate::chars;
use crate::doc;
use crate::doc::Doc;
use crate::doc::DocModel;
use crate::download::FileInfo;
use crate::node::parser::NodeDep;
use crate::node::parser::NodeError;
use crate::node::platform::HostTriple;
use crate::paths;
use crate::python::client;
use crate::python::client::TransitiveDep;
use crate::python::markers::MarkerEnv;
use crate::python::parser::ManifestError;
use crate::python::parser::ProjectFiles;
use crate::python::parser::PythonDep;
use crate::rust_eco::parser::LockError;
use crate::rust_eco::parser::RustDep;
use crate::text;

verus! {

/// The content of `kong.rules`.
#[derive(Debug)]
pub struct KongRules {
    pub version: u32,
    pub project: String,
    pub generated: String,
    pub runtimes: Option<RuntimeSection>,
    pub python: Option<PythonSection>,
    pub node: Option<NodeSection>,
    pub rust: Option<RustSection>,
    pub brew: Option<BrewSection>,
    /// The commands that can be run by name, each name once.
    pub scripts: Vec<(String, String)>,
    pub services: Vec<ServiceEntry>,
}

/// The interpreters and toolchains that a project uses.
#[derive(Debug)]
pub struct RuntimeSection {
    pub python: Option<RuntimeEntry>,
    pub node: Option<RuntimeEntry>,
    pub rust: Option<RuntimeEntry>,
}

/// An interpreter or toolchain in the store.
#[derive(Debug)]
pub struct RuntimeEntry {
    pub version: String,
    pub store_path: String,
}

/// The Python packages of a project.
#[derive(Debug)]
pub struct PythonSection {
    /// The version of the interpreter, such as `3.12.9`.
    pub version: String,
    /// The platform tag of the wheels, such as `win_amd64`.
    pub platform: String,
    pub packages: Vec<PackageEntry>,
}

/// The Node.js packages of a project.
#[derive(Debug)]
pub struct NodeSection {
    pub packages: Vec<PackageEntry>,
    /// The packages that are linked from local directories.
    pub local: Vec<LocalPackageEntry>,
}

/// A Node.js package in a local directory.
#[derive(Debug)]
pub struct LocalPackageEntry {
    pub name: String,
    pub version: String,
    /// The directory, absolute or seen from the project's.
    pub path: String,
}

/// The crates of a project.
#[derive(Debug)]
pub struct RustSection {
    pub packages: Vec<PackageEntry>,
}

/// The Homebrew bottles of a project.
#[derive(Debug)]
pub struct BrewSection {
    pub packages: Vec<PackageEntry>,
}

/// A package in the store.
#[derive(Debug)]
pub struct PackageEntry {
    pub name: String,
    pub version: String,
    pub hash: Option<String>,
    pub store_path: String,
    pub source_url: Option<String>,
}

/// A service that runs in the background.
#[derive(Debug)]
pub struct ServiceEntry {
    pub name: String,
    pub brew_package: String,
    pub port: Option<u16>,
    pub init_cmd: Option<String>,
    pub start_cmd: String,
    pub stop_cmd: String,
}

/// A path with a drive or a slash before it.
pub open spec fn is_absolute(p: Seq<char>) -> bool {
    (p.len() > 0 && p[0] == '/') || crate::node::parser::has_drive(p)
}

/// The directory of a local package of a project in `project_dir`.
pub open spec fn local_dir(path: Seq<char>, project_dir: Seq<char>) -> Seq<char> {
    if is_absolute(path) {
        path
    } else {
        paths::joined(project_dir, path)
    }
}

impl LocalPackageEntry {
    /// The directory of this package, for the project in `project_dir`.
    pub fn resolve(&self, project_dir: &str) -> (r: String)
        ensures
            r@ == local_dir(self.path@, project_dir@),
    {
        let p = chars::of(self.path.as_str());
        let absolute = (p.len() > 0 && p[0] == '/') || crate::node::parser::has_drive_prefix(&p);
        if absolute {
            self.path.clone()
        } else {
            paths::join(project_dir, self.path.as_str())
        }
    }
}

// ── Tags ────────────────────────────────────────────────────────────────────
/// The platform tag of wheels for a machine.
pub open spec fn wheel_platform(os: Seq<char>, arch: Seq<char>) -> Seq<char> {
    if os == "windows"@ && arch == "x86_64"@ {
        "win_amd64"@
    } else if os == "linux"@ && arch == "x86_64"@ {
        "manylinux2014_x86_64"@
    } else if os == "macos"@ && arch == "x86_64"@ {
        "macosx_10_9_x86_64"@
    } else if os == "macos"@ && arch == "aarch64"@ {
        "macosx_11_0_arm64"@
    } else {
        os + "_"@ + arch
    }
}

/// The platform tag of wheels for a machine, by its operating system and
/// architecture.
pub fn platform_tag(os: &str, arch: &str) -> (r: String)
    ensures
        r@ == wheel_platform(os@, arch@),
{
    let x86_64 = chars::str_same(arch, "x86_64");
    if chars::str_same(os, "windows") && x86_64 {
        return String::from_str("win_amd64");
    }
    if chars::str_same(os, "linux") && x86_64 {
        return String::from_str("manylinux2014_x86_64");
    }
    if chars::str_same(os, "macos") && x86_64 {
        return String::from_str("macosx_10_9_x86_64");
    }
    if chars::str_same(os, "macos") && chars::str_same(arch, "aarch64") {
        return String::from_str("macosx_11_0_arm64");
    }
    let mut tag = String::from_str(os);
    tag.append("_");
    tag.append(arch);
    tag
}

/// The major and minor number of a version, as texts.
pub open spec fn major_and_minor(version: Seq<char>) -> (Seq<char>, Seq<char>) {
    let parts = text::split(version, '.');
    (
        parts[0],
        if parts.len() > 1 {
            parts[1]
        } else {
            "0"@
        },
    )
}

/// The interpreter tag of a Python version: `3.12.9` has `cp312`.
pub open spec fn python_tag(version: Seq<char>) -> Seq<char> {
    let (major, minor) = major_and_minor(version);
    "cp"@ + major + minor
}

/// The major and minor version of a version: `3.12.9` has `3.12`.
pub open spec fn minor_version(version: Seq<char>) -> Seq<char> {
    let (major, minor) = major_and_minor(version);
    major + "."@ + minor
}

fn split_version(version: &[char]) -> (r: (String, String))
    ensures
        (r.0@, r.1@) == major_and_minor(version@),
{
    let parts = chars::split(version, '.');
    let ghost texts = chars::slice_views(parts@);
    assert(texts[0] == parts@[0]@);
    let minor = if parts.len() > 1 {
        assert(texts[1] == parts@[1]@);
        chars::to_string(parts[1])
    } else {
        String::from_str("0")
    };
    (chars::to_string(parts[0]), minor)
}

/// The interpreter tag of a Python version.
pub fn short_python_tag(full_version: &str) -> (r: String)
    ensures
        r@ == python_tag(full_version@),
{
    let version = chars::of(full_version);
    let (major, minor) = split_version(&version);
    let mut tag = String::from_str("cp");
    tag.append(major.as_str());
    tag.append(minor.as_str());
    tag
}

/// The major and minor version of a version.
pub fn major_minor(version: &str) -> (r: String)
    ensures
        r@ == minor_version(version@),
{
    let version = chars::of(version);
    let (mut major, minor) = split_version(&version);
    major.append(".");
    major.append(minor.as_str());
    major
}

// ── Metadata in the store ───────────────────────────────────────────────────
/// The `Requires-Dist` entries among the lines of a `METADATA` file.
pub open spec fn requires_among(lines: Seq<Seq<char>>) -> Seq<Seq<char>>
    decreases lines.len(),
{
    if lines.len() == 0 {
        Seq::empty()
    } else {
        let front = requires_among(lines.drop_last());
        match text::strip_prefix(lines.last(), "Requires-Dist:"@) {
            Some(rest) => front.push(text::trim(rest)),
            None => front,
        }
    }
}

/// The `Requires-Dist` entries of a `METADATA` file.
pub fn metadata_requires(content: &str) -> (r: Vec<String>)
    ensures
        text::views(r@) == requires_among(text::lines(content@)),
{
    let whole = chars::of(content);
    let lines = chars::lines(&whole);
    let ghost texts = chars::slice_views(lines@);
    let mut out: Vec<String> = Vec::new();
    let mut i: usize = 0;
    assert(text::views(out@) =~= requires_among(texts.take(0)));
    while i < lines.len()
        invariant
            i <= lines.len(),
            texts == chars::slice_views(lines@),
            text::views(out@) == requires_among(texts.take(i as int)),
        decreases lines.len() - i,
    {
        let ghost before = out@;
        proof {
            assert(texts.take(i + 1).drop_last() =~= texts.take(i as int));
            assert(texts.take(i + 1).last() == lines@[i as int]@);
        }
        if let Some(rest) = chars::strip_prefix(lines[i], "Requires-Dist:") {
            let entry = chars::to_string(chars::trim(rest));
            let ghost model = entry@;
            out.push(entry);
            assert(text::views(out@) =~= text::views(before).push(model));
        }
        i = i + 1;
    }
    assert(texts.take(i as int) =~= texts);
    out
}

/// An entry of a package's directory in the store.
#[derive(Debug)]
pub struct StoredEntry {
    pub name: String,
    /// The content of the `METADATA` file in it, where that can be read.
    pub metadata: Option<String>,
}

/// The position of the first metadata directory whose `METADATA` can be read.
pub open spec fn is_metadata_entry(entries: Seq<StoredEntry>, i: int) -> bool {
    &&& 0 <= i < entries.len()
    &&& ".dist-info"@.is_suffix_of(entries[i].name@)
    &&& entries[i].metadata is Some
    &&& forall|j: int|
        0 <= j < i ==> !(".dist-info"@.is_suffix_of((#[trigger] entries[j]).name@)
            && entries[j].metadata is Some)
}

/// The dependencies of a package that is in the store already, by the entries of
/// its directory.
pub fn read_transitive_from_store(entries: &Vec<StoredEntry>, env: &MarkerEnv) -> (r: Vec<
    TransitiveDep,
>)
    ensures
        (exists|i: int| #[trigger]
            is_metadata_entry(entries@, i) && client::dep_views(r@) == client::entry_deps(
                requires_among(text::lines(entries@[i].metadata->0@)),
                env@,
            )) || (r@.len() == 0 && forall|i: int| !#[trigger] is_metadata_entry(entries@, i)),
{
    let mut i: usize = 0;
    while i < entries.len()
        invariant
            i <= entries.len(),
            forall|j: int|
                0 <= j < i ==> !(".dist-info"@.is_suffix_of((#[trigger] entries@[j]).name@)
                    && entries@[j].metadata is Some),
        decreases entries.len() - i,
    {
        let name = chars::of(entries[i].name.as_str());
        if chars::ends_with(&name, ".dist-info") {
            if let Some(content) = &entries[i].metadata {
                assert(is_metadata_entry(entries@, i as int));
                let listed = metadata_requires(content.as_str());
                return client::parse_requires_dist_pub(&listed, env);
            }
        }
        i = i + 1;
    }
    Vec::new()
}

// ── Scripts ─────────────────────────────────────────────────────────────────
/// Names with commands.
pub open spec fn script_views(v: Seq<(String, String)>) -> Seq<(Seq<char>, Seq<char>)> {
    Seq::new(v.len(), |i: int| (v[i].0@, v[i].1@))
}

/// One of the scripts has the name.
pub open spec fn has_script(scripts: Seq<(Seq<char>, Seq<char>)>, name: Seq<char>) -> bool {
    exists|i: int| 0 <= i < scripts.len() && (#[trigger] scripts[i]).0 == name
}

/// Scripts, and behind them the entries whose value is a command and whose name
/// no script has yet.
pub open spec fn with_scripts(
    scripts: Seq<(Seq<char>, Seq<char>)>,
    entries: Seq<(Seq<char>, DocModel)>,
) -> Seq<(Seq<char>, Seq<char>)>
    decreases entries.len(),
{
    if entries.len() == 0 {
        scripts
    } else {
        let front = with_scripts(scripts, entries.drop_last());
        match entries.last().1 {
            DocModel::Text(command) => if has_script(front, entries.last().0) {
                front
            } else {
                front.push((entries.last().0, command))
            },
            _ => front,
        }
    }
}

/// The entries under `scripts` of a `package.json`.
pub open spec fn package_scripts(manifest: Option<DocModel>) -> Seq<(Seq<char>, DocModel)> {
    match doc::as_table(doc::get_opt(manifest, "scripts"@)) {
        Some(entries) => entries,
        None => Seq::empty(),
    }
}

/// The entries under `tool.taskipy.tasks` of a `pyproject.toml`.
pub open spec fn taskipy_tasks(project: Option<DocModel>) -> Seq<(Seq<char>, DocModel)> {
    match doc::as_table(
        doc::get_opt(doc::get_opt(doc::get_opt(project, "tool"@), "taskipy"@), "tasks"@),
    ) {
        Some(entries) => entries,
        None => Seq::empty(),
    }
}

/// The scripts of a project: those of its `package.json`, and the tasks of its
/// `pyproject.toml` whose names those do not use.
pub open spec fn project_scripts(manifest: Option<DocModel>, project: Option<DocModel>) -> Seq<
    (Seq<char>, Seq<char>),
> {
    with_scripts(
        with_scripts(Seq::empty(), package_scripts(manifest)),
        taskipy_tasks(project),
    )
}

fn contains_script(scripts: &Vec<(String, String)>, name: &str) -> (r: bool)
    ensures
        r == has_script(script_views(scripts@), name@),
{
    let ghost models = script_views(scripts@);
    let mut i: usize = 0;
    while i < scripts.len()
        invariant
            i <= scripts.len(),
            models == script_views(scripts@),
            forall|k: int| 0 <= k < i ==> (#[trigger] models[k]).0 != name@,
        decreases scripts.len() - i,
    {
        assert(models[i as int].0 == scripts@[i as int].0@);
        if chars::str_same(scripts[i].0.as_str(), name) {
            return true;
        }
        i = i + 1;
    }
    false
}

fn add_scripts(scripts: &mut Vec<(String, String)>, entries: &Vec<(String, Doc)>)
    ensures
        script_views(final(scripts)@) == with_scripts(
            script_views(old(scripts)@),
            doc::entry_models(entries@),
        ),
{
    let ghost start = script_views(scripts@);
    let ghost models = doc::entry_models(entries@);
    let mut i: usize = 0;
    assert(models.take(0) =~= Seq::empty());
    while i < entries.len()
        invariant
            i <= entries.len(),
            models == doc::entry_models(entries@),
            script_views(scripts@) == with_scripts(start, models.take(i as int)),
        decreases entries.len() - i,
    {
        let ghost before = scripts@;
        proof {
            assert(models.take(i + 1).drop_last() =~= models.take(i as int));
            assert(models.take(i + 1).last() == (entries@[i as int].0@, entries@[i as int].1@));
        }
        if let Some(command) = entries[i].1.as_str() {
            if !contains_script(scripts, entries[i].0.as_str()) {
                scripts.push((entries[i].0.clone(), command.clone()));
                assert(script_views(scripts@) =~= script_views(before).push(
                    (entries@[i as int].0@, command@),
                ));
            }
        }
        i = i + 1;
    }
    assert(models.take(i as int) =~= models);
}

/// The scripts of a project by its manifests, where they can be read.
pub fn scripts_of(manifest: Option<&Doc>, project: Option<&Doc>) -> (r: Vec<(String, String)>)
    ensures
        script_views(r@) == project_scripts(doc::opt_doc(manifest), doc::opt_doc(project)),
{
    let mut scripts: Vec<(String, String)> = Vec::new();
    assert(script_views(scripts@) =~= Seq::empty());
    if let Some(entries) = doc::table_of(doc::get_in(manifest, "scripts")) {
        add_scripts(&mut scripts, entries);
    }
    if let Some(entries) = doc::table_of(
        doc::get_in(doc::get_in(doc::get_in(project, "tool"), "taskipy"), "tasks"),
    ) {
        add_scripts(&mut scripts, entries);
    }
    scripts
}

/// The document of a text that may be missing.
pub open spec fn json_of(content: Option<Seq<char>>) -> Option<DocModel> {
    match content {
        Some(s) => doc::json_document(s),
        None => None,
    }
}

/// The document of a text that may be missing.
pub open spec fn toml_of(content: Option<Seq<char>>) -> Option<DocModel> {
    match content {
        Some(s) => doc::toml_document(s),
        None => None,
    }
}

/// The scripts of a project, by the contents of its `package.json` and its
/// `pyproject.toml` where they can be read. A manifest that cannot be parsed has
/// no scripts.
pub fn collect_scripts(package_json: Option<&str>, pyproject: Option<&str>) -> (r: Vec<
    (String, String),
>)
    ensures
        script_views(r@) == project_scripts(
            json_of(text::opt_str_view(package_json)),
            toml_of(text::opt_str_view(pyproject)),
        ),
{
    let manifest = match package_json {
        Some(content) => doc::parse_json(content),
        None => None,
    };
    let project = match pyproject {
        Some(content) => doc::parse_toml(content),
        None => None,
    };
    scripts_of(manifest.as_ref(), project.as_ref())
}

/// Scripts that are there stay as they are when more are added.
pub proof fn added_scripts_keep_earlier(
    scripts: Seq<(Seq<char>, Seq<char>)>,
    entries: Seq<(Seq<char>, DocModel)>,
)
    ensures
        scripts.is_prefix_of(with_scripts(scripts, entries)),
    decreases entries.len(),
{
    if entries.len() > 0 {
        added_scripts_keep_earlier(scripts, entries.drop_last());
    }
}

/// No two scripts have one name.
pub open spec fn names_differ(scripts: Seq<(Seq<char>, Seq<char>)>) -> bool {
    forall|i: int, j: int|
        #![trigger scripts[i], scripts[j]]
        0 <= i < j < scripts.len() ==> scripts[i].0 != scripts[j].0
}

/// The scripts of a project have different names.
pub proof fn script_names_differ(
    scripts: Seq<(Seq<char>, Seq<char>)>,
    entries: Seq<(Seq<char>, DocModel)>,
)
    requires
        names_differ(scripts),
    ensures
        names_differ(with_scripts(scripts, entries)),
    decreases entries.len(),
{
    if entries.len() > 0 {
        script_names_differ(scripts, entries.drop_last());
        let front = with_scripts(scripts, entries.drop_last());
        let all = with_scripts(scripts, entries);
        assert forall|i: int, j: int|
            #![trigger all[i], all[j]]
            0 <= i < j < all.len() implies all[i].0 != all[j].0 by {
            assert(all[i] == front[i]);
            if j < front.len() {
                assert(all[j] == front[j]);
            }
        }
    }
}

// ── Packages ────────────────────────────────────────────────────────────────
/// A package of which is known where it goes in the store.
#[derive(Debug)]
pub struct PlannedPackage {
    pub name: String,
    pub version: String,
    pub store_path: String,
    /// It must be downloaded.
    pub fetch: bool,
}

/// What is planned of a package.
pub struct PlanModel {
    pub name: Seq<char>,
    pub version: Seq<char>,
    pub store_path: Seq<char>,
    pub fetch: bool,
}

impl View for PlannedPackage {
    type V = PlanModel;

    open spec fn view(&self) -> PlanModel {
        PlanModel {
            name: self.name@,
            version: self.version@,
            store_path: self.store_path@,
            fetch: self.fetch,
        }
    }
}

/// What is planned of packages.
pub open spec fn plan_views(v: Seq<PlannedPackage>) -> Seq<PlanModel> {
    Seq::new(v.len(), |i: int| v[i]@)
}

/// The path in the store of a Node.js package. A scope is joined with `+`.
pub open spec fn node_path(name: Seq<char>, version: Seq<char>) -> Seq<char> {
    "node/libs/"@ + text::replace_char(name, '/', "+"@) + "-"@ + version
}

/// The path in the store of a crate.
pub open spec fn crate_path(name: Seq<char>, version: Seq<char>) -> Seq<char> {
    "rust/crates/"@ + name + "-"@ + version
}

/// The path in the store of a Python package.
pub open spec fn python_path(
    name: Seq<char>,
    version: Seq<char>,
    py_tag: Seq<char>,
    platform: Seq<char>,
) -> Seq<char> {
    "python/libs/"@ + name + "-"@ + version + "-"@ + py_tag + "-"@ + platform
}

/// One of the plans is for this path in the store.
pub open spec fn plans_path(plans: Seq<PlanModel>, store_path: Seq<char>) -> bool {
    exists|k: int| 0 <= k < plans.len() && (#[trigger] plans[k]).store_path == store_path
}

/// What is planned of a package behind others: it is fetched where it is neither in
/// the store nor will be by then, or where that is forced.
pub open spec fn planned(
    name: Seq<char>,
    version: Seq<char>,
    store_path: Seq<char>,
    in_store: Seq<Seq<char>>,
    before: Seq<PlanModel>,
    force: bool,
) -> PlanModel {
    PlanModel {
        name,
        version,
        store_path,
        fetch: !(in_store.contains(store_path) || plans_path(before, store_path)) || force,
    }
}

fn is_planned(plans: &Vec<PlannedPackage>, store_path: &str) -> (r: bool)
    ensures
        r == plans_path(plan_views(plans@), store_path@),
{
    let mut i: usize = 0;
    while i < plans.len()
        invariant
            i <= plans.len(),
            forall|k: int| 0 <= k < i ==> (#[trigger] plan_views(plans@)[k]).store_path != store_path@,
        decreases plans.len() - i,
    {
        if chars::str_same(plans[i].store_path.as_str(), store_path) {
            assert(plan_views(plans@)[i as int].store_path == store_path@);
            return true;
        }
        i = i + 1;
    }
    false
}

/// The path in the store of a Node.js package.
pub fn node_package_path(name: &str, version: &str) -> (r: String)
    ensures
        r@ == node_path(name@, version@),
{
    let whole = chars::of(name);
    let safe = chars::to_string(&chars::replace_char(&whole, '/', "+"));
    let mut path = String::from_str("node/libs/");
    path.append(safe.as_str());
    path.append("-");
    path.append(version);
    path
}

/// The path in the store of a crate.
pub fn crate_package_path(name: &str, version: &str) -> (r: String)
    ensures
        r@ == crate_path(name@, version@),
{
    let mut path = String::from_str("rust/crates/");
    path.append(name);
    path.append("-");
    path.append(version);
    path
}

/// The path in the store of a Python package for an interpreter and a platform.
pub fn python_package_path(name: &str, version: &str, py_tag: &str, platform: &str) -> (r: String)
    ensures
        r@ == python_path(name@, version@, py_tag@, platform@),
{
    let mut path = String::from_str("python/libs/");
    path.append(name);
    path.append("-");
    path.append(version);
    path.append("-");
    path.append(py_tag);
    path.append("-");
    path.append(platform);
    path
}

/// What is planned of Node.js packages: local ones are linked and need no place
/// in the store.
pub open spec fn node_plan(
    deps: Seq<crate::node::parser::NodeDepModel>,
    in_store: Seq<Seq<char>>,
    force: bool,
) -> Seq<PlanModel>
    decreases deps.len(),
{
    if deps.len() == 0 {
        Seq::empty()
    } else {
        let front = node_plan(deps.drop_last(), in_store, force);
        let d = deps.last();
        if d.local is Some {
            front
        } else {
            front.push(
                planned(d.name, d.version, node_path(d.name, d.version), in_store, front, force),
            )
        }
    }
}

/// What is planned of crates.
pub open spec fn rust_plan(
    deps: Seq<crate::rust_eco::parser::RustDepModel>,
    in_store: Seq<Seq<char>>,
    force: bool,
) -> Seq<PlanModel>
    decreases deps.len(),
{
    if deps.len() == 0 {
        Seq::empty()
    } else {
        let front = rust_plan(deps.drop_last(), in_store, force);
        let d = deps.last();
        front.push(
            planned(d.name, d.version, crate_path(d.name, d.version), in_store, front, force),
        )
    }
}

/// What is planned of Node.js packages. `in_store` lists the paths that are in
/// the store.
pub fn plan_node_packages(deps: &Vec<NodeDep>, in_store: &[String], force: bool) -> (r: Vec<
    PlannedPackage,
>)
    ensures
        plan_views(r@) == node_plan(
            crate::node::parser::dep_views(deps@),
            text::views(in_store@),
            force,
        ),
{
    let ghost models = crate::node::parser::dep_views(deps@);
    let mut out: Vec<PlannedPackage> = Vec::new();
    let mut i: usize = 0;
    assert(plan_views(out@) =~= node_plan(models.take(0), text::views(in_store@), force));
    while i < deps.len()
        invariant
            i <= deps.len(),
            models == crate::node::parser::dep_views(deps@),
            plan_views(out@) == node_plan(models.take(i as int), text::views(in_store@), force),
        decreases deps.len() - i,
    {
        let ghost before = out@;
        let d = &deps[i];
        proof {
            assert(models.take(i + 1).drop_last() =~= models.take(i as int));
            assert(models.take(i + 1).last() == d@);
        }
        if !d.is_local() {
            let store_path = node_package_path(d.name.as_str(), d.version.as_str());
            let there = paths::listed(in_store, store_path.as_str()) || is_planned(
                &out,
                store_path.as_str(),
            );
            let p = PlannedPackage {
                name: d.name.clone(),
                version: d.version.clone(),
                store_path,
                fetch: !there || force,
            };
            let ghost model = p@;
            out.push(p);
            assert(plan_views(out@) =~= plan_views(before).push(model));
        }
        i = i + 1;
    }
    assert(models.take(i as int) =~= models);
    out
}

/// What is planned of crates. `in_store` lists the paths that are in the store.
pub fn plan_rust_packages(deps: &Vec<RustDep>, in_store: &[String], force: bool) -> (r: Vec<
    PlannedPackage,
>)
    ensures
        plan_views(r@) == rust_plan(
            crate::rust_eco::parser::dep_views(deps@),
            text::views(in_store@),
            force,
        ),
{
    let ghost models = crate::rust_eco::parser::dep_views(deps@);
    let mut out: Vec<PlannedPackage> = Vec::new();
    let mut i: usize = 0;
    assert(plan_views(out@) =~= rust_plan(models.take(0), text::views(in_store@), force));
    while i < deps.len()
        invariant
            i <= deps.len(),
            models == crate::rust_eco::parser::dep_views(deps@),
            plan_views(out@) == rust_plan(models.take(i as int), text::views(in_store@), force),
        decreases deps.len() - i,
    {
        let ghost before = out@;
        let d = &deps[i];
        proof {
            assert(models.take(i + 1).drop_last() =~= models.take(i as int));
            assert(models.take(i + 1).last() == d@);
        }
        let store_path = crate_package_path(d.name.as_str(), d.version.as_str());
        let there = paths::listed(in_store, store_path.as_str()) || is_planned(
            &out,
            store_path.as_str(),
        );
        let p = PlannedPackage {
            name: d.name.clone(),
            version: d.version.clone(),
            store_path,
            fetch: !there || force,
        };
        let ghost model = p@;
        out.push(p);
        assert(plan_views(out@) =~= plan_views(before).push(model));
        i = i + 1;
    }
    assert(models.take(i as int) =~= models);
    out
}

/// What a plan without force downloads: nothing that is in the store, and nothing
/// twice.
pub open spec fn fetches_once(plan: Seq<PlanModel>, in_store: Seq<Seq<char>>) -> bool {
    &&& forall|i: int|
        0 <= i < plan.len() && in_store.contains((#[trigger] plan[i]).store_path)
            ==> !plan[i].fetch
    &&& forall|i: int, j: int|
        0 <= i < j < plan.len() && (#[trigger] plan[i]).store_path == (
        #[trigger] plan[j]).store_path ==> !plan[j].fetch
}

/// A Node.js package that is in the store is not downloaded again, and none is
/// downloaded twice.
pub proof fn node_packages_are_fetched_once(
    deps: Seq<crate::node::parser::NodeDepModel>,
    in_store: Seq<Seq<char>>,
)
    ensures
        fetches_once(node_plan(deps, in_store, false), in_store),
    decreases deps.len(),
{
    if deps.len() > 0 {
        node_packages_are_fetched_once(deps.drop_last(), in_store);
        assert(forall|i: int|
            0 <= i < node_plan(deps.drop_last(), in_store, false).len() ==> node_plan(
                deps,
                in_store,
                false,
            )[i] == (#[trigger] node_plan(deps.drop_last(), in_store, false)[i]));
    }
}

/// A crate that is in the store is not downloaded again, and none is downloaded
/// twice.
pub proof fn crates_are_fetched_once(
    deps: Seq<crate::rust_eco::parser::RustDepModel>,
    in_store: Seq<Seq<char>>,
)
    ensures
        fetches_once(rust_plan(deps, in_store, false), in_store),
    decreases deps.len(),
{
    if deps.len() > 0 {
        crates_are_fetched_once(deps.drop_last(), in_store);
        assert(forall|i: int|
            0 <= i < rust_plan(deps.drop_last(), in_store, false).len() ==> rust_plan(
                deps,
                in_store,
                false,
            )[i] == (#[trigger] rust_plan(deps.drop_last(), in_store, false)[i]));
    }
}

/// One of some packages is at this path in the store.
pub open spec fn holds_path(packages: Seq<PackageEntry>, store_path: Seq<char>) -> bool {
    exists|i: int| 0 <= i < packages.len() && (#[trigger] packages[i]).store_path@ == store_path
}

/// A package at this path has to be downloaded behind others: it is neither in the
/// store nor one of those, or that is forced.
pub open spec fn must_fetch(
    in_store: Seq<Seq<char>>,
    force: bool,
    earlier: Seq<PackageEntry>,
    store_path: Seq<char>,
) -> bool {
    force || !(in_store.contains(store_path) || holds_path(earlier, store_path))
}

/// Has a package at this path to be downloaded?
pub fn needs_fetch(
    in_store: &Vec<String>,
    force: bool,
    earlier: &Vec<PackageEntry>,
    store_path: &str,
) -> (r: bool)
    ensures
        r == must_fetch(text::views(in_store@), force, earlier@, store_path@),
{
    if force {
        return true;
    }
    if paths::listed(in_store, store_path) {
        return false;
    }
    let mut i: usize = 0;
    while i < earlier.len()
        invariant
            i <= earlier.len(),
            !force,
            !text::views(in_store@).contains(store_path@),
            forall|j: int| 0 <= j < i ==> (#[trigger] earlier@[j]).store_path@ != store_path@,
        decreases earlier.len() - i,
    {
        if chars::str_same(earlier[i].store_path.as_str(), store_path) {
            assert(holds_path(earlier@, store_path@));
            return false;
        }
        i = i + 1;
    }
    true
}

/// The package has an origin exactly where it had to be downloaded.
pub open spec fn has_right_origin(
    packages: Seq<PackageEntry>,
    in_store: Seq<Seq<char>>,
    force: bool,
    i: int,
) -> bool {
    let e = packages[i];
    &&& e.hash is Some <==> must_fetch(in_store, force, packages.take(i), e.store_path@)
    &&& e.source_url is Some <==> e.hash is Some
}

/// The entry of a package in the rules: with its origin where it was downloaded.
pub fn package_entry(p: PlannedPackage, fetched: Option<FileInfo>) -> (r: PackageEntry)
    requires
        p.fetch == (fetched is Some),
    ensures
        r.name == p.name,
        r.version == p.version,
        r.store_path == p.store_path,
        match fetched {
            Some(f) => r.hash == Some(f.hash) && r.source_url == Some(f.url),
            None => r.hash is None && r.source_url is None,
        },
{
    let (hash, source_url) = match fetched {
        Some(f) => (Some(f.hash), Some(f.url)),
        None => (None, None),
    };
    PackageEntry { name: p.name, version: p.version, hash, store_path: p.store_path, source_url }
}

/// What is recorded of a local package.
pub open spec fn is_local_entry(
    e: LocalPackageEntry,
    d: crate::node::parser::NodeDepModel,
) -> bool {
    d.local matches Some(l) && e.name@ == d.name && e.version@ == d.version && e.path@ == l.path
}

/// The local packages among dependencies.
pub open spec fn local_models(deps: Seq<crate::node::parser::NodeDepModel>) -> Seq<
    crate::node::parser::NodeDepModel,
> {
    deps.filter(|d: crate::node::parser::NodeDepModel| d.local is Some)
}

/// What is recorded of the local packages among dependencies, in their order.
pub fn local_entries(deps: &Vec<NodeDep>) -> (r: Vec<LocalPackageEntry>)
    ensures
        ({
            let locals = local_models(crate::node::parser::dep_views(deps@));
            &&& r@.len() == locals.len()
            &&& forall|i: int| 0 <= i < r@.len() ==> is_local_entry(#[trigger] r@[i], locals[i])
        }),
{
    let ghost models = crate::node::parser::dep_views(deps@);
    let mut out: Vec<LocalPackageEntry> = Vec::new();
    let mut i: usize = 0;
    assert(models.take(0) =~= Seq::empty());
    proof {
        reveal(Seq::filter);
    }
    while i < deps.len()
        invariant
            i <= deps.len(),
            models == crate::node::parser::dep_views(deps@),
            out@.len() == local_models(models.take(i as int)).len(),
            forall|k: int|
                0 <= k < out@.len() ==> is_local_entry(
                    #[trigger] out@[k],
                    local_models(models.take(i as int))[k],
                ),
        decreases deps.len() - i,
    {
        let d = &deps[i];
        proof {
            reveal(Seq::filter);
            assert(models.take(i + 1).drop_last() =~= models.take(i as int));
            assert(models.take(i + 1).last() == d@);
        }
        if let Some(l) = &d.local {
            out.push(
                LocalPackageEntry {
                    name: d.name.clone(),
                    version: d.version.clone(),
                    path: l.path.clone(),
                },
            );
        }
        i = i + 1;
    }
    assert(models.take(i as int) =~= models);
    out
}

// ── Dependencies ────────────────────────────────────────────────────────────
/// The contents of the manifests of a project, where it has them.
#[derive(Debug)]
pub struct ManifestTexts {
    /// The directory of the project.
    pub dir: String,
    pub python: ProjectFiles,
    pub package_lock: Option<String>,
    pub package_json: Option<String>,
    pub cargo_lock: Option<String>,
    pub brewfile: Option<String>,
}

/// What a project depends on.
#[derive(Debug)]
pub struct Dependencies {
    pub python: Vec<PythonDep>,
    pub node: Vec<NodeDep>,
    pub rust: Vec<RustDep>,
    pub brew: Vec<BrewDep>,
}

/// Why the dependencies of a project cannot be told.
#[derive(Debug)]
pub enum DetectError {
    Python(ManifestError),
    Node(NodeError),
    Rust(LockError),
}

/// What is said where the dependencies of a project cannot be told.
pub open spec fn detect_error_text(e: DetectError, texts: ManifestTexts) -> Seq<char> {
    match e {
        DetectError::Python(e) => crate::python::parser::manifest_error_text(
            e,
            texts.dir@,
            texts.python,
        ),
        DetectError::Node(e) => crate::node::parser::error_text(e@),
        DetectError::Rust(_) => "failed to parse Cargo.lock: "@ + paths::joined(
            texts.dir@,
            "Cargo.lock"@,
        ),
    }
}

impl DetectError {
    /// The error in words, for a project with some manifests.
    pub fn message(&self, texts: &ManifestTexts) -> (r: String)
        ensures
            r@ == detect_error_text(*self, *texts),
    {
        match self {
            DetectError::Python(e) => e.message(texts.dir.as_str(), &texts.python),
            DetectError::Node(e) => e.message(),
            DetectError::Rust(_) => {
                let mut m = String::from_str("failed to parse Cargo.lock: ");
                m.append(paths::join(texts.dir.as_str(), "Cargo.lock").as_str());
                m
            },
        }
    }
}

/// What the manifests say of Node.js packages for a host.
pub open spec fn node_outcome(texts: ManifestTexts, host: HostTriple) -> Result<
    Seq<crate::node::parser::NodeDepModel>,
    crate::node::parser::NodeErrorModel,
> {
    crate::node::parser::installed_deps(
        texts.dir@,
        text::opt_view(texts.package_lock),
        text::opt_view(texts.package_json),
        host@,
    )
}

/// What the manifests say of crates.
pub open spec fn rust_outcome(texts: ManifestTexts) -> Option<
    Seq<crate::rust_eco::parser::RustDepModel>,
> {
    match texts.cargo_lock {
        Some(content) => crate::rust_eco::parser::locked_crates(content@),
        None => Some(Seq::empty()),
    }
}

/// What the manifests say of Homebrew packages.
pub open spec fn brew_outcome(texts: ManifestTexts) -> Seq<
    (Seq<char>, crate::brew::parser::BrewDepKind),
> {
    match texts.brewfile {
        Some(content) => crate::brew::parser::lines_deps(text::lines(content@)),
        None => Seq::empty(),
    }
}

fn as_str_opt(o: &Option<String>) -> (r: Option<&str>)
    ensures
        text::opt_str_view(r) == text::opt_view(*o),
{
    match o {
        Some(s) => Some(s.as_str()),
        None => None,
    }
}

/// What a project depends on, on a host, or the first thing that is wrong with its
/// manifests.
pub fn find_dependencies(texts: &ManifestTexts, host: &HostTriple) -> (r: Result<
    Dependencies,
    DetectError,
>)
    ensures
        ({
            let python = crate::python::parser::project_deps(texts.python);
            match r {
                Ok(d) => {
                    &&& python == Ok::<_, ManifestError>(
                        crate::python::parser::dep_views(d.python@),
                    )
                    &&& node_outcome(*texts, *host) == Ok::<_, crate::node::parser::NodeErrorModel>(
                        crate::node::parser::dep_views(d.node@),
                    )
                    &&& rust_outcome(*texts) == Some(crate::rust_eco::parser::dep_views(d.rust@))
                    &&& brew_outcome(*texts) == crate::brew::parser::dep_views(d.brew@)
                },
                Err(DetectError::Python(e)) => python
                    == Err::<Seq<crate::python::parser::PythonDepModel>, ManifestError>(e),
                Err(DetectError::Node(e)) => python is Ok && node_outcome(*texts, *host)
                    == Err::<
                    Seq<crate::node::parser::NodeDepModel>,
                    crate::node::parser::NodeErrorModel,
                >(e@),
                Err(DetectError::Rust(_)) => python is Ok && node_outcome(*texts, *host) is Ok
                    && rust_outcome(*texts) is None,
            }
        }),
{
    let python = match crate::python::parser::detect_and_parse(&texts.python) {
        Ok(deps) => deps,
        Err(e) => {
            return Err(DetectError::Python(e));
        },
    };
    let node = match crate::node::parser::detect_and_parse(
        texts.dir.as_str(),
        as_str_opt(&texts.package_lock),
        as_str_opt(&texts.package_json),
        host,
    ) {
        Ok(deps) => deps,
        Err(e) => {
            return Err(DetectError::Node(e));
        },
    };
    let rust = match crate::rust_eco::parser::detect_and_parse(as_str_opt(&texts.cargo_lock)) {
        Ok(deps) => deps,
        Err(e) => {
            return Err(DetectError::Rust(e));
        },
    };
    let brew = crate::brew::parser::detect_and_parse(as_str_opt(&texts.brewfile));
    assert(texts.cargo_lock is None ==> crate::rust_eco::parser::dep_views(rust@) =~= Seq::empty());
    Ok(Dependencies { python, node, rust, brew })
}

/// The rules of a project: what was brought of each ecosystem, put together. A
/// section is there where the project has dependencies of its ecosystem, and the
/// runtimes are listed where there is one.
pub fn generate_rules(
    project: String,
    generated: String,
    deps: &Dependencies,
    python: Option<(RuntimeEntry, PythonSection)>,
    node: Option<(RuntimeEntry, NodeSection)>,
    rust: Option<(RuntimeEntry, RustSection)>,
    brew: Option<BrewSection>,
    scripts: Vec<(String, String)>,
    services: Vec<ServiceEntry>,
) -> (r: KongRules)
    requires
        deps.python@.len() > 0 ==> python is Some,
        deps.node@.len() > 0 ==> node is Some,
        deps.rust@.len() > 0 ==> rust is Some,
        deps.brew@.len() > 0 ==> brew is Some,
    ensures
        r.version == 1,
        r.project == project,
        r.generated == generated,
        r.scripts == scripts,
        r.services == services,
        r.python is Some <==> deps.python@.len() > 0,
        r.node is Some <==> deps.node@.len() > 0,
        r.rust is Some <==> deps.rust@.len() > 0,
        r.brew is Some <==> deps.brew@.len() > 0,
        r.runtimes is Some <==> r.python is Some || r.node is Some || r.rust is Some,
        r.python is Some ==> r.python == Some((python->0).1),
        r.node is Some ==> r.node == Some((node->0).1),
        r.rust is Some ==> r.rust == Some((rust->0).1),
        r.brew is Some ==> r.brew == brew,
        r.runtimes matches Some(rt) ==> {
            &&& rt.python == if r.python is Some {
                Some((python->0).0)
            } else {
                None
            }
            &&& rt.node == if r.node is Some {
                Some((node->0).0)
            } else {
                None
            }
            &&& rt.rust == if r.rust is Some {
                Some((rust->0).0)
            } else {
                None
            }
        },
{
    let (python_runtime, python_section) = match python {
        Some((runtime, section)) if deps.python.len() > 0 => (Some(runtime), Some(section)),
        _ => (None, None),
    };
    let (node_runtime, node_section) = match node {
        Some((runtime, section)) if deps.node.len() > 0 => (Some(runtime), Some(section)),
        _ => (None, None),
    };
    let (rust_runtime, rust_section) = match rust {
        Some((runtime, section)) if deps.rust.len() > 0 => (Some(runtime), Some(section)),
        _ => (None, None),
    };
    let brew_section = match brew {
        Some(section) if deps.brew.len() > 0 => Some(section),
        _ => None,
    };
    let runtimes = if python_runtime.is_some() || node_runtime.is_some() || rust_runtime.is_some() {
        Some(
            RuntimeSection { python: python_runtime, node: node_runtime, rust: rust_runtime },
        )
    } else {
        None
    };
    KongRules {
        version: 1,
        project,
        generated,
        runtimes,
        python: python_section,
        node: node_section,
        rust: rust_section,
        brew: brew_section,
        scripts,
        services,
    }
}

} // verus!
