//! Taking a project over, making it independent, and letting it go: what of an
//! installed environment is adopted into the store, what is copied back into the
//! project, and what is removed from the store.
use vstd::prelude::*;

use crate::actions;
use crate::actions::ActionModel;
use crate::actions::FsAction;
use crate::chars;
use crate::config;
use crate::config::KongRules;
use crate::config::NodeSection;
use crate::config::PackageEntry;
use crate::config::PythonSection;
use crate::config::RuntimeEntry;
use crate::config::RuntimeSection;
use crate::doc;
use crate::doc::DocModel;
use crate::extract;
use crate::node::parser::has_drive_prefix;
use crate::paths;
use crate::python::venv;
use crate::text;
use crate::unicode;

verus! {

// ── The project without its adopted parts ───────────────────────────────────
/// A manifest of Python packages.
pub open spec fn is_python_manifest(name: Seq<char>) -> bool {
    ||| name == "requirements.txt"@
    ||| name == "requirements.lock"@
    ||| name == "pyproject.toml"@
    ||| name == "Pipfile"@
    ||| name == "Pipfile.lock"@
    ||| name == "poetry.lock"@
    ||| name == "setup.py"@
    ||| name == "setup.cfg"@
    ||| name == "uv.lock"@
}

/// A manifest of Node.js packages.
pub open spec fn is_node_manifest(name: Seq<char>) -> bool {
    ||| name == "package.json"@
    ||| name == "package-lock.json"@
    ||| name == "yarn.lock"@
    ||| name == "pnpm-lock.yaml"@
}

/// An entry of a project that says nothing of its dependencies.
pub open spec fn is_bulk(name: Seq<char>) -> bool {
    ||| name == ".venv"@
    ||| name == "venv"@
    ||| name == "node_modules"@
    ||| name == ".git"@
    ||| name == "kong.rules"@
}

/// An entry of a project is looked at when its dependencies are resolved.
pub open spec fn is_looked_at(name: Seq<char>, skip_python: bool, skip_node: bool) -> bool {
    &&& !is_bulk(name)
    &&& !(skip_python && is_python_manifest(name))
    &&& !(skip_node && is_node_manifest(name))
}

/// Is an entry of a project looked at when its dependencies are resolved? The
/// manifests of what was adopted are not, so that nothing of it is resolved again.
pub fn generate_rules_skipping(name: &str, skip_python: bool, skip_node: bool) -> (r: bool)
    ensures
        r == is_looked_at(name@, skip_python, skip_node),
{
    let n = chars::of(name);
    if chars::is(&n, ".venv") || chars::is(&n, "venv") || chars::is(&n, "node_modules")
        || chars::is(&n, ".git") || chars::is(&n, "kong.rules") {
        return false;
    }
    if skip_python && (chars::is(&n, "requirements.txt") || chars::is(&n, "requirements.lock")
        || chars::is(&n, "pyproject.toml") || chars::is(&n, "Pipfile") || chars::is(
        &n,
        "Pipfile.lock",
    ) || chars::is(&n, "poetry.lock") || chars::is(&n, "setup.py") || chars::is(&n, "setup.cfg")
        || chars::is(&n, "uv.lock")) {
        return false;
    }
    if skip_node && (chars::is(&n, "package.json") || chars::is(&n, "package-lock.json")
        || chars::is(&n, "yarn.lock") || chars::is(&n, "pnpm-lock.yaml")) {
        return false;
    }
    true
}

// ── The rules of a project that was taken over ──────────────────────────────
/// The Python runtime that rules name.
pub open spec fn python_runtime(rules: KongRules) -> Option<RuntimeEntry> {
    match rules.runtimes {
        Some(section) => section.python,
        None => None,
    }
}

/// Rules that name a Python runtime: their own, or else this one.
pub fn ensure_python_runtime_entry(rules: KongRules, adopted: RuntimeEntry) -> (r: KongRules)
    ensures
        r == (KongRules { runtimes: r.runtimes, ..rules }),
        python_runtime(r) == (match python_runtime(rules) {
            Some(own) => Some(own),
            None => Some(adopted),
        }),
        r.runtimes matches Some(section) && section.node == (match rules.runtimes {
            Some(before) => before.node,
            None => None,
        }) && section.rust == (match rules.runtimes {
            Some(before) => before.rust,
            None => None,
        }),
{
    let mut rules = rules;
    let runtimes = match rules.runtimes {
        Some(section) => {
            let python = match section.python {
                Some(own) => own,
                None => adopted,
            };
            RuntimeSection { python: Some(python), node: section.node, rust: section.rust }
        },
        None => RuntimeSection { python: Some(adopted), node: None, rust: None },
    };
    rules.runtimes = Some(runtimes);
    rules
}

/// The rules of a project that is taken over: those that were resolved, with what
/// was adopted in the place of what was resolved.
pub fn import_project(
    rules: KongRules,
    python: Option<(PythonSection, RuntimeEntry)>,
    node: Option<NodeSection>,
) -> (r: KongRules)
    ensures
        r.python == (match python {
            Some((section, _)) => Some(section),
            None => rules.python,
        }),
        r.node == (match node {
            Some(section) => Some(section),
            None => rules.node,
        }),
        python_runtime(r) == (match python_runtime(rules) {
            Some(own) => Some(own),
            None => match python {
                Some((_, runtime)) => Some(runtime),
                None => None,
            },
        }),
        python is None ==> r.runtimes == rules.runtimes,
        python is Some ==> (r.runtimes matches Some(section) && section.node == (
        match rules.runtimes {
            Some(before) => before.node,
            None => None,
        }) && section.rust == (match rules.runtimes {
            Some(before) => before.rust,
            None => None,
        })),
        r == (KongRules { python: r.python, node: r.node, runtimes: r.runtimes, ..rules }),
{
    let mut rules = rules;
    if let Some((section, runtime)) = python {
        rules.python = Some(section);
        rules = ensure_python_runtime_entry(rules, runtime);
    }
    if let Some(section) = node {
        rules.node = Some(section);
    }
    rules
}

// ── Environments of Python ──────────────────────────────────────────────────
/// The names that environments usually have, in the order in which they are looked
/// for.
pub open spec fn usual_names() -> Seq<Seq<char>> {
    seq![".venv"@, "venv"@, "env"@, ".env"@]
}

/// The names with an environment, behind those that were found before.
pub open spec fn found_venvs(
    found: Seq<Seq<char>>,
    names: Seq<Seq<char>>,
    with_cfg: Seq<Seq<char>>,
) -> Seq<Seq<char>>
    decreases names.len(),
{
    if names.len() == 0 {
        found
    } else {
        let front = found_venvs(found, names.drop_last(), with_cfg);
        if with_cfg.contains(names.last()) && !front.contains(names.last()) {
            front.push(names.last())
        } else {
            front
        }
    }
}

fn add_venvs(found: &mut Vec<String>, names: &[&str], with_cfg: &[String])
    ensures
        text::views(final(found)@) == found_venvs(
            text::views(old(found)@),
            paths::str_views(names@),
            text::views(with_cfg@),
        ),
{
    let ghost start = text::views(found@);
    let ghost texts = paths::str_views(names@);
    let mut i: usize = 0;
    assert(texts.take(0) =~= Seq::empty());
    while i < names.len()
        invariant
            i <= names.len(),
            start == text::views(old(found)@),
            texts == paths::str_views(names@),
            text::views(found@) == found_venvs(start, texts.take(i as int), text::views(with_cfg@)),
        decreases names.len() - i,
    {
        let ghost before = found@;
        proof {
            assert(texts.take(i + 1).drop_last() =~= texts.take(i as int));
            assert(texts.take(i + 1).last() == names@[i as int]@);
        }
        if paths::listed(with_cfg, names[i]) && !paths::listed(found, names[i]) {
            found.push(String::from_str(names[i]));
            assert(text::views(found@) =~= text::views(before).push(names@[i as int]@));
        }
        i = i + 1;
    }
    assert(texts.take(i as int) =~= texts);
}

/// The environments of a project: directories with a `pyvenv.cfg`, those with a
/// usual name first. `dirs` are the directories in the project, and `with_cfg` the
/// names below which there is a `pyvenv.cfg`.
pub fn discover_venvs(dirs: &Vec<String>, with_cfg: &[String]) -> (r: Vec<String>)
    ensures
        text::views(r@) == found_venvs(
            found_venvs(Seq::empty(), usual_names(), text::views(with_cfg@)),
            text::views(dirs@),
            text::views(with_cfg@),
        ),
{
    let mut found: Vec<String> = Vec::new();
    let ghost cfg = text::views(with_cfg@);
    assert(text::views(found@) =~= Seq::empty());
    let usual: [&str; 4] = [".venv", "venv", "env", ".env"];
    let slice = usual.as_slice();
    assert(paths::str_views(slice@) =~= usual_names());
    add_venvs(&mut found, slice, with_cfg);
    let ghost start = text::views(found@);
    let ghost texts = text::views(dirs@);
    let mut i: usize = 0;
    assert(texts.take(0) =~= Seq::empty());
    while i < dirs.len()
        invariant
            i <= dirs.len(),
            texts == text::views(dirs@),
            cfg == text::views(with_cfg@),
            text::views(found@) == found_venvs(start, texts.take(i as int), cfg),
        decreases dirs.len() - i,
    {
        let ghost before = found@;
        proof {
            assert(texts.take(i + 1).drop_last() =~= texts.take(i as int));
            assert(texts.take(i + 1).last() == dirs@[i as int]@);
        }
        let name = dirs[i].as_str();
        if paths::listed(with_cfg, name) && !paths::listed(&found, name) {
            found.push(String::from_str(name));
            assert(text::views(found@) =~= text::views(before).push(dirs@[i as int]@));
        }
        i = i + 1;
    }
    assert(texts.take(i as int) =~= texts);
    found
}

/// Every environment that is found has a `pyvenv.cfg`, and none is found twice.
pub proof fn found_environments_are_distinct(
    found: Seq<Seq<char>>,
    names: Seq<Seq<char>>,
    with_cfg: Seq<Seq<char>>,
)
    requires
        found.no_duplicates(),
        forall|i: int| 0 <= i < found.len() ==> with_cfg.contains(#[trigger] found[i]),
    ensures
        found_venvs(found, names, with_cfg).no_duplicates(),
        forall|i: int|
            0 <= i < found_venvs(found, names, with_cfg).len() ==> with_cfg.contains(
                #[trigger] found_venvs(found, names, with_cfg)[i],
            ),
    decreases names.len(),
{
    if names.len() > 0 {
        found_environments_are_distinct(found, names.drop_last(), with_cfg);
    }
}

/// The position of the first directory for packages.
pub open spec fn is_site(names: Seq<Seq<char>>, with_site: Seq<Seq<char>>, i: int) -> bool {
    &&& 0 <= i < names.len()
    &&& "python"@.is_prefix_of(names[i])
    &&& with_site.contains(names[i])
    &&& forall|j: int|
        0 <= j < i ==> !("python"@.is_prefix_of(#[trigger] names[j]) && with_site.contains(
            names[j],
        ))
}

/// The directory of the packages of an environment, but on Windows: `names` are
/// the entries of its `lib`, and `with_site` those with a `site-packages`.
pub fn find_site_packages(venv: &str, names: &Vec<String>, with_site: &[String]) -> (r: Option<
    String,
>)
    ensures
        match r {
            Some(p) => exists|i: int|
                {
                    &&& #[trigger] is_site(text::views(names@), text::views(with_site@), i)
                    &&& p@ == paths::joined(
                        paths::joined(paths::joined(venv@, "lib"@), names@[i]@),
                        "site-packages"@,
                    )
                },
            None => forall|i: int|
                !#[trigger] is_site(text::views(names@), text::views(with_site@), i),
        },
{
    let ghost texts = text::views(names@);
    let ghost sites = text::views(with_site@);
    let mut i: usize = 0;
    while i < names.len()
        invariant
            i <= names.len(),
            texts == text::views(names@),
            sites == text::views(with_site@),
            forall|j: int|
                0 <= j < i ==> !("python"@.is_prefix_of(#[trigger] texts[j]) && sites.contains(
                    texts[j],
                )),
        decreases names.len() - i,
    {
        assert(texts[i as int] == names@[i as int]@);
        let name = chars::of(names[i].as_str());
        if chars::starts_with(&name, "python") && paths::listed(with_site, names[i].as_str()) {
            assert(is_site(texts, sites, i as int));
            let lib = paths::join(venv, "lib");
            let dir = paths::join(lib.as_str(), names[i].as_str());
            return Some(paths::join(dir.as_str(), "site-packages"));
        }
        i = i + 1;
    }
    None
}

/// The version in a line of a `pyvenv.cfg`.
pub open spec fn version_in(line: Seq<char>) -> Option<Seq<char>> {
    match text::strip_prefix(line, "version"@) {
        Some(rest) => {
            let version = text::trim(text::trim_start_set(rest, " ="@));
            if version.len() > 0 {
                Some(version)
            } else {
                None
            }
        },
        None => None,
    }
}

/// The version in the first line that has one.
pub open spec fn first_version(lines: Seq<Seq<char>>) -> Option<Seq<char>>
    decreases lines.len(),
{
    if lines.len() == 0 {
        None
    } else {
        match version_in(lines[0]) {
            Some(v) => Some(v),
            None => first_version(lines.skip(1)),
        }
    }
}

/// The Python version that an environment is taken to have where it does not say.
pub const DEFAULT_PYTHON: &'static str = "3.12.0";

/// The Python version of an environment, by the content of its `pyvenv.cfg` where
/// that can be read.
pub fn venv_version(cfg: Option<&str>) -> (r: String)
    ensures
        r@ == match cfg {
            Some(content) => match first_version(text::lines(content@)) {
                Some(version) => version,
                None => DEFAULT_PYTHON@,
            },
            None => DEFAULT_PYTHON@,
        },
{
    if let Some(content) = cfg {
        if let Some(version) = read_pyvenv_version(content) {
            return version;
        }
    }
    String::from_str(DEFAULT_PYTHON)
}

/// The Python version of an environment, by the content of its `pyvenv.cfg`.
pub fn read_pyvenv_version(cfg: &str) -> (r: Option<String>)
    ensures
        text::opt_view(r) == first_version(text::lines(cfg@)),
{
    let whole = chars::of(cfg);
    let lines = chars::lines(&whole);
    let ghost texts = chars::slice_views(lines@);
    let mut i: usize = 0;
    assert(texts.skip(0) =~= texts);
    while i < lines.len()
        invariant
            i <= lines.len(),
            texts == chars::slice_views(lines@),
            texts == text::lines(cfg@),
            first_version(texts) == first_version(texts.skip(i as int)),
        decreases lines.len() - i,
    {
        assert(texts.skip(i as int)[0] == lines@[i as int]@);
        if let Some(rest) = chars::strip_prefix(lines[i], "version") {
            let version = chars::trim(chars::trim_start_set(rest, " ="));
            if version.len() > 0 {
                return Some(chars::to_string(version));
            }
        }
        assert(texts.skip(i as int).skip(1) =~= texts.skip(i + 1));
        i = i + 1;
    }
    None
}

// ── Installed distributions ─────────────────────────────────────────────────
/// The name and the version that lines of a `METADATA` file give, as far as they
/// are read: until both are known. The last line of a kind counts.
pub open spec fn scanned_metadata(lines: Seq<Seq<char>>) -> (Option<Seq<char>>, Option<Seq<char>>)
    decreases lines.len(),
{
    if lines.len() == 0 {
        (None, None)
    } else {
        let (name, version) = scanned_metadata(lines.drop_last());
        if name is Some && version is Some {
            (name, version)
        } else {
            (
                match text::strip_prefix(lines.last(), "Name: "@) {
                    Some(n) => Some(text::trim(n)),
                    None => name,
                },
                match text::strip_prefix(lines.last(), "Version: "@) {
                    Some(v) => Some(text::trim(v)),
                    None => version,
                },
            )
        }
    }
}

/// The name and the version of a distribution, where its metadata give both.
pub open spec fn metadata_pair(content: Seq<char>) -> Option<(Seq<char>, Seq<char>)> {
    match scanned_metadata(text::lines(content)) {
        (Some(name), Some(version)) => Some((name, version)),
        _ => None,
    }
}

/// The name and the version of a distribution, by the content of its `METADATA`.
pub fn read_dist_info_metadata(content: &str) -> (r: Option<(String, String)>)
    ensures
        match r {
            Some((name, version)) => metadata_pair(content@) == Some((name@, version@)),
            None => metadata_pair(content@) is None,
        },
{
    let whole = chars::of(content);
    let lines = chars::lines(&whole);
    let ghost texts = chars::slice_views(lines@);
    let mut name: Option<String> = None;
    let mut version: Option<String> = None;
    let mut i: usize = 0;
    assert(texts.take(0) =~= Seq::empty());
    while i < lines.len()
        invariant
            i <= lines.len(),
            texts == chars::slice_views(lines@),
            (text::opt_view(name), text::opt_view(version)) == scanned_metadata(
                texts.take(i as int),
            ),
        decreases lines.len() - i,
    {
        proof {
            assert(texts.take(i + 1).drop_last() =~= texts.take(i as int));
            assert(texts.take(i + 1).last() == lines@[i as int]@);
        }
        if name.is_none() || version.is_none() {
            if let Some(n) = chars::strip_prefix(lines[i], "Name: ") {
                name = Some(chars::to_string(chars::trim(n)));
            }
            if let Some(v) = chars::strip_prefix(lines[i], "Version: ") {
                version = Some(chars::to_string(chars::trim(v)));
            }
        }
        i = i + 1;
    }
    assert(texts.take(i as int) =~= texts);
    match name {
        Some(n) => match version {
            Some(v) => Some((n, v)),
            None => None,
        },
        None => None,
    }
}

/// An entry of a directory of packages.
#[derive(Debug)]
pub struct InstalledEntry {
    pub name: String,
    pub is_dir: bool,
    /// The content of its `METADATA` file, where that can be read.
    pub metadata: Option<String>,
}

/// A package that belongs to an environment and not to a project.
pub open spec fn is_tool(name: Seq<char>) -> bool {
    let lower = unicode::lowercase(name);
    lower == "pip"@ || lower == "setuptools"@ || lower == "wheel"@
}

/// The name and the version of a distribution that is adopted.
pub open spec fn adoptable(e: InstalledEntry) -> Option<(Seq<char>, Seq<char>)> {
    if ".dist-info"@.is_suffix_of(e.name@) && e.is_dir {
        match e.metadata {
            Some(content) => match metadata_pair(content@) {
                Some((name, version)) => if is_tool(name) {
                    None
                } else {
                    Some((name, version))
                },
                None => None,
            },
            None => None,
        }
    } else {
        None
    }
}

/// A distribution that is adopted into the store.
#[derive(Debug)]
pub struct AdoptedPackage {
    pub entry: PackageEntry,
    /// The directory of its metadata.
    pub dist_info: String,
    /// It is not in the store and has to be copied.
    pub copy: bool,
}

/// One of the distributions goes to this path in the store.
pub open spec fn adopts_path(before: Seq<AdoptedPackage>, store_path: Seq<char>) -> bool {
    exists|k: int| 0 <= k < before.len() && (#[trigger] before[k]).entry.store_path@ == store_path
}

/// What is adopted of an installed distribution behind others: it is copied where
/// it is neither in the store nor will be by then.
pub open spec fn is_adopted(
    a: AdoptedPackage,
    e: InstalledEntry,
    py_tag: Seq<char>,
    platform: Seq<char>,
    in_store: Seq<Seq<char>>,
    before: Seq<AdoptedPackage>,
) -> bool {
    &&& adoptable(e) == Some((a.entry.name@, a.entry.version@))
    &&& a.entry.store_path@ == config::python_path(
        a.entry.name@,
        a.entry.version@,
        py_tag,
        platform,
    )
    &&& a.entry.hash is None
    &&& a.entry.source_url is None
    &&& a.dist_info == e.name
    &&& a.copy == !(in_store.contains(a.entry.store_path@) || adopts_path(
        before,
        a.entry.store_path@,
    ))
}

/// The distributions that are adopted, among the entries.
pub open spec fn adoptable_entries(entries: Seq<InstalledEntry>) -> Seq<InstalledEntry>
    decreases entries.len(),
{
    if entries.len() == 0 {
        Seq::empty()
    } else {
        let front = adoptable_entries(entries.drop_last());
        if adoptable(entries.last()) is Some {
            front.push(entries.last())
        } else {
            front
        }
    }
}

/// What is adopted of installed distributions.
pub open spec fn are_adopted(
    r: Seq<AdoptedPackage>,
    from: Seq<InstalledEntry>,
    py_tag: Seq<char>,
    platform: Seq<char>,
    in_store: Seq<Seq<char>>,
) -> bool {
    &&& r.len() == from.len()
    &&& forall|i: int|
        0 <= i < r.len() ==> is_adopted(
            #[trigger] r[i],
            from[i],
            py_tag,
            platform,
            in_store,
            r.take(i),
        )
}

fn path_is_adopted(before: &Vec<AdoptedPackage>, store_path: &str) -> (r: bool)
    ensures
        r == adopts_path(before@, store_path@),
{
    let mut i: usize = 0;
    while i < before.len()
        invariant
            i <= before.len(),
            forall|k: int|
                0 <= k < i ==> (#[trigger] before@[k]).entry.store_path@ != store_path@,
        decreases before.len() - i,
    {
        if chars::str_same(before[i].entry.store_path.as_str(), store_path) {
            return true;
        }
        i = i + 1;
    }
    false
}

fn adopt_one(
    e: &InstalledEntry,
    py_tag: &str,
    platform: &str,
    in_store: &[String],
    before: &Vec<AdoptedPackage>,
) -> (r: Option<AdoptedPackage>)
    ensures
        match r {
            Some(a) => is_adopted(a, *e, py_tag@, platform@, text::views(in_store@), before@),
            None => adoptable(*e) is None,
        },
{
    let dir = chars::of(e.name.as_str());
    if !chars::ends_with(&dir, ".dist-info") || !e.is_dir {
        return None;
    }
    let content = match &e.metadata {
        Some(content) => content,
        None => {
            return None;
        },
    };
    match read_dist_info_metadata(content.as_str()) {
        Some((name, version)) => {
            let lower = unicode::str_to_lowercase(name.as_str());
            let lower = chars::of(lower.as_str());
            if chars::is(&lower, "pip") || chars::is(&lower, "setuptools") || chars::is(
                &lower,
                "wheel",
            ) {
                return None;
            }
            let store_path = config::python_package_path(
                name.as_str(),
                version.as_str(),
                py_tag,
                platform,
            );
            let there = paths::listed(in_store, store_path.as_str()) || path_is_adopted(
                before,
                store_path.as_str(),
            );
            Some(
                AdoptedPackage {
                    entry: PackageEntry { name, version, hash: None, store_path, source_url: None },
                    dist_info: e.name.clone(),
                    copy: !there,
                },
            )
        },
        None => None,
    }
}

/// What is adopted of the entries of a directory of packages. `in_store` lists the
/// paths that are in the store. Where nothing is adopted, the dependencies are
/// resolved instead.
pub fn adopt_python(
    entries: &Vec<InstalledEntry>,
    py_tag: &str,
    platform: &str,
    in_store: &[String],
) -> (r: Option<Vec<AdoptedPackage>>)
    ensures
        match r {
            Some(list) => list@.len() > 0 && are_adopted(
                list@,
                adoptable_entries(entries@),
                py_tag@,
                platform@,
                text::views(in_store@),
            ),
            None => adoptable_entries(entries@).len() == 0,
        },
{
    let mut out: Vec<AdoptedPackage> = Vec::new();
    let mut i: usize = 0;
    assert(entries@.take(0) =~= Seq::empty());
    while i < entries.len()
        invariant
            i <= entries.len(),
            are_adopted(
                out@,
                adoptable_entries(entries@.take(i as int)),
                py_tag@,
                platform@,
                text::views(in_store@),
            ),
        decreases entries.len() - i,
    {
        proof {
            assert(entries@.take(i + 1).drop_last() =~= entries@.take(i as int));
            assert(entries@.take(i + 1).last() == entries@[i as int]);
        }
        if let Some(a) = adopt_one(&entries[i], py_tag, platform, in_store, &out) {
            let ghost before = out@;
            out.push(a);
            proof {
                assert(out@.take(before.len() as int) =~= before);
                assert forall|k: int| 0 <= k < before.len() implies #[trigger] out@[k]
                    == before[k] && out@.take(k) == before.take(k) by {
                    assert(out@.take(k) =~= before.take(k));
                }
            }
        }
        i = i + 1;
    }
    assert(entries@.take(i as int) =~= entries@);
    if out.len() == 0 {
        None
    } else {
        Some(out)
    }
}

// ── Copying an installed distribution ───────────────────────────────────────
/// The path in a line of a `RECORD` file.
pub open spec fn record_path(line: Seq<char>) -> Seq<char> {
    text::trim(text::before(line, ','))
}

/// The paths in lines of a `RECORD` file.
pub open spec fn record_paths(lines: Seq<Seq<char>>) -> Seq<Seq<char>>
    decreases lines.len(),
{
    if lines.len() == 0 {
        Seq::empty()
    } else {
        let front = record_paths(lines.drop_last());
        let path = record_path(lines.last());
        if path.len() > 0 {
            front.push(path)
        } else {
            front
        }
    }
}

/// The paths of the files of a distribution, by the content of its `RECORD` where
/// that can be read.
pub fn read_record_files(content: Option<&str>) -> (r: Vec<String>)
    ensures
        text::views(r@) == match content {
            Some(s) => record_paths(text::lines(s@)),
            None => Seq::empty(),
        },
{
    let mut out: Vec<String> = Vec::new();
    assert(text::views(out@) =~= Seq::empty());
    let content = match content {
        Some(s) => s,
        None => {
            return out;
        },
    };
    let whole = chars::of(content);
    let lines = chars::lines(&whole);
    let ghost texts = chars::slice_views(lines@);
    let mut i: usize = 0;
    assert(texts.take(0) =~= Seq::empty());
    while i < lines.len()
        invariant
            i <= lines.len(),
            texts == chars::slice_views(lines@),
            text::views(out@) == record_paths(texts.take(i as int)),
        decreases lines.len() - i,
    {
        let ghost before = out@;
        proof {
            assert(texts.take(i + 1).drop_last() =~= texts.take(i as int));
            assert(texts.take(i + 1).last() == lines@[i as int]@);
        }
        let path = chars::trim(chars::before(lines[i], ','));
        if path.len() > 0 {
            let path = chars::to_string(path);
            let ghost model = path@;
            out.push(path);
            assert(text::views(out@) =~= text::views(before).push(model));
        }
        i = i + 1;
    }
    assert(texts.take(i as int) =~= texts);
    out
}

/// A path that does not depend on the directory from which it is seen: on Windows one
/// that starts with a drive and a slash, or with a share.
pub open spec fn stands_alone(path: Seq<char>, windows: bool) -> bool {
    if windows {
        crate::node::parser::has_drive(path) || paths::share_len(paths::slashed(path)) is Some
    } else {
        path.len() > 0 && path[0] == '/'
    }
}

/// A recorded path leaves the directory of packages.
pub open spec fn escapes(path: Seq<char>, windows: bool) -> bool {
    ".."@.is_prefix_of(path) || stands_alone(path, windows)
}

fn leaves(path: &[char], windows: bool) -> (r: bool)
    ensures
        r == escapes(path@, windows),
{
    chars::starts_with(path, "..") || if windows {
        has_drive_prefix(path) || paths::share_at(&chars::replace_char(path, '\\', "/")).is_some()
    } else {
        path.len() > 0 && path[0] == '/'
    }
}

/// The steps that copy recorded files. Those outside the directory of packages are
/// launchers, which are generated anew.
pub open spec fn record_steps(
    files: Seq<Seq<char>>,
    site: Seq<char>,
    store: Seq<char>,
    windows: bool,
) -> Seq<ActionModel>
    decreases files.len(),
{
    if files.len() == 0 {
        Seq::empty()
    } else {
        let front = record_steps(files.drop_last(), site, store, windows);
        let path = files.last();
        if escapes(path, windows) {
            front
        } else {
            front.push(
                ActionModel::CopyEntry(paths::joined(store, path), paths::joined(site, path)),
            )
        }
    }
}

/// The name of the module of a package, as it is guessed.
pub open spec fn module_name(package: Seq<char>) -> Seq<char> {
    text::replace_char(unicode::lowercase(package), '-', "_"@)
}

/// What there is of the module of a package.
#[derive(Debug, Clone, Copy, PartialEq, Eq, Structural)]
pub enum ModuleKind {
    /// A directory.
    Dir,
    /// A file.
    File,
    Missing,
}

/// The steps that copy a distribution without a record: its metadata, and what its
/// module is guessed to be.
pub open spec fn guess_steps(
    dist_info: Seq<char>,
    package: Seq<char>,
    module: ModuleKind,
    site: Seq<char>,
    store: Seq<char>,
) -> Seq<ActionModel> {
    let name = module_name(package);
    let file = name + ".py"@;
    seq![
        ActionModel::CopyTree(paths::joined(store, dist_info), paths::joined(site, dist_info)),
    ] + match module {
        ModuleKind::Dir => seq![
            ActionModel::CopyTree(paths::joined(store, name), paths::joined(site, name)),
        ],
        ModuleKind::File => seq![
            ActionModel::CopyFile(paths::joined(store, file), paths::joined(site, file)),
        ],
        ModuleKind::Missing => Seq::empty(),
    }
}

/// The name of the module of a package, as it is guessed where nothing is recorded.
pub fn guessed_module(package: &str) -> (r: String)
    ensures
        r@ == module_name(package@),
{
    let lower = unicode::str_to_lowercase(package);
    let whole = chars::of(lower.as_str());
    chars::to_string(&chars::replace_char(&whole, '-', "_"))
}

fn copy_dist_info_and_package(
    dist_info: &str,
    package: &str,
    module: ModuleKind,
    site: &str,
    store: &str,
) -> (r: Vec<FsAction>)
    ensures
        actions::action_views(r@) == guess_steps(dist_info@, package@, module, site@, store@),
{
    let mut steps: Vec<FsAction> = Vec::new();
    let path = paths::join(store, dist_info);
    let source = paths::join(site, dist_info);
    steps.push(FsAction::CopyTree { path, source });
    let name = guessed_module(package);
    match module {
        ModuleKind::Dir => {
            let path = paths::join(store, name.as_str());
            let source = paths::join(site, name.as_str());
            steps.push(FsAction::CopyTree { path, source });
        },
        ModuleKind::File => {
            let mut file = name.clone();
            file.append(".py");
            let path = paths::join(store, file.as_str());
            let source = paths::join(site, file.as_str());
            steps.push(FsAction::CopyFile { path, source });
        },
        ModuleKind::Missing => {},
    }
    assert(actions::action_views(steps@) =~= guess_steps(
        dist_info@,
        package@,
        module,
        site@,
        store@,
    ));
    steps
}

/// The steps that copy an installed distribution from the directory `site` into the
/// store: the files of its record, or what is guessed where it has none.
pub fn copy_installed_python_dist(
    site: &str,
    dist_info: &str,
    record: Option<&str>,
    package: &str,
    module: ModuleKind,
    store: &str,
    windows: bool,
) -> (r: Vec<FsAction>)
    ensures
        ({
            let files = match record {
                Some(s) => record_paths(text::lines(s@)),
                None => Seq::empty(),
            };
            actions::action_views(r@) == if files.len() == 0 {
                guess_steps(dist_info@, package@, module, site@, store@)
            } else {
                record_steps(files, site@, store@, windows)
            }
        }),
{
    let files = read_record_files(record);
    let ghost texts = text::views(files@);
    if files.len() == 0 {
        return copy_dist_info_and_package(dist_info, package, module, site, store);
    }
    let mut steps: Vec<FsAction> = Vec::new();
    let mut i: usize = 0;
    assert(actions::action_views(steps@) =~= record_steps(texts.take(0), site@, store@, windows));
    while i < files.len()
        invariant
            i <= files.len(),
            texts == text::views(files@),
            actions::action_views(steps@) == record_steps(
                texts.take(i as int),
                site@,
                store@,
                windows,
            ),
        decreases files.len() - i,
    {
        proof {
            assert(texts.take(i + 1).drop_last() =~= texts.take(i as int));
            assert(texts.take(i + 1).last() == files@[i as int]@);
        }
        let file = chars::of(files[i].as_str());
        if !leaves(&file, windows) {
            let path = paths::join(store, files[i].as_str());
            let source = paths::join(site, files[i].as_str());
            actions::add_step(&mut steps, FsAction::CopyEntry { path, source });
        }
        i = i + 1;
    }
    assert(texts.take(i as int) =~= texts);
    steps
}

/// Every recorded file in the directory of packages is copied to its place in the
/// store.
pub proof fn recorded_file_is_copied(
    files: Seq<Seq<char>>,
    site: Seq<char>,
    store: Seq<char>,
    windows: bool,
    i: int,
)
    requires
        0 <= i < files.len(),
        !escapes(files[i], windows),
    ensures
        record_steps(files, site, store, windows).contains(
            ActionModel::CopyEntry(paths::joined(store, files[i]), paths::joined(site, files[i])),
        ),
    decreases files.len(),
{
    let step = ActionModel::CopyEntry(
        paths::joined(store, files[i]),
        paths::joined(site, files[i]),
    );
    let front = record_steps(files.drop_last(), site, store, windows);
    if i == files.len() - 1 {
        assert(record_steps(files, site, store, windows).last() == step);
    } else {
        assert(files.drop_last()[i] == files[i]);
        recorded_file_is_copied(files.drop_last(), site, store, windows, i);
        let k = choose|k: int| 0 <= k < front.len() && front[k] == step;
        assert(record_steps(files, site, store, windows)[k] == step);
    }
}

/// Nothing that leaves the directory of packages is copied.
pub proof fn escaping_file_is_not_copied(
    files: Seq<Seq<char>>,
    site: Seq<char>,
    store: Seq<char>,
    windows: bool,
    k: int,
)
    requires
        0 <= k < record_steps(files, site, store, windows).len(),
    ensures
        exists|i: int|
            {
                &&& 0 <= i < files.len()
                &&& !escapes(#[trigger] files[i], windows)
                &&& record_steps(files, site, store, windows)[k] == ActionModel::CopyEntry(
                    paths::joined(store, files[i]),
                    paths::joined(site, files[i]),
                )
            },
    decreases files.len(),
{
    if files.len() > 0 {
        let front = record_steps(files.drop_last(), site, store, windows);
        if k < front.len() {
            escaping_file_is_not_copied(files.drop_last(), site, store, windows, k);
            let i = choose|i: int|
                {
                    &&& 0 <= i < files.drop_last().len()
                    &&& !escapes(#[trigger] files.drop_last()[i], windows)
                    &&& front[k] == ActionModel::CopyEntry(
                        paths::joined(store, files.drop_last()[i]),
                        paths::joined(site, files.drop_last()[i]),
                    )
                };
            assert(files[i] == files.drop_last()[i]);
        } else {
            assert(!escapes(files[files.len() - 1], windows));
        }
    }
}

// ── Copying entries ─────────────────────────────────────────────────────────
/// What an entry is, seen without following links.
#[derive(Debug, Clone, Copy, PartialEq, Eq, Structural)]
pub enum CopyKind {
    /// It is not there.
    Missing,
    /// A link whose target can be read.
    Link,
    /// A link whose target cannot be read.
    UnreadableLink,
    Dir,
    File,
}

/// What is done to copy an entry.
#[derive(Debug, Clone, Copy, PartialEq, Eq, Structural)]
pub enum CopyStep {
    Nothing,
    /// Make a link to the same target. That it cannot be made is no failure.
    MakeLink,
    MakeDir,
    CopyFile,
}

/// What is done to copy an entry: a link becomes a link, and what is at the new
/// place is left as it is. `taken` says that something is there.
pub open spec fn copy_step(kind: CopyKind, taken: bool) -> CopyStep {
    match kind {
        CopyKind::Missing => CopyStep::Nothing,
        CopyKind::Link => if taken {
            CopyStep::Nothing
        } else {
            CopyStep::MakeLink
        },
        CopyKind::UnreadableLink => CopyStep::Nothing,
        CopyKind::Dir => CopyStep::MakeDir,
        CopyKind::File => if taken {
            CopyStep::Nothing
        } else {
            CopyStep::CopyFile
        },
    }
}

/// What is done to copy an entry.
pub fn copy_entry(kind: CopyKind, taken: bool) -> (r: CopyStep)
    ensures
        r == copy_step(kind, taken),
{
    match kind {
        CopyKind::Missing => CopyStep::Nothing,
        CopyKind::Link => if taken {
            CopyStep::Nothing
        } else {
            CopyStep::MakeLink
        },
        CopyKind::UnreadableLink => CopyStep::Nothing,
        CopyKind::Dir => CopyStep::MakeDir,
        CopyKind::File => if taken {
            CopyStep::Nothing
        } else {
            CopyStep::CopyFile
        },
    }
}

/// An entry that was copied is left as it is: copying can be repeated.
pub proof fn copying_again_changes_nothing(kind: CopyKind)
    ensures
        copy_step(kind, true) is Nothing || copy_step(kind, true) is MakeDir,
{
}

// ── Installed Node.js packages ──────────────────────────────────────────────
/// An entry of a `node_modules` directory.
#[derive(Debug)]
pub struct ModulesEntry {
    pub name: String,
    pub is_dir: bool,
    /// The entries in it, where it is a scope.
    pub entries: Vec<String>,
}

/// The names of the packages that an entry holds.
pub open spec fn entry_packages(e: ModulesEntry) -> Seq<Seq<char>> {
    if e.name@.len() > 0 && e.name@[0] == '.' {
        Seq::empty()
    } else if e.name@.len() > 0 && e.name@[0] == '@' {
        if e.is_dir {
            Seq::new(e.entries@.len(), |i: int| e.name@ + "/"@ + e.entries@[i]@)
        } else {
            Seq::empty()
        }
    } else {
        seq![e.name@]
    }
}

/// The names of the packages in a `node_modules` directory.
pub open spec fn module_packages(entries: Seq<ModulesEntry>) -> Seq<Seq<char>>
    decreases entries.len(),
{
    if entries.len() == 0 {
        Seq::empty()
    } else {
        module_packages(entries.drop_last()) + entry_packages(entries.last())
    }
}

fn add_entry_packages(out: &mut Vec<String>, e: &ModulesEntry)
    ensures
        text::views(final(out)@) == text::views(old(out)@) + entry_packages(*e),
{
    let ghost start = text::views(out@);
    let name = chars::of(e.name.as_str());
    if name.len() > 0 && name[0] == '.' {
    } else if name.len() > 0 && name[0] == '@' {
        if e.is_dir {
            let ghost all = entry_packages(*e);
            let mut i: usize = 0;
            assert(start =~= start + all.take(0));
            while i < e.entries.len()
                invariant
                    i <= e.entries.len(),
                    all == entry_packages(*e),
                    all == Seq::new(
                        e.entries@.len(),
                        |i: int| e.name@ + "/"@ + e.entries@[i]@,
                    ),
                    text::views(out@) == start + all.take(i as int),
                decreases e.entries.len() - i,
            {
                let ghost before = out@;
                let mut full = e.name.clone();
                full.append("/");
                full.append(e.entries[i].as_str());
                let ghost model = full@;
                assert(model == all[i as int]);
                out.push(full);
                i = i + 1;
                assert(text::views(out@) =~= text::views(before).push(model));
                assert(text::views(out@) =~= start + all.take(i as int));
            }
            assert(all.take(i as int) =~= all);
        }
    } else {
        out.push(e.name.clone());
    }
    assert(text::views(out@) =~= start + entry_packages(*e));
}

/// The names of the packages that are adopted from a `node_modules` directory:
/// hidden entries hold none, and a scope holds those in it.
pub fn adopt_node(entries: &Vec<ModulesEntry>) -> (r: Vec<String>)
    ensures
        text::views(r@) == module_packages(entries@),
{
    let mut out: Vec<String> = Vec::new();
    let mut i: usize = 0;
    assert(text::views(out@) =~= module_packages(entries@.take(0)));
    while i < entries.len()
        invariant
            i <= entries.len(),
            text::views(out@) == module_packages(entries@.take(i as int)),
        decreases entries.len() - i,
    {
        proof {
            assert(entries@.take(i + 1).drop_last() =~= entries@.take(i as int));
            assert(entries@.take(i + 1).last() == entries@[i as int]);
        }
        add_entry_packages(&mut out, &entries[i]);
        i = i + 1;
    }
    assert(entries@.take(i as int) =~= entries@);
    out
}

/// The name and the version in a `package.json`: the name of its directory and a
/// version of zeros stand in for what is missing.
pub open spec fn manifest_pair(d: DocModel, dir: Seq<char>) -> (Seq<char>, Seq<char>) {
    (
        match doc::text_at(d, "name"@) {
            Some(n) => n,
            None => dir,
        },
        match doc::text_at(d, "version"@) {
            Some(v) => v,
            None => "0.0.0"@,
        },
    )
}

/// What is adopted of an installed Node.js package in the directory `dir`, by the
/// content of its `package.json`; nothing where that cannot be parsed.
pub fn adopt_single_node_package(dir: &str, package_json: &str) -> (r: Option<PackageEntry>)
    ensures
        match doc::json_document(package_json@) {
            Some(d) => {
                let (name, version) = manifest_pair(d, dir@);
                &&& r matches Some(e)
                &&& e.name@ == name
                &&& e.version@ == version
                &&& e.store_path@ == config::node_path(name, version)
                &&& e.hash is None
                &&& e.source_url is None
            },
            None => r is None,
        },
{
    match doc::parse_json(package_json) {
        Some(d) => {
            let name = match doc::text_of(d.get("name")) {
                Some(n) => n.clone(),
                None => String::from_str(dir),
            };
            let version = match doc::text_of(d.get("version")) {
                Some(v) => v.clone(),
                None => String::from_str("0.0.0"),
            };
            let store_path = config::node_package_path(name.as_str(), version.as_str());
            Some(PackageEntry { name, version, hash: None, store_path, source_url: None })
        },
        None => None,
    }
}

/// The steps that copy an installed Node.js package into the store, in the layout
/// of a tarball. What is in the store is left as it is.
pub fn node_copy_steps(dir: &str, store_dir: &str, in_store: bool) -> (r: Vec<FsAction>)
    ensures
        actions::action_views(r@) == if in_store {
            Seq::empty()
        } else {
            seq![
                ActionModel::CreateDir(paths::joined(store_dir@, "package"@)),
                ActionModel::CopyTree(paths::joined(store_dir@, "package"@), dir@),
            ]
        },
{
    let mut steps: Vec<FsAction> = Vec::new();
    if !in_store {
        let path = paths::join(store_dir, "package");
        steps.push(FsAction::CreateDir { path: path.clone() });
        steps.push(FsAction::CopyTree { path, source: String::from_str(dir) });
    }
    assert(actions::action_views(steps@) =~= if in_store {
        Seq::empty()
    } else {
        seq![
            ActionModel::CreateDir(paths::joined(store_dir@, "package"@)),
            ActionModel::CopyTree(paths::joined(store_dir@, "package"@), dir@),
        ]
    });
    steps
}

// ── Making a project independent ────────────────────────────────────────────
/// What is at the place of an environment.
#[derive(Debug, Clone, Copy, PartialEq, Eq, Structural)]
pub enum EnvPlace {
    Missing,
    Link,
    Present,
}

/// The steps that make room at a place: a link is removed, and not what it points
/// at.
pub open spec fn clear_steps(path: Seq<char>, place: EnvPlace) -> Seq<ActionModel> {
    match place {
        EnvPlace::Missing => Seq::empty(),
        EnvPlace::Link => seq![ActionModel::RemoveLink(path)],
        EnvPlace::Present => seq![ActionModel::RemoveTree(path)],
    }
}

fn remove_link_or_dir(steps: &mut Vec<FsAction>, path: &str, place: EnvPlace)
    ensures
        actions::action_views(final(steps)@) == actions::action_views(old(steps)@) + clear_steps(
            path@,
            place,
        ),
{
    match place {
        EnvPlace::Missing => {},
        EnvPlace::Link => {
            actions::add_step(steps, FsAction::RemoveLink { path: String::from_str(path) });
        },
        EnvPlace::Present => {
            actions::add_step(steps, FsAction::RemoveTree { path: String::from_str(path) });
        },
    }
    assert(actions::action_views(steps@) =~= actions::action_views(old(steps)@) + clear_steps(
        path@,
        place,
    ));
}

/// Where the interpreter of a runtime may be, in the order of preference.
pub open spec fn exe_candidates(windows: bool) -> Seq<Seq<char>> {
    if windows {
        seq!["python.exe"@, "python/python.exe"@]
    } else {
        seq!["python/bin/python3"@, "bin/python3"@]
    }
}

/// The first of some relative paths that exists.
pub open spec fn first_listed(candidates: Seq<Seq<char>>, existing: Seq<Seq<char>>) -> Option<
    Seq<char>,
>
    decreases candidates.len(),
{
    if candidates.len() == 0 {
        None
    } else if existing.contains(candidates[0]) {
        Some(candidates[0])
    } else {
        first_listed(candidates.skip(1), existing)
    }
}

/// A runtime that is copied into a project.
#[derive(Debug)]
pub struct LocalRuntime {
    /// Its directory in the store.
    pub source: String,
    /// Its interpreter in the project.
    pub exe: String,
}

/// The runtime that is copied into the directory `local`, if the store has it: its
/// interpreter is at the same place in both. `existing` lists the paths that exist
/// in its directory in the store.
pub fn localize_runtime(
    store_root: &str,
    rules: &KongRules,
    local: &str,
    windows: bool,
    existing: &[String],
) -> (r: Option<LocalRuntime>)
    ensures
        match (
            venv::runtime_dir(*rules, store_root@),
            first_listed(exe_candidates(windows), text::views(existing@)),
        ) {
            (Some(dir), Some(exe)) => {
                &&& r matches Some(l)
                &&& l.source@ == dir
                &&& l.exe@ == paths::joined(local@, exe)
            },
            _ => r is None,
        },
{
    let ghost there = text::views(existing@);
    let ghost all = exe_candidates(windows);
    let source = match venv::python_runtime_dir(store_root, rules) {
        Some(dir) => dir,
        None => {
            return None;
        },
    };
    let candidates: [&str; 2] = if windows {
        ["python.exe", "python/python.exe"]
    } else {
        ["python/bin/python3", "bin/python3"]
    };
    assert(all[0] == candidates@[0]@);
    assert(all.skip(1)[0] == candidates@[1]@);
    assert(all.skip(1).skip(1) =~= Seq::empty());
    reveal_with_fuel(first_listed, 3);
    if paths::listed(existing, candidates[0]) {
        return Some(LocalRuntime { source, exe: paths::join(local, candidates[0]) });
    }
    if paths::listed(existing, candidates[1]) {
        return Some(LocalRuntime { source, exe: paths::join(local, candidates[1]) });
    }
    None
}

/// The number of components that two paths share at their start.
pub open spec fn shared(a: Seq<Seq<char>>, b: Seq<Seq<char>>) -> nat
    decreases a.len(),
{
    if a.len() > 0 && b.len() > 0 && a[0] == b[0] {
        1 + shared(a.skip(1), b.skip(1))
    } else {
        0
    }
}

/// The way from the components of a directory to those of a file: up as far as they
/// differ, and down from there.
pub open spec fn way(base: Seq<Seq<char>>, target: Seq<Seq<char>>) -> Seq<Seq<char>> {
    let n = shared(base, target);
    Seq::new((base.len() - n) as nat, |i: int| ".."@) + target.skip(n as int)
}

/// The relative path from the directory of a link to its target; nothing where the
/// two are the same. Both must be absolute or both relative.
pub open spec fn relative(link: Seq<char>, target: Seq<char>) -> Option<Seq<char>> {
    let steps = way(
        extract::components(paths::parent_part(link)),
        extract::components(target),
    );
    if steps.len() == 0 {
        None
    } else {
        Some(text::join(steps, "/"@))
    }
}

/// The number of components that two paths share is no more than either has.
proof fn shared_is_bounded(a: Seq<Seq<char>>, b: Seq<Seq<char>>)
    ensures
        shared(a, b) <= a.len(),
        shared(a, b) <= b.len(),
        a.take(shared(a, b) as int) == b.take(shared(a, b) as int),
    decreases a.len(),
{
    if a.len() > 0 && b.len() > 0 && a[0] == b[0] {
        let n = shared(a.skip(1), b.skip(1));
        shared_is_bounded(a.skip(1), b.skip(1));
        assert(a.take(n as int + 1) =~= seq![a[0]] + a.skip(1).take(n as int));
        assert(b.take(n as int + 1) =~= seq![b[0]] + b.skip(1).take(n as int));
    } else {
        assert(a.take(0) =~= b.take(0));
    }
}

/// The relative path from the directory of a link to its target.
pub fn pathdiff_relative(link: &str, target: &str) -> (r: Option<String>)
    ensures
        text::opt_view(r) == relative(link@, target@),
{
    let parent = paths::parent_of(link);
    let parent = chars::of(parent.as_str());
    let base = extract::path_components(&parent);
    let goal = chars::of(target);
    let goal = extract::path_components(&goal);
    let ghost b = text::views(base@);
    let ghost t = text::views(goal@);
    let mut n: usize = 0;
    assert(b.skip(0) =~= b);
    assert(t.skip(0) =~= t);
    while n < base.len() && n < goal.len() && chars::str_same(base[n].as_str(), goal[n].as_str())
        invariant
            n <= base.len(),
            n <= goal.len(),
            b == text::views(base@),
            t == text::views(goal@),
            shared(b, t) == n + shared(b.skip(n as int), t.skip(n as int)),
        decreases base.len() - n,
    {
        assert(b.skip(n as int)[0] == base@[n as int]@);
        assert(t.skip(n as int)[0] == goal@[n as int]@);
        assert(b.skip(n as int).skip(1) =~= b.skip(n + 1));
        assert(t.skip(n as int).skip(1) =~= t.skip(n + 1));
        n = n + 1;
    }
    proof {
        if n < base.len() && n < goal.len() {
            assert(b.skip(n as int)[0] == base@[n as int]@);
            assert(t.skip(n as int)[0] == goal@[n as int]@);
        }
        assert(shared(b, t) == n);
    }
    let mut steps: Vec<String> = Vec::new();
    let mut i: usize = n;
    while i < base.len()
        invariant
            n <= i <= base.len(),
            steps@.len() == i - n,
            forall|k: int| 0 <= k < steps@.len() ==> (#[trigger] steps@[k])@ == ".."@,
        decreases base.len() - i,
    {
        steps.push(String::from_str(".."));
        i = i + 1;
    }
    let ghost ups = steps@.len();
    let mut j: usize = n;
    while j < goal.len()
        invariant
            n <= j <= goal.len(),
            ups == base.len() - n,
            t == text::views(goal@),
            steps@.len() == ups + (j - n),
            forall|k: int| 0 <= k < ups ==> (#[trigger] steps@[k])@ == ".."@,
            forall|k: int| ups <= k < steps@.len() ==> (#[trigger] steps@[k])@ == t[n + k - ups],
        decreases goal.len() - j,
    {
        steps.push(goal[j].clone());
        j = j + 1;
    }
    assert(text::views(steps@) =~= way(b, t));
    if steps.len() == 0 {
        None
    } else {
        Some(chars::join(&steps, "/"))
    }
}

/// Where a way leads from a directory: `..` leads out of it.
pub open spec fn followed(base: Seq<Seq<char>>, steps: Seq<Seq<char>>) -> Seq<Seq<char>>
    decreases steps.len(),
{
    if steps.len() == 0 {
        base
    } else {
        let before = followed(base, steps.drop_last());
        if steps.last() == ".."@ {
            before.drop_last()
        } else {
            before.push(steps.last())
        }
    }
}

/// The way from a directory to a file leads to the file.
pub proof fn way_leads_to_target(base: Seq<Seq<char>>, target: Seq<Seq<char>>)
    requires
        forall|i: int| 0 <= i < target.len() ==> #[trigger] target[i] != ".."@,
    ensures
        followed(base, way(base, target)) == target,
{
    let n = shared(base, target);
    shared_is_bounded(base, target);
    let ups = Seq::new((base.len() - n) as nat, |i: int| ".."@);
    way_up(base, (base.len() - n) as nat);
    assert(base.take(n as int) == target.take(n as int));
    way_down(base, ups, target, n as int, target.len() as int);
    assert(target.subrange(n as int, target.len() as int) =~= target.skip(n as int));
    assert(target.take(target.len() as int) =~= target);
}

proof fn way_up(base: Seq<Seq<char>>, k: nat)
    requires
        k <= base.len(),
    ensures
        followed(base, Seq::new(k, |i: int| ".."@)) == base.take(base.len() - k),
    decreases k,
{
    let ups = Seq::new(k, |i: int| ".."@);
    if k == 0 {
        assert(base.take(base.len() as int) =~= base);
    } else {
        let fewer = Seq::new((k - 1) as nat, |i: int| ".."@);
        assert(ups.drop_last() =~= fewer);
        way_up(base, (k - 1) as nat);
        assert(base.take(base.len() - (k - 1)).drop_last() =~= base.take(base.len() - k));
    }
}

proof fn way_down(
    base: Seq<Seq<char>>,
    ups: Seq<Seq<char>>,
    target: Seq<Seq<char>>,
    n: int,
    m: int,
)
    requires
        0 <= n <= m <= target.len(),
        followed(base, ups) == target.take(n),
        forall|i: int| 0 <= i < target.len() ==> #[trigger] target[i] != ".."@,
    ensures
        followed(base, ups + target.subrange(n, m)) == target.take(m),
    decreases m - n,
{
    let steps = ups + target.subrange(n, m);
    if m == n {
        assert(steps =~= ups);
    } else {
        way_down(base, ups, target, n, m - 1);
        assert(steps.drop_last() =~= ups + target.subrange(n, m - 1));
        assert(steps.last() == target[m - 1]);
        assert(target.take(m - 1).push(target[m - 1]) =~= target.take(m));
    }
}

/// The steps that put packages into a directory as copies. One that is not in the
/// store is left out.
pub open spec fn copy_packages(
    packages: Seq<PackageEntry>,
    site: Seq<char>,
    store_root: Seq<char>,
    in_store: Seq<Seq<char>>,
) -> Seq<ActionModel>
    decreases packages.len(),
{
    if packages.len() == 0 {
        Seq::empty()
    } else {
        let front = copy_packages(packages.drop_last(), site, store_root, in_store);
        let store_path = packages.last().store_path@;
        if in_store.contains(store_path) {
            front.push(ActionModel::CopyTree(site, paths::joined(store_root, store_path)))
        } else {
            front
        }
    }
}

/// The interpreter in the commands of an independent environment: on Windows a
/// copy, and otherwise links that stay right where the project is moved.
pub open spec fn local_interpreter(
    venv: Seq<char>,
    exe: Option<Seq<char>>,
    windowed: bool,
    windows: bool,
) -> Seq<ActionModel> {
    let bin = venv::bin_path(venv, windows);
    match exe {
        None => Seq::empty(),
        Some(e) => if windows {
            let console = seq![ActionModel::CopyFile(paths::joined(bin, "python.exe"@), e)];
            if windowed {
                console + seq![
                    ActionModel::CopyFile(
                        paths::joined(bin, "pythonw.exe"@),
                        paths::joined(paths::parent_part(e), "pythonw.exe"@),
                    ),
                ]
            } else {
                console
            }
        } else {
            seq![
                ActionModel::Symlink(
                    paths::joined(bin, "python3"@),
                    link_text(paths::joined(bin, "python3"@), e),
                ),
                ActionModel::Symlink(
                    paths::joined(bin, "python"@),
                    link_text(paths::joined(bin, "python"@), e),
                ),
            ]
        },
    }
}

/// The text of a link to a file.
pub open spec fn link_text(link: Seq<char>, target: Seq<char>) -> Seq<char> {
    match relative(link, target) {
        Some(r) => r,
        None => target,
    }
}

/// The steps that make an environment that needs nothing of the store, but for the
/// launchers of commands.
pub open spec fn solid_steps(
    venv: Seq<char>,
    python: PythonSection,
    store_root: Seq<char>,
    in_store: Seq<Seq<char>>,
    place: EnvPlace,
    runtime: Option<LocalRuntime>,
    runtime_there: bool,
    windowed: bool,
    windows: bool,
) -> Seq<ActionModel> {
    let site = venv::site_path(venv, python.version@, windows);
    let local = paths::joined(venv, "runtime"@);
    let exe = match runtime {
        Some(l) => Some(l.exe@),
        None => None,
    };
    clear_steps(venv, place) + seq![ActionModel::CreateDir(site)] + (match runtime {
        Some(l) => (if runtime_there {
            seq![ActionModel::RemoveTree(local)]
        } else {
            Seq::empty()
        }) + seq![ActionModel::CopyTree(local, l.source@)],
        None => Seq::empty(),
    }) + seq![
        ActionModel::Write(
            paths::joined(venv, "pyvenv.cfg"@),
            venv::cfg_text(venv::home_of(exe), python.version@),
        ),
        ActionModel::CreateDir(venv::bin_path(venv, windows)),
    ] + local_interpreter(venv, exe, windowed, windows) + copy_packages(
        python.packages@,
        site,
        store_root,
        in_store,
    )
}

fn relative_link(link: &str, target: &str) -> (r: String)
    ensures
        r@ == link_text(link@, target@),
{
    match pathdiff_relative(link, target) {
        Some(r) => r,
        None => String::from_str(target),
    }
}

fn add_local_interpreter(
    steps: &mut Vec<FsAction>,
    venv: &str,
    exe: Option<&str>,
    windowed: bool,
    windows: bool,
)
    ensures
        actions::action_views(final(steps)@) == actions::action_views(old(steps)@)
            + local_interpreter(venv@, text::opt_str_view(exe), windowed, windows),
{
    if let Some(e) = exe {
        let bin = venv::bin_dir(venv, windows);
        if windows {
            let path = paths::join(bin.as_str(), "python.exe");
            actions::add_step(steps, FsAction::CopyFile { path, source: String::from_str(e) });
            if windowed {
                let path = paths::join(bin.as_str(), "pythonw.exe");
                let source = paths::join(paths::parent_of(e).as_str(), "pythonw.exe");
                actions::add_step(steps, FsAction::CopyFile { path, source });
            }
        } else {
            let path = paths::join(bin.as_str(), "python3");
            let target = relative_link(path.as_str(), e);
            actions::add_step(steps, FsAction::Symlink { path, target });
            let path = paths::join(bin.as_str(), "python");
            let target = relative_link(path.as_str(), e);
            actions::add_step(steps, FsAction::Symlink { path, target });
        }
    }
    assert(actions::action_views(steps@) =~= actions::action_views(old(steps)@)
        + local_interpreter(venv@, text::opt_str_view(exe), windowed, windows));
}

fn add_copies(
    steps: &mut Vec<FsAction>,
    packages: &Vec<PackageEntry>,
    site: &str,
    store_root: &str,
    in_store: &[String],
)
    ensures
        actions::action_views(final(steps)@) == actions::action_views(old(steps)@) + copy_packages(
            packages@,
            site@,
            store_root@,
            text::views(in_store@),
        ),
{
    let ghost start = actions::action_views(steps@);
    let ghost there = text::views(in_store@);
    let mut i: usize = 0;
    assert(start =~= start + copy_packages(packages@.take(0), site@, store_root@, there));
    while i < packages.len()
        invariant
            i <= packages.len(),
            start == actions::action_views(old(steps)@),
            there == text::views(in_store@),
            actions::action_views(steps@) == start + copy_packages(
                packages@.take(i as int),
                site@,
                store_root@,
                there,
            ),
        decreases packages.len() - i,
    {
        proof {
            assert(packages@.take(i + 1).drop_last() =~= packages@.take(i as int));
            assert(packages@.take(i + 1).last() == packages@[i as int]);
        }
        let store_path = packages[i].store_path.as_str();
        if paths::listed(in_store, store_path) {
            let source = paths::join(store_root, store_path);
            actions::add_step(steps, FsAction::CopyTree { path: String::from_str(site), source });
        }
        i = i + 1;
        assert(actions::action_views(steps@) =~= start + copy_packages(
            packages@.take(i as int),
            site@,
            store_root@,
            there,
        ));
    }
    assert(packages@.take(i as int) =~= packages@);
}

/// The steps that make an environment that needs nothing of the store, but for the
/// launchers of commands. `runtime` is the runtime that is copied into it, if there
/// is one, and `runtime_there` says that one is there from before.
pub fn solidify_python(
    venv: &str,
    python: &PythonSection,
    store_root: &str,
    in_store: &[String],
    place: EnvPlace,
    runtime: Option<&LocalRuntime>,
    runtime_there: bool,
    windowed: bool,
    windows: bool,
) -> (r: Vec<FsAction>)
    ensures
        actions::action_views(r@) == solid_steps(
            venv@,
            *python,
            store_root@,
            text::views(in_store@),
            place,
            match runtime {
                Some(l) => Some(*l),
                None => None,
            },
            runtime_there,
            windowed,
            windows,
        ),
{
    let mut steps: Vec<FsAction> = Vec::new();
    assert(actions::action_views(steps@) =~= Seq::empty());
    remove_link_or_dir(&mut steps, venv, place);
    let site = venv::site_packages(venv, python.version.as_str(), windows);
    actions::add_step(&mut steps, FsAction::CreateDir { path: site.clone() });
    let ghost first = actions::action_views(steps@);
    assert(first =~= clear_steps(venv@, place) + seq![ActionModel::CreateDir(site@)]);
    let mut home = String::new();
    let mut exe: Option<&str> = None;
    if let Some(l) = runtime {
        let local = paths::join(venv, "runtime");
        if runtime_there {
            actions::add_step(&mut steps, FsAction::RemoveTree { path: local.clone() });
        }
        actions::add_step(&mut steps, FsAction::CopyTree { path: local, source: l.source.clone() });
        home = paths::parent_of(l.exe.as_str());
        exe = Some(l.exe.as_str());
    }
    let ghost local = paths::joined(venv@, "runtime"@);
    let ghost copied: Seq<ActionModel> = match runtime {
        Some(l) => (if runtime_there {
            seq![ActionModel::RemoveTree(local)]
        } else {
            Seq::empty()
        }) + seq![ActionModel::CopyTree(local, l.source@)],
        None => Seq::empty(),
    };
    assert(actions::action_views(steps@) =~= first + copied);
    assert(home@ == venv::home_of(text::opt_str_view(exe)));
    let path = paths::join(venv, "pyvenv.cfg");
    let content = venv::pyvenv_cfg(home.as_str(), python.version.as_str());
    actions::add_step(&mut steps, FsAction::Write { path, content });
    actions::add_step(&mut steps, FsAction::CreateDir { path: venv::bin_dir(venv, windows) });
    let ghost framed = seq![
        ActionModel::Write(
            paths::joined(venv@, "pyvenv.cfg"@),
            venv::cfg_text(venv::home_of(text::opt_str_view(exe)), python.version@),
        ),
        ActionModel::CreateDir(venv::bin_path(venv@, windows)),
    ];
    assert(actions::action_views(steps@) =~= first + copied + framed);
    add_local_interpreter(&mut steps, venv, exe, windowed, windows);
    add_copies(&mut steps, &python.packages, site.as_str(), store_root, in_store);
    steps
}

/// The steps that make a `node_modules` directory that needs nothing of the store.
pub open spec fn solid_modules(
    nm: Seq<char>,
    packages: Seq<PackageEntry>,
    store_root: Seq<char>,
    in_store: Seq<Seq<char>>,
    with_dir: Seq<Seq<char>>,
) -> Seq<ActionModel>
    decreases packages.len(),
{
    if packages.len() == 0 {
        Seq::empty()
    } else {
        let front = solid_modules(nm, packages.drop_last(), store_root, in_store, with_dir);
        let p = packages.last();
        let stored = paths::joined(store_root, p.store_path@);
        let source = if with_dir.contains(p.store_path@) {
            paths::joined(stored, "package"@)
        } else {
            stored
        };
        let path = paths::joined(nm, p.name@);
        if !in_store.contains(p.store_path@) {
            front
        } else {
            front + (if p.name@.contains('/') {
                seq![ActionModel::CreateDir(paths::parent_part(path))]
            } else {
                Seq::empty()
            }) + seq![ActionModel::CopyTree(path, source)]
        }
    }
}

/// The steps that make a `node_modules` directory that needs nothing of the store.
/// `with_dir` lists the packages that the store has in a directory `package`.
pub fn solidify_node(
    nm: &str,
    node: &NodeSection,
    store_root: &str,
    in_store: &[String],
    with_dir: &[String],
    place: EnvPlace,
) -> (r: Vec<FsAction>)
    ensures
        actions::action_views(r@) == clear_steps(nm@, place) + seq![ActionModel::CreateDir(nm@)]
            + solid_modules(
            nm@,
            node.packages@,
            store_root@,
            text::views(in_store@),
            text::views(with_dir@),
        ),
{
    let mut steps: Vec<FsAction> = Vec::new();
    assert(actions::action_views(steps@) =~= Seq::empty());
    remove_link_or_dir(&mut steps, nm, place);
    actions::add_step(&mut steps, FsAction::CreateDir { path: String::from_str(nm) });
    let ghost start = actions::action_views(steps@);
    assert(start =~= clear_steps(nm@, place) + seq![ActionModel::CreateDir(nm@)]);
    let ghost there = text::views(in_store@);
    let ghost dirs = text::views(with_dir@);
    let packages = &node.packages;
    let mut i: usize = 0;
    assert(start =~= start + solid_modules(nm@, packages@.take(0), store_root@, there, dirs));
    while i < packages.len()
        invariant
            i <= packages.len(),
            there == text::views(in_store@),
            dirs == text::views(with_dir@),
            actions::action_views(steps@) == start + solid_modules(
                nm@,
                packages@.take(i as int),
                store_root@,
                there,
                dirs,
            ),
        decreases packages.len() - i,
    {
        proof {
            assert(packages@.take(i + 1).drop_last() =~= packages@.take(i as int));
            assert(packages@.take(i + 1).last() == packages@[i as int]);
        }
        let p = &packages[i];
        if paths::listed(in_store, p.store_path.as_str()) {
            let stored = paths::join(store_root, p.store_path.as_str());
            let source = if paths::listed(with_dir, p.store_path.as_str()) {
                paths::join(stored.as_str(), "package")
            } else {
                stored
            };
            let path = paths::join(nm, p.name.as_str());
            let name = chars::of(p.name.as_str());
            if chars::member(&name, '/') {
                let parent = paths::parent_of(path.as_str());
                actions::add_step(&mut steps, FsAction::CreateDir { path: parent });
            }
            actions::add_step(&mut steps, FsAction::CopyTree { path, source });
        }
        i = i + 1;
        assert(actions::action_views(steps@) =~= start + solid_modules(
            nm@,
            packages@.take(i as int),
            store_root@,
            there,
            dirs,
        ));
    }
    assert(packages@.take(i as int) =~= packages@);
    steps
}

/// What is known of a project before it is made independent.
#[derive(Debug)]
pub struct SolidFacts {
    /// The paths of packages that are in the store.
    pub in_store: Vec<String>,
    /// Those of Node.js packages with a directory `package`.
    pub with_dir: Vec<String>,
    pub venv_place: EnvPlace,
    pub modules_place: EnvPlace,
    /// The runtime that is copied, if there is one.
    pub runtime: Option<LocalRuntime>,
    /// One is there from before.
    pub runtime_there: bool,
    /// It has an interpreter without a console.
    pub windowed: bool,
    pub windows: bool,
}

/// The steps that make the environments of a project independent of the store, but
/// for the launchers of commands.
pub open spec fn solid_project(
    project_dir: Seq<char>,
    rules: KongRules,
    store_root: Seq<char>,
    f: SolidFacts,
) -> Seq<ActionModel> {
    let in_store = text::views(f.in_store@);
    let nm = paths::joined(project_dir, "node_modules"@);
    (match rules.python {
        Some(python) => solid_steps(
            paths::joined(project_dir, ".venv"@),
            python,
            store_root,
            in_store,
            f.venv_place,
            f.runtime,
            f.runtime_there,
            f.windowed,
            f.windows,
        ),
        None => Seq::empty(),
    }) + (match rules.node {
        Some(node) => clear_steps(nm, f.modules_place) + seq![ActionModel::CreateDir(nm)]
            + solid_modules(nm, node.packages@, store_root, in_store, text::views(f.with_dir@)),
        None => Seq::empty(),
    })
}

/// The steps that make the environments of a project independent of the store, but
/// for the launchers of commands.
pub fn solidify_project(
    project_dir: &str,
    rules: &KongRules,
    store_root: &str,
    f: &SolidFacts,
) -> (r: Vec<FsAction>)
    ensures
        actions::action_views(r@) == solid_project(project_dir@, *rules, store_root@, *f),
{
    let mut steps: Vec<FsAction> = Vec::new();
    let ghost mut first: Seq<ActionModel> = Seq::empty();
    let ghost mut second: Seq<ActionModel> = Seq::empty();
    if let Some(python) = &rules.python {
        steps = solidify_python(
            paths::join(project_dir, ".venv").as_str(),
            python,
            store_root,
            &f.in_store,
            f.venv_place,
            f.runtime.as_ref(),
            f.runtime_there,
            f.windowed,
            f.windows,
        );
        proof {
            first = actions::action_views(steps@);
        }
    }
    assert(actions::action_views(steps@) =~= first);
    if let Some(node) = &rules.node {
        let mut more = solidify_node(
            paths::join(project_dir, "node_modules").as_str(),
            node,
            store_root,
            &f.in_store,
            &f.with_dir,
            f.modules_place,
        );
        let ghost all = steps@ + more@;
        proof {
            second = actions::action_views(more@);
        }
        steps.append(&mut more);
        assert(steps@ =~= all);
    }
    assert(actions::action_views(steps@) =~= first + second);
    steps
}

// ── Letting a project go ────────────────────────────────────────────────────
/// A package of an ecosystem.
pub struct Key {
    pub ecosystem: Seq<char>,
    pub name: Seq<char>,
    pub version: Seq<char>,
}

/// The ecosystem of a path in the store.
pub open spec fn ecosystem_of(store_path: Seq<char>) -> Seq<char> {
    text::before(store_path, '/')
}

/// The ecosystem of a path in the store.
pub fn ecosystem_for_store_path(store_path: &str) -> (r: String)
    ensures
        r@ == ecosystem_of(store_path@),
{
    let whole = chars::of(store_path);
    chars::to_string(chars::before(&whole, '/'))
}

/// A list of packages has a package.
pub open spec fn has_package(packages: Seq<PackageEntry>, name: Seq<char>, version: Seq<char>) -> bool {
    exists|i: int|
        0 <= i < packages.len() && (#[trigger] packages[i]).name@ == name && packages[i].version@
            == version
}

/// The packages of a section.
pub open spec fn python_packages(rules: KongRules) -> Seq<PackageEntry> {
    match rules.python {
        Some(s) => s.packages@,
        None => Seq::empty(),
    }
}

/// The packages of a section.
pub open spec fn node_packages(rules: KongRules) -> Seq<PackageEntry> {
    match rules.node {
        Some(s) => s.packages@,
        None => Seq::empty(),
    }
}

/// The packages of a section.
pub open spec fn rust_packages(rules: KongRules) -> Seq<PackageEntry> {
    match rules.rust {
        Some(s) => s.packages@,
        None => Seq::empty(),
    }
}

/// The rules of a project have a package.
pub open spec fn uses(rules: KongRules, k: Key) -> bool {
    ||| k.ecosystem == "python"@ && has_package(python_packages(rules), k.name, k.version)
    ||| k.ecosystem == "node"@ && has_package(node_packages(rules), k.name, k.version)
    ||| k.ecosystem == "rust"@ && has_package(rust_packages(rules), k.name, k.version)
}

/// A project that uses the store.
#[derive(Debug)]
pub struct RegisteredProject {
    pub dir: String,
    pub rules: KongRules,
}

/// A project in another directory has a package.
pub open spec fn used_elsewhere(
    projects: Seq<RegisteredProject>,
    project_dir: Seq<char>,
    k: Key,
) -> bool {
    exists|i: int|
        0 <= i < projects.len() && (#[trigger] projects[i]).dir@ != project_dir && uses(
            projects[i].rules,
            k,
        )
}

/// The package of an entry.
pub open spec fn key_of(p: PackageEntry) -> Key {
    Key { ecosystem: ecosystem_of(p.store_path@), name: p.name@, version: p.version@ }
}

/// The paths of the packages that no project in another directory has.
pub open spec fn exclusive(
    packages: Seq<PackageEntry>,
    project_dir: Seq<char>,
    projects: Seq<RegisteredProject>,
) -> Seq<Seq<char>>
    decreases packages.len(),
{
    if packages.len() == 0 {
        Seq::empty()
    } else {
        let front = exclusive(packages.drop_last(), project_dir, projects);
        if used_elsewhere(projects, project_dir, key_of(packages.last())) {
            front
        } else {
            front.push(packages.last().store_path@)
        }
    }
}

fn find_package(packages: &Vec<PackageEntry>, name: &str, version: &str) -> (r: bool)
    ensures
        r == has_package(packages@, name@, version@),
{
    let mut i: usize = 0;
    while i < packages.len()
        invariant
            i <= packages.len(),
            forall|k: int|
                0 <= k < i ==> !((#[trigger] packages@[k]).name@ == name@ && packages@[k].version@
                    == version@),
        decreases packages.len() - i,
    {
        if chars::str_same(packages[i].name.as_str(), name) && chars::str_same(
            packages[i].version.as_str(),
            version,
        ) {
            return true;
        }
        i = i + 1;
    }
    false
}

fn project_uses(rules: &KongRules, ecosystem: &str, name: &str, version: &str) -> (r: bool)
    ensures
        r == uses(*rules, Key { ecosystem: ecosystem@, name: name@, version: version@ }),
{
    proof {
        reveal_strlit("python");
        reveal_strlit("node");
        reveal_strlit("rust");
        assert("python"@.len() != "node"@.len());
        assert("python"@.len() != "rust"@.len());
        assert("node"@[0] != "rust"@[0]);
    }
    if chars::str_same(ecosystem, "python") {
        match &rules.python {
            Some(s) => find_package(&s.packages, name, version),
            None => false,
        }
    } else if chars::str_same(ecosystem, "node") {
        match &rules.node {
            Some(s) => find_package(&s.packages, name, version),
            None => false,
        }
    } else if chars::str_same(ecosystem, "rust") {
        match &rules.rust {
            Some(s) => find_package(&s.packages, name, version),
            None => false,
        }
    } else {
        false
    }
}

fn is_used_elsewhere(
    projects: &Vec<RegisteredProject>,
    project_dir: &str,
    p: &PackageEntry,
) -> (r: bool)
    ensures
        r == used_elsewhere(projects@, project_dir@, key_of(*p)),
{
    let ecosystem = ecosystem_for_store_path(p.store_path.as_str());
    let ghost k = key_of(*p);
    let mut i: usize = 0;
    while i < projects.len()
        invariant
            i <= projects.len(),
            k == key_of(*p),
            ecosystem@ == k.ecosystem,
            forall|j: int|
                0 <= j < i ==> !((#[trigger] projects@[j]).dir@ != project_dir@ && uses(
                    projects@[j].rules,
                    k,
                )),
        decreases projects.len() - i,
    {
        let other = &projects[i];
        if !chars::str_same(other.dir.as_str(), project_dir) && project_uses(
            &other.rules,
            ecosystem.as_str(),
            p.name.as_str(),
            p.version.as_str(),
        ) {
            assert(projects@[i as int].dir@ != project_dir@ && uses(projects@[i as int].rules, k));
            return true;
        }
        i = i + 1;
    }
    false
}

fn add_exclusive(
    out: &mut Vec<String>,
    packages: &Vec<PackageEntry>,
    project_dir: &str,
    projects: &Vec<RegisteredProject>,
)
    ensures
        text::views(final(out)@) == text::views(old(out)@) + exclusive(
            packages@,
            project_dir@,
            projects@,
        ),
{
    let ghost start = text::views(out@);
    let mut i: usize = 0;
    assert(start =~= start + exclusive(packages@.take(0), project_dir@, projects@));
    while i < packages.len()
        invariant
            i <= packages.len(),
            start == text::views(old(out)@),
            text::views(out@) == start + exclusive(
                packages@.take(i as int),
                project_dir@,
                projects@,
            ),
        decreases packages.len() - i,
    {
        let ghost before = out@;
        proof {
            assert(packages@.take(i + 1).drop_last() =~= packages@.take(i as int));
            assert(packages@.take(i + 1).last() == packages@[i as int]);
        }
        if !is_used_elsewhere(projects, project_dir, &packages[i]) {
            out.push(packages[i].store_path.clone());
            assert(text::views(out@) =~= text::views(before).push(
                packages@[i as int].store_path@,
            ));
        }
        i = i + 1;
        assert(text::views(out@) =~= start + exclusive(
            packages@.take(i as int),
            project_dir@,
            projects@,
        ));
    }
    assert(packages@.take(i as int) =~= packages@);
}

/// The paths in the store of the packages that leave it with a project: those of its
/// Python packages, its Node packages and its crates that no other project has.
pub open spec fn ejected(
    rules: KongRules,
    project_dir: Seq<char>,
    projects: Seq<RegisteredProject>,
) -> Seq<Seq<char>> {
    exclusive(python_packages(rules), project_dir, projects) + exclusive(
        node_packages(rules),
        project_dir,
        projects,
    ) + exclusive(rust_packages(rules), project_dir, projects)
}

/// The paths in the store of the packages that leave it with the project in
/// `project_dir`, whose rules are `rules`: those that no project in another
/// directory has. `projects` are the projects that use the store, with this one
/// among them or without.
pub fn eject_project(
    rules: &KongRules,
    project_dir: &str,
    projects: &Vec<RegisteredProject>,
) -> (r: Vec<String>)
    ensures
        text::views(r@) == exclusive(python_packages(*rules), project_dir@, projects@) + exclusive(
            node_packages(*rules),
            project_dir@,
            projects@,
        ) + exclusive(rust_packages(*rules), project_dir@, projects@),
        text::views(r@) == ejected(*rules, project_dir@, projects@),
{
    let ghost first = exclusive(python_packages(*rules), project_dir@, projects@);
    let ghost second = exclusive(node_packages(*rules), project_dir@, projects@);
    let ghost third = exclusive(rust_packages(*rules), project_dir@, projects@);
    let mut out: Vec<String> = Vec::new();
    assert(text::views(out@) =~= Seq::empty());
    if let Some(s) = &rules.python {
        add_exclusive(&mut out, &s.packages, project_dir, projects);
    }
    assert(text::views(out@) =~= first);
    if let Some(s) = &rules.node {
        add_exclusive(&mut out, &s.packages, project_dir, projects);
    }
    assert(text::views(out@) =~= first + second);
    if let Some(s) = &rules.rust {
        add_exclusive(&mut out, &s.packages, project_dir, projects);
    }
    assert(text::views(out@) =~= first + second + third);
    out
}

/// A path leaves the store only for a package that no other project has.
pub proof fn removed_is_exclusive(
    packages: Seq<PackageEntry>,
    project_dir: Seq<char>,
    projects: Seq<RegisteredProject>,
    k: int,
)
    requires
        0 <= k < exclusive(packages, project_dir, projects).len(),
    ensures
        exists|i: int|
            {
                &&& 0 <= i < packages.len()
                &&& (#[trigger] packages[i]).store_path@ == exclusive(
                    packages,
                    project_dir,
                    projects,
                )[k]
                &&& !used_elsewhere(projects, project_dir, key_of(packages[i]))
            },
    decreases packages.len(),
{
    if packages.len() > 0 {
        let front = exclusive(packages.drop_last(), project_dir, projects);
        if k < front.len() {
            removed_is_exclusive(packages.drop_last(), project_dir, projects, k);
            let i = choose|i: int|
                {
                    &&& 0 <= i < packages.drop_last().len()
                    &&& (#[trigger] packages.drop_last()[i]).store_path@ == front[k]
                    &&& !used_elsewhere(projects, project_dir, key_of(packages.drop_last()[i]))
                };
            assert(packages[i] == packages.drop_last()[i]);
        } else {
            assert(packages[packages.len() - 1].store_path@ == exclusive(
                packages,
                project_dir,
                projects,
            )[k]);
        }
    }
}

/// Where another project has every package of a list, none of them leaves the store.
pub proof fn shared_packages_stay(
    packages: Seq<PackageEntry>,
    project_dir: Seq<char>,
    projects: Seq<RegisteredProject>,
)
    requires
        forall|i: int|
            0 <= i < packages.len() ==> used_elsewhere(
                projects,
                project_dir,
                key_of(#[trigger] packages[i]),
            ),
    ensures
        exclusive(packages, project_dir, projects).len() == 0,
    decreases packages.len(),
{
    if packages.len() > 0 {
        assert(used_elsewhere(projects, project_dir, key_of(packages[packages.len() - 1])));
        assert forall|i: int| 0 <= i < packages.drop_last().len() implies used_elsewhere(
            projects,
            project_dir,
            key_of(#[trigger] packages.drop_last()[i]),
        ) by {
            assert(packages.drop_last()[i] == packages[i]);
        }
        shared_packages_stay(packages.drop_last(), project_dir, projects);
    }
}

} // verus!
