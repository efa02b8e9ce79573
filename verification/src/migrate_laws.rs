//! What holds of projects that leave the store, are adopted by it or are made to stand
//! alone.
use vstd::prelude::*;

use crate::actions::ActionModel;
use crate::config::KongRules;
use crate::config::PackageEntry;
use crate::config_laws;
use crate::doc::DocModel;
use crate::doc;
use crate::extract;
use crate::migrate::RegisteredProject;
use crate::migrate;
use crate::paths;
use crate::python::venv;
use crate::text;
use crate::text_laws;

verus! {

// ── Leaving the store ───────────────────────────────────────────────────────
/// An entry of the Python packages of rules.
pub open spec fn in_python(rules: KongRules, e: PackageEntry) -> bool {
    rules.python matches Some(s) && s.packages@.contains(e)
}

/// An entry of the Node packages of rules.
pub open spec fn in_node(rules: KongRules, e: PackageEntry) -> bool {
    rules.node matches Some(s) && s.packages@.contains(e)
}

/// An entry of the crates of rules.
pub open spec fn in_rust(rules: KongRules, e: PackageEntry) -> bool {
    rules.rust matches Some(s) && s.packages@.contains(e)
}

proof fn first_directory(rest: Seq<char>)
    ensures
        migrate::ecosystem_of("python/"@ + rest) == "python"@,
        migrate::ecosystem_of("node/"@ + rest) == "node"@,
        migrate::ecosystem_of("rust/"@ + rest) == "rust"@,
        "python"@ != "node"@ && "python"@ != "rust"@ && "node"@ != "rust"@,
{
    reveal_strlit("python/");
    reveal_strlit("python");
    reveal_strlit("node/");
    reveal_strlit("node");
    reveal_strlit("rust/");
    reveal_strlit("rust");
    assert("python/"@ + rest =~= "python"@ + seq!['/'] + rest);
    assert("node/"@ + rest =~= "node"@ + seq!['/'] + rest);
    assert("rust/"@ + rest =~= "rust"@ + seq!['/'] + rest);
    text_laws::before_ends_at_first("python"@, '/', rest);
    text_laws::before_ends_at_first("node"@, '/', rest);
    text_laws::before_ends_at_first("rust"@, '/', rest);
    assert("python"@.len() == 6 && "node"@.len() == 4 && "rust"@.len() == 4);
    assert("node"@[0] == 'n' && "rust"@[0] == 'r');
}

/// An entry of one of the sections of rules.
pub open spec fn in_rules(rules: KongRules, e: PackageEntry) -> bool {
    in_python(rules, e) || in_node(rules, e) || in_rust(rules, e)
}

proof fn exclusive_has(
    packages: Seq<PackageEntry>,
    project_dir: Seq<char>,
    projects: Seq<RegisteredProject>,
    i: int,
)
    requires
        0 <= i < packages.len(),
        !migrate::used_elsewhere(projects, project_dir, migrate::key_of(packages[i])),
    ensures
        migrate::exclusive(packages, project_dir, projects).contains(packages[i].store_path@),
    decreases packages.len(),
{
    let all = migrate::exclusive(packages, project_dir, projects);
    let front = migrate::exclusive(packages.drop_last(), project_dir, projects);
    if i == packages.len() - 1 {
        assert(all[front.len() as int] == packages[i].store_path@);
    } else {
        assert(packages.drop_last()[i] == packages[i]);
        exclusive_has(packages.drop_last(), project_dir, projects, i);
        let k = choose|k: int| 0 <= k < front.len() && front[k] == packages[i].store_path@;
        assert(all[k] == packages[i].store_path@);
    }
}

proof fn exclusive_from(
    packages: Seq<PackageEntry>,
    project_dir: Seq<char>,
    projects: Seq<RegisteredProject>,
    path: Seq<char>,
)
    requires
        migrate::exclusive(packages, project_dir, projects).contains(path),
    ensures
        exists|e: PackageEntry| #[trigger]
            packages.contains(e) && e.store_path@ == path && !migrate::used_elsewhere(
                projects,
                project_dir,
                migrate::key_of(e),
            ),
{
    let all = migrate::exclusive(packages, project_dir, projects);
    let k = choose|k: int| 0 <= k < all.len() && all[k] == path;
    migrate::removed_is_exclusive(packages, project_dir, projects, k);
    let i = choose|i: int|
        {
            &&& 0 <= i < packages.len()
            &&& (#[trigger] packages[i]).store_path@ == all[k]
            &&& !migrate::used_elsewhere(projects, project_dir, migrate::key_of(packages[i]))
        };
    assert(packages.contains(packages[i]));
}

proof fn ejected_from(
    rules: KongRules,
    project_dir: Seq<char>,
    projects: Seq<RegisteredProject>,
    path: Seq<char>,
)
    requires
        migrate::ejected(rules, project_dir, projects).contains(path),
    ensures
        exists|e: PackageEntry| #[trigger]
            in_rules(rules, e) && e.store_path@ == path && !migrate::used_elsewhere(
                projects,
                project_dir,
                migrate::key_of(e),
            ),
{
    let a = migrate::exclusive(migrate::python_packages(rules), project_dir, projects);
    let b = migrate::exclusive(migrate::node_packages(rules), project_dir, projects);
    let c = migrate::exclusive(migrate::rust_packages(rules), project_dir, projects);
    let all = a + b + c;
    let k = choose|k: int| 0 <= k < all.len() && all[k] == path;
    if k < a.len() {
        assert(a[k] == path);
        exclusive_from(migrate::python_packages(rules), project_dir, projects, path);
        let e = choose|e: PackageEntry| #[trigger]
            migrate::python_packages(rules).contains(e) && e.store_path@ == path
                && !migrate::used_elsewhere(projects, project_dir, migrate::key_of(e));
        assert(in_rules(rules, e));
    } else if k < a.len() + b.len() {
        assert(b[k - a.len()] == path);
        exclusive_from(migrate::node_packages(rules), project_dir, projects, path);
        let e = choose|e: PackageEntry| #[trigger]
            migrate::node_packages(rules).contains(e) && e.store_path@ == path
                && !migrate::used_elsewhere(projects, project_dir, migrate::key_of(e));
        assert(in_rules(rules, e));
    } else {
        assert(c[k - a.len() - b.len()] == path);
        exclusive_from(migrate::rust_packages(rules), project_dir, projects, path);
        let e = choose|e: PackageEntry| #[trigger]
            migrate::rust_packages(rules).contains(e) && e.store_path@ == path
                && !migrate::used_elsewhere(projects, project_dir, migrate::key_of(e));
        assert(in_rules(rules, e));
    }
}

/// Rules have an entry in the section for the ecosystem of a path, which the first
/// directory of the path names.
pub open spec fn in_section_of(rules: KongRules, path: Seq<char>, q: PackageEntry) -> bool {
    ||| "python/"@.is_prefix_of(path) && in_python(rules, q)
    ||| "node/"@.is_prefix_of(path) && in_node(rules, q)
    ||| "rust/"@.is_prefix_of(path) && in_rust(rules, q)
}

/// The project `projects[j]` is in another directory, and its section for the
/// ecosystem of the path `path`, which the first directory of the path names, has an
/// entry with this name and version.
pub open spec fn other_has(
    projects: Seq<RegisteredProject>,
    project_dir: Seq<char>,
    j: int,
    path: Seq<char>,
    name: Seq<char>,
    version: Seq<char>,
) -> bool {
    &&& 0 <= j < projects.len()
    &&& projects[j].dir@ != project_dir
    &&& exists|q: PackageEntry|
        #[trigger] in_section_of(projects[j].rules, path, q) && q.name@ == name && q.version@
            == version
}

proof fn listed(packages: Seq<PackageEntry>, q: PackageEntry)
    requires
        packages.contains(q),
    ensures
        migrate::has_package(packages, q.name@, q.version@),
{
    let k = choose|k: int| 0 <= k < packages.len() && packages[k] == q;
    assert(packages[k].name@ == q.name@ && packages[k].version@ == q.version@);
}

proof fn other_uses(
    projects: Seq<RegisteredProject>,
    project_dir: Seq<char>,
    j: int,
    e: PackageEntry,
)
    requires
        other_has(projects, project_dir, j, e.store_path@, e.name@, e.version@),
    ensures
        migrate::used_elsewhere(projects, project_dir, migrate::key_of(e)),
{
    let path = e.store_path@;
    let rules = projects[j].rules;
    let k = migrate::key_of(e);
    let q = choose|q: PackageEntry|
        #[trigger] in_section_of(projects[j].rules, path, q) && q.name@ == e.name@ && q.version@
            == e.version@;
    if "python/"@.is_prefix_of(path) && in_python(rules, q) {
        let rest = path.skip("python/"@.len() as int);
        assert(path =~= "python/"@ + rest);
        first_directory(rest);
        listed(migrate::python_packages(rules), q);
    } else if "node/"@.is_prefix_of(path) && in_node(rules, q) {
        let rest = path.skip("node/"@.len() as int);
        assert(path =~= "node/"@ + rest);
        first_directory(rest);
        listed(migrate::node_packages(rules), q);
    } else {
        let rest = path.skip("rust/"@.len() as int);
        assert(path =~= "rust/"@ + rest);
        first_directory(rest);
        listed(migrate::rust_packages(rules), q);
    }
    assert(migrate::uses(rules, k));
    assert(projects[j].dir@ != project_dir && migrate::uses(projects[j].rules, k));
}

/// What leaves the store with a project is a path of an entry of its own, and of one
/// that no project in another directory has in the section of the same ecosystem with
/// the same name and version.
pub proof fn only_unshared_paths_leave(
    rules: KongRules,
    project_dir: Seq<char>,
    projects: Seq<RegisteredProject>,
    path: Seq<char>,
)
    requires
        migrate::ejected(rules, project_dir, projects).contains(path),
    ensures
        exists|e: PackageEntry|
            {
                &&& #[trigger] in_rules(rules, e)
                &&& e.store_path@ == path
                &&& forall|j: int|
                    !#[trigger] other_has(projects, project_dir, j, path, e.name@, e.version@)
            },
{
    ejected_from(rules, project_dir, projects, path);
    let e = choose|e: PackageEntry| #[trigger]
        in_rules(rules, e) && e.store_path@ == path && !migrate::used_elsewhere(
            projects,
            project_dir,
            migrate::key_of(e),
        );
    assert forall|j: int|
        !#[trigger] other_has(projects, project_dir, j, path, e.name@, e.version@) by {
        if other_has(projects, project_dir, j, path, e.name@, e.version@) {
            other_uses(projects, project_dir, j, e);
        }
    }
}

/// The path of an entry in the Python, Node or Rust section of a project in another
/// directory does not leave the store with a project whose entries for that path are of
/// the same name and version.
pub proof fn path_of_another_project_stays(
    rules: KongRules,
    project_dir: Seq<char>,
    projects: Seq<RegisteredProject>,
    j: int,
    q: PackageEntry,
)
    requires
        0 <= j < projects.len(),
        projects[j].dir@ != project_dir,
        in_section_of(projects[j].rules, q.store_path@, q),
        forall|e: PackageEntry| #[trigger]
            in_rules(rules, e) && e.store_path@ == q.store_path@ ==> e.name@ == q.name@
                && e.version@ == q.version@,
    ensures
        !migrate::ejected(rules, project_dir, projects).contains(q.store_path@),
{
    let path = q.store_path@;
    if migrate::ejected(rules, project_dir, projects).contains(path) {
        only_unshared_paths_leave(rules, project_dir, projects, path);
        let e = choose|e: PackageEntry|
            {
                &&& #[trigger] in_rules(rules, e)
                &&& e.store_path@ == path
                &&& forall|j: int|
                    !#[trigger] other_has(projects, project_dir, j, path, e.name@, e.version@)
            };
        assert(q.name@ == e.name@ && q.version@ == e.version@);
        assert(other_has(projects, project_dir, j, path, e.name@, e.version@));
    }
}

/// The path of each entry of a project leaves the store with it where no project in
/// another directory has an entry with the name and version in its sections: the
/// project itself, though it is registered, does not keep it.
pub proof fn unshared_path_leaves(
    rules: KongRules,
    project_dir: Seq<char>,
    projects: Seq<RegisteredProject>,
    e: PackageEntry,
)
    requires
        in_rules(rules, e),
        forall|j: int, q: PackageEntry|
            #![trigger projects[j], in_rules(projects[j].rules, q)]
            0 <= j < projects.len() && projects[j].dir@ != project_dir && in_rules(
                projects[j].rules,
                q,
            ) ==> q.name@ != e.name@ || q.version@ != e.version@,
    ensures
        migrate::ejected(rules, project_dir, projects).contains(e.store_path@),
{
    let k = migrate::key_of(e);
    if migrate::used_elsewhere(projects, project_dir, k) {
        let j = choose|j: int|
            0 <= j < projects.len() && (#[trigger] projects[j]).dir@ != project_dir
                && migrate::uses(projects[j].rules, k);
        let other = projects[j].rules;
        let packages = if k.ecosystem == "python"@ && migrate::has_package(
            migrate::python_packages(other),
            k.name,
            k.version,
        ) {
            migrate::python_packages(other)
        } else if k.ecosystem == "node"@ && migrate::has_package(
            migrate::node_packages(other),
            k.name,
            k.version,
        ) {
            migrate::node_packages(other)
        } else {
            migrate::rust_packages(other)
        };
        let i = choose|i: int|
            0 <= i < packages.len() && (#[trigger] packages[i]).name@ == k.name
                && packages[i].version@ == k.version;
        assert(packages.contains(packages[i]));
        assert(in_rules(projects[j].rules, packages[i]));
        assert(false);
    }
    let a = migrate::exclusive(migrate::python_packages(rules), project_dir, projects);
    let b = migrate::exclusive(migrate::node_packages(rules), project_dir, projects);
    let c = migrate::exclusive(migrate::rust_packages(rules), project_dir, projects);
    let all = a + b + c;
    if in_python(rules, e) {
        let own = migrate::python_packages(rules);
        let i = choose|i: int| 0 <= i < own.len() && own[i] == e;
        exclusive_has(own, project_dir, projects, i);
        let n = choose|n: int| 0 <= n < a.len() && a[n] == e.store_path@;
        assert(all[n] == e.store_path@);
    } else if in_node(rules, e) {
        let own = migrate::node_packages(rules);
        let i = choose|i: int| 0 <= i < own.len() && own[i] == e;
        exclusive_has(own, project_dir, projects, i);
        let n = choose|n: int| 0 <= n < b.len() && b[n] == e.store_path@;
        assert(all[a.len() + n] == e.store_path@);
    } else {
        let own = migrate::rust_packages(rules);
        let i = choose|i: int| 0 <= i < own.len() && own[i] == e;
        exclusive_has(own, project_dir, projects, i);
        let n = choose|n: int| 0 <= n < c.len() && c[n] == e.store_path@;
        assert(all[a.len() + b.len() + n] == e.store_path@);
    }
}

// ── What is adopted ─────────────────────────────────────────────────────────
/// The manifests of an ecosystem that was adopted are not looked at again, those of the
/// other are; environments, the history and the rules are never looked at, and any
/// other file always is.
pub proof fn manifests_are_skipped(name: Seq<char>, python: bool, node: bool)
    ensures
        ({
            let of_python = name == "requirements.txt"@ || name == "requirements.lock"@ || name
                == "pyproject.toml"@ || name == "Pipfile"@ || name == "Pipfile.lock"@ || name
                == "poetry.lock"@ || name == "setup.py"@ || name == "setup.cfg"@ || name
                == "uv.lock"@;
            let of_node = name == "package.json"@ || name == "package-lock.json"@ || name
                == "yarn.lock"@ || name == "pnpm-lock.yaml"@;
            let bulk = name == ".venv"@ || name == "venv"@ || name == "node_modules"@ || name
                == ".git"@ || name == "kong.rules"@;
            migrate::is_looked_at(name, python, node) == (!bulk && !(python && of_python) && !(node
                && of_node))
        }),
{
}

proof fn found_grow(
    found: Seq<Seq<char>>,
    names: Seq<Seq<char>>,
    with_cfg: Seq<Seq<char>>,
    name: Seq<char>,
)
    ensures
        migrate::found_venvs(found, names, with_cfg).contains(name) == (found.contains(name) || (
        names.contains(name) && with_cfg.contains(name))),
    decreases names.len(),
{
    if names.len() > 0 {
        let rest = names.drop_last();
        let last = names[names.len() - 1];
        found_grow(found, rest, with_cfg, name);
        let front = migrate::found_venvs(found, rest, with_cfg);
        let all = migrate::found_venvs(found, names, with_cfg);
        assert(names.contains(name) == (rest.contains(name) || last == name)) by {
            if rest.contains(name) {
                let k = choose|k: int| 0 <= k < rest.len() && rest[k] == name;
                assert(names[k] == name);
            }
            if names.contains(name) && last != name {
                let k = choose|k: int| 0 <= k < names.len() && names[k] == name;
                assert(rest[k] == name);
            }
        }
        if all != front {
            assert(all == front.push(last));
            assert(all.contains(name) == (front.contains(name) || last == name)) by {
                if front.contains(name) {
                    let k = choose|k: int| 0 <= k < front.len() && front[k] == name;
                    assert(all[k] == name);
                }
                assert(all[front.len() as int] == last);
                if all.contains(name) && last != name {
                    let k = choose|k: int| 0 <= k < all.len() && all[k] == name;
                    assert(front[k] == name);
                }
            }
        }
    }
}

/// The environments of a project are the directories of it that have a configuration:
/// those with one of the usual names, whether or not they are listed, and every other.
pub proof fn environments_are_found(
    dirs: Seq<Seq<char>>,
    with_cfg: Seq<Seq<char>>,
    name: Seq<char>,
)
    ensures
        migrate::found_venvs(
            migrate::found_venvs(Seq::empty(), migrate::usual_names(), with_cfg),
            dirs,
            with_cfg,
        ).contains(name) == (with_cfg.contains(name) && (dirs.contains(name) || name == ".venv"@
            || name == "venv"@ || name == "env"@ || name == ".env"@)),
{
    let usual = migrate::usual_names();
    let none = Seq::<Seq<char>>::empty();
    found_grow(none, usual, with_cfg, name);
    found_grow(migrate::found_venvs(none, usual, with_cfg), dirs, with_cfg, name);
    assert(usual[0] == ".venv"@ && usual[1] == "venv"@ && usual[2] == "env"@ && usual[3]
        == ".env"@);
    assert(usual.len() == 4);
}

/// A value without spaces at its ends.
pub open spec fn is_value(s: Seq<char>) -> bool {
    s.len() > 0 && !text::is_whitespace(s[0]) && !text::is_whitespace(s.last()) && s[0] != '='
}

/// The version of an environment is that of the first line of its configuration that
/// has one.
pub proof fn environment_version_is_read(
    before: Seq<Seq<char>>,
    version: Seq<char>,
    behind: Seq<Seq<char>>,
)
    requires
        is_value(version),
        forall|i: int| 0 <= i < before.len() ==> !"version"@.is_prefix_of(#[trigger] before[i]),
    ensures
        migrate::first_version(before + seq!["version = "@ + version] + behind) == Some(version),
        migrate::first_version(before) is None,
    decreases before.len(),
{
    let line = "version = "@ + version;
    let all = before + seq![line] + behind;
    if before.len() == 0 {
        assert(all[0] == line);
        reveal_strlit("version = ");
        reveal_strlit("version");
        reveal_strlit(" =");
        let sign = seq![' ', '=', ' '];
        let rest = sign + version;
        assert(line =~= "version"@ + rest);
        text_laws::joined_ends("version"@, rest);
        let set = " ="@;
        assert(set[0] == ' ' && set[1] == '=');
        assert(set.contains(' ') && set.contains('='));
        assert(!set.contains(version[0]));
        assert(rest.skip(1).skip(1).skip(1) =~= version);
        assert(text::trim_start_set(version, set) == version);
        assert(rest[0] == ' ' && rest.skip(1)[0] == '=' && rest.skip(1).skip(1)[0] == ' ');
        assert(text::trim_start_set(rest.skip(1).skip(1), set) == version);
        assert(text::trim_start_set(rest.skip(1), set) == version);
        assert(text::trim_start_set(rest, set) == version);
        assert(text::trim(version) == version);
        assert(migrate::version_in(line) == Some(version));
    } else {
        let rest = before.skip(1);
        assert(!"version"@.is_prefix_of(before[0]));
        assert forall|i: int| 0 <= i < rest.len() implies !"version"@.is_prefix_of(
            #[trigger] rest[i],
        ) by {
            assert(rest[i] == before[i + 1]);
        }
        environment_version_is_read(rest, version, behind);
        assert(all[0] == before[0]);
        assert(all.skip(1) =~= rest + seq![line] + behind);
    }
}

/// The metadata of a package names it and its version, in either order, with other
/// lines between them or not; what comes behind them plays no part.
pub proof fn metadata_is_read(name: Seq<char>, version: Seq<char>, behind: Seq<Seq<char>>)
    requires
        is_value(name),
        is_value(version),
    ensures
        migrate::scanned_metadata(seq!["Name: "@ + name, "Version: "@ + version] + behind) == (
            Some(name),
            Some(version),
        ),
        migrate::scanned_metadata(seq!["Version: "@ + version, "Name: "@ + name] + behind) == (
            Some(name),
            Some(version),
        ),
    decreases behind.len(),
{
    let n = "Name: "@ + name;
    let v = "Version: "@ + version;
    if behind.len() == 0 {
        reveal_strlit("Name: ");
        reveal_strlit("Version: ");
        text_laws::joined_ends("Name: "@, name);
        text_laws::joined_ends("Version: "@, version);
        assert(n[0] == 'N' && v[0] == 'V');
        text_laws::no_prefix("Version: "@, n, 0);
        text_laws::no_prefix("Name: "@, v, 0);
        assert(text::trim(name) == name && text::trim(version) == version);
        let none = Seq::<Seq<char>>::empty();
        let a = seq![n, v] + behind;
        let b = seq![v, n] + behind;
        assert(a =~= none.push(n).push(v));
        assert(b =~= none.push(v).push(n));
        assert(none.push(n).drop_last() =~= none && none.push(v).drop_last() =~= none);
        assert(a.drop_last() =~= none.push(n) && b.drop_last() =~= none.push(v));
        assert(migrate::scanned_metadata(none) == (None::<Seq<char>>, None::<Seq<char>>));
        assert(migrate::scanned_metadata(none.push(n)) == (Some(name), None::<Seq<char>>));
        assert(migrate::scanned_metadata(none.push(v)) == (None::<Seq<char>>, Some(version)));
    } else {
        metadata_is_read(name, version, behind.drop_last());
        let a = seq![n, v] + behind;
        let b = seq![v, n] + behind;
        assert(a.drop_last() =~= seq![n, v] + behind.drop_last());
        assert(b.drop_last() =~= seq![v, n] + behind.drop_last());
    }
}

/// A package of an environment is adopted, with its name and version, where its
/// metadata can be read; the tools that every environment has are not, and neither is
/// what is no metadata of a package.
pub proof fn packages_are_adopted(
    e: migrate::InstalledEntry,
    name: Seq<char>,
    version: Seq<char>,
    before: Seq<migrate::InstalledEntry>,
)
    requires
        text::is_ascii(name),
    ensures
        ({
            let low = text::ascii_lower(name);
            let tool = low == "pip"@ || low == "setuptools"@ || low == "wheel"@;
            let readable = ".dist-info"@.is_suffix_of(e.name@) && e.is_dir && e.metadata is Some
                && migrate::metadata_pair(e.metadata->0@) == Some((name, version));
            &&& readable && !tool ==> migrate::adoptable(e) == Some((name, version))
                && migrate::adoptable_entries(before.push(e)) == migrate::adoptable_entries(
                before,
            ).push(e)
            &&& readable && tool ==> migrate::adoptable(e) is None
                && migrate::adoptable_entries(before.push(e)) == migrate::adoptable_entries(before)
            &&& !".dist-info"@.is_suffix_of(e.name@) || !e.is_dir || e.metadata is None
                ==> migrate::adoptable(e) is None && migrate::adoptable_entries(before.push(e))
                == migrate::adoptable_entries(before)
        }),
{
    let all = before.push(e);
    assert(all.drop_last() =~= before && all.last() == e);
}

/// Each line of a record names a file, before the first comma; the files stand in the
/// order of the lines.
pub proof fn recorded_files_are_read(
    before: Seq<Seq<char>>,
    path: Seq<char>,
    rest: Seq<char>,
)
    requires
        path.len() > 0,
        !path.contains(','),
        !text::is_whitespace(path[0]),
        !text::is_whitespace(path.last()),
    ensures
        migrate::record_paths(before.push(path + seq![','] + rest)) == migrate::record_paths(
            before,
        ).push(path),
        migrate::record_paths(before.push(path)) == migrate::record_paths(before).push(path),
        migrate::record_paths(before.push(Seq::empty())) == migrate::record_paths(before),
{
    let line = path + seq![','] + rest;
    text_laws::before_ends_at_first(path, ',', rest);
    let none = Seq::<char>::empty();
    text_laws::before_ends_at_first(none, ',', rest);
    assert(text::trim(path) == path);
    assert(text::trim(none) == none);
    let a = before.push(line);
    let b = before.push(path);
    let c = before.push(none);
    assert(a.drop_last() =~= before && a.last() == line);
    assert(b.drop_last() =~= before && b.last() == path);
    assert(c.drop_last() =~= before && c.last() == none);
}

/// A recorded path that leads out of the environment, upward or from the root, is not
/// followed; one that stays inside is.
pub proof fn paths_that_lead_out(rest: Seq<char>, path: Seq<char>, drive: char, windows: bool)
    requires
        'a' <= drive <= 'z' || 'A' <= drive <= 'Z',
        path.len() > 0,
        path[0] != '.' && path[0] != '/' && path[0] != '\\',
        path.len() > 1 ==> path[1] != ':',
    ensures
        migrate::escapes(".."@ + rest, windows),
        migrate::escapes("/"@ + rest, false),
        migrate::escapes(seq![drive, ':', '/'] + rest, true),
        migrate::escapes(seq![drive, ':', '\\'] + rest, true),
        !migrate::escapes(path, windows),
{
    reveal_strlit("..");
    reveal_strlit("/");
    text_laws::joined_ends(".."@, rest);
    assert(("/"@ + rest)[0] == '/');
    let a = seq![drive, ':', '/'] + rest;
    let b = seq![drive, ':', '\\'] + rest;
    assert(a[0] == drive && a[1] == ':' && a[2] == '/');
    assert(b[0] == drive && b[1] == ':' && b[2] == '\\');
    text_laws::no_prefix(".."@, path, 0);
    reveal_strlit("//");
    let s = paths::slashed(path);
    first_stays(path);
    text_laws::no_prefix("//"@, s, 0);
}

proof fn first_stays(path: Seq<char>)
    requires
        path.len() > 0,
        path[0] != '\\',
    ensures
        paths::slashed(path).len() > 0,
        paths::slashed(path)[0] == path[0],
    decreases path.len(),
{
    if path.len() > 1 {
        first_stays(path.drop_last());
    } else {
        let none = Seq::<char>::empty();
        assert(path.drop_last() =~= none);
        assert(text::replace_char(none, '\\', "/"@) == none);
        assert(none + seq![path.last()] =~= path);
    }
}

/// The packages of `node_modules` are its entries, and below a scope the entries of
/// that, under both names; what starts with a point is none.
pub proof fn modules_are_packages(before: Seq<migrate::ModulesEntry>, e: migrate::ModulesEntry)
    requires
        e.name@.len() > 0,
    ensures
        ({
            let front = migrate::module_packages(before);
            let all = migrate::module_packages(before.push(e));
            &&& e.name@[0] == '.' ==> all == front
            &&& e.name@[0] != '.' && e.name@[0] != '@' ==> all == front.push(e.name@)
            &&& e.name@[0] == '@' && !e.is_dir ==> all == front
            &&& e.name@[0] == '@' && e.is_dir ==> all.len() == front.len() + e.entries@.len()
                && all.take(front.len() as int) == front && forall|i: int|
                0 <= i < e.entries@.len() ==> #[trigger] all[front.len() + i] == e.name@ + "/"@
                    + e.entries@[i]@
        }),
{
    let list = before.push(e);
    assert(list.drop_last() =~= before && list.last() == e);
    let front = migrate::module_packages(before);
    let own = migrate::entry_packages(e);
    let all = front + own;
    assert(front + Seq::<Seq<char>>::empty() =~= front);
    if e.name@[0] != '.' && e.name@[0] != '@' {
        assert(front + seq![e.name@] =~= front.push(e.name@));
    }
    assert(all.take(front.len() as int) =~= front);
}

// ── Standing alone ──────────────────────────────────────────────────────────
/// The packages of a project that are in the store are copied into it, in their order:
/// those of Python into the environment, those of Node under their names, from the
/// directory `package` where they have one and behind the directory of their scope.
pub proof fn packages_are_copied(
    before: Seq<PackageEntry>,
    p: PackageEntry,
    dir: Seq<char>,
    store_root: Seq<char>,
    in_store: Seq<Seq<char>>,
    with_dir: Seq<Seq<char>>,
)
    ensures
        ({
            let stored = paths::joined(store_root, p.store_path@);
            let there = in_store.contains(p.store_path@);
            let python = migrate::copy_packages(before, dir, store_root, in_store);
            let node = migrate::solid_modules(dir, before, store_root, in_store, with_dir);
            let all = migrate::solid_modules(dir, before.push(p), store_root, in_store, with_dir);
            let from = if with_dir.contains(p.store_path@) {
                paths::joined(stored, "package"@)
            } else {
                stored
            };
            let path = paths::joined(dir, p.name@);
            &&& there ==> migrate::copy_packages(before.push(p), dir, store_root, in_store)
                == python.push(ActionModel::CopyTree(dir, stored))
            &&& !there ==> migrate::copy_packages(before.push(p), dir, store_root, in_store)
                == python
            &&& !there ==> all == node
            &&& there && !p.name@.contains('/') ==> all == node.push(
                ActionModel::CopyTree(path, from),
            )
            &&& there && p.name@.contains('/') ==> all == node.push(
                ActionModel::CreateDir(paths::parent_part(path)),
            ).push(ActionModel::CopyTree(path, from))
        }),
{
    let list = before.push(p);
    assert(list.drop_last() =~= before && list.last() == p);
    let node = migrate::solid_modules(dir, before, store_root, in_store, with_dir);
    let all = migrate::solid_modules(dir, list, store_root, in_store, with_dir);
    let stored = paths::joined(store_root, p.store_path@);
    let from = if with_dir.contains(p.store_path@) {
        paths::joined(stored, "package"@)
    } else {
        stored
    };
    let path = paths::joined(dir, p.name@);
    if in_store.contains(p.store_path@) {
        if p.name@.contains('/') {
            assert(all =~= node.push(ActionModel::CreateDir(paths::parent_part(path))).push(
                ActionModel::CopyTree(path, from),
            ));
        } else {
            assert(all =~= node.push(ActionModel::CopyTree(path, from)));
        }
    }
}

// ── Environments ────────────────────────────────────────────────────────────
/// The places in an environment: on Windows `Lib\site-packages` and `Scripts`, elsewhere
/// `lib/pythonX.Y/site-packages` and `bin`.
pub proof fn places_in_environments(
    dir: Seq<char>,
    major: Seq<char>,
    minor: Seq<char>,
    rest: Seq<char>,
)
    requires
        !major.contains('.'),
        !minor.contains('.'),
    ensures
        ({
            let version = major + seq!['.'] + (minor + seq!['.'] + rest);
            &&& venv::site_path(dir, version, false) == paths::joined(
                paths::joined(paths::joined(dir, "lib"@), "python"@ + (major + "."@ + minor)),
                "site-packages"@,
            )
            &&& venv::site_path(dir, version, true) == paths::joined(
                paths::joined(dir, "Lib"@),
                "site-packages"@,
            )
            &&& venv::bin_path(dir, false) == paths::joined(dir, "bin"@)
            &&& venv::bin_path(dir, true) == paths::joined(dir, "Scripts"@)
            &&& venv::python_in(dir, false) == paths::joined(
                paths::joined(dir, "bin"@),
                "python"@,
            )
            &&& venv::python_in(dir, true) == paths::joined(
                paths::joined(dir, "Scripts"@),
                "python.exe"@,
            )
        }),
{
    config_laws::tags_of_interpreters(major, minor, rest);
}

/// Each package that is in the store is linked into the environment, in the order of
/// the packages; one that is not there is left out.
pub proof fn packages_are_linked(
    before: Seq<PackageEntry>,
    p: PackageEntry,
    site: Seq<char>,
    store_root: Seq<char>,
    in_store: Seq<Seq<char>>,
)
    ensures
        ({
            let front = venv::package_steps(before, site, store_root, in_store);
            venv::package_steps(before.push(p), site, store_root, in_store) == (
            if in_store.contains(p.store_path@) {
                front.push(
                    ActionModel::LinkTree(site, paths::joined(store_root, p.store_path@)),
                )
            } else {
                front
            })
        }),
        venv::package_steps(Seq::empty(), site, store_root, in_store)
            == Seq::<ActionModel>::empty(),
{
    let list = before.push(p);
    assert(list.drop_last() =~= before && list.last() == p);
}

/// The configuration that is written into an environment is read back: the version is
/// the one that it was written with.
pub proof fn written_configuration_is_read(home: Seq<char>, version: Seq<char>)
    requires
        !home.contains('\n'),
        !version.contains('\n'),
        is_value(version),
    ensures
        migrate::first_version(text::lines(venv::cfg_text(home, version))) == Some(version),
{
    reveal_strlit("home = ");
    reveal_strlit("\ninclude-system-site-packages = false\nversion = ");
    reveal_strlit("\n");
    reveal_strlit("include-system-site-packages = false");
    reveal_strlit("version = ");
    reveal_strlit("version");
    let first = "home = "@ + home;
    let second = "include-system-site-packages = false"@;
    let third = "version = "@ + version;
    let none = Seq::<char>::empty();
    let end = third + seq!['\n'] + none;
    let middle = second + seq!['\n'] + end;
    assert(venv::cfg_text(home, version) =~= first + seq!['\n'] + middle);
    assert(!first.contains('\n')) by {
        assert forall|i: int| 0 <= i < first.len() implies first[i] != '\n' by {
            if i >= 7 {
                assert(first[i] == home[i - 7]);
                assert(home.contains(home[i - 7]));
            }
        }
    }
    assert(!third.contains('\n')) by {
        assert forall|i: int| 0 <= i < third.len() implies third[i] != '\n' by {
            if i >= 10 {
                assert(third[i] == version[i - 10]);
                assert(version.contains(version[i - 10]));
            }
        }
    }
    assert(!second.contains('\n'));
    text_laws::lines_are_between_newlines(first, middle);
    text_laws::lines_are_between_newlines(second, end);
    text_laws::lines_are_between_newlines(third, none);
    assert(third.last() == version.last());
    assert(second.last() == 'e');
    let home_line = text::lines(venv::cfg_text(home, version))[0];
    let lines = seq![home_line, second] + seq![third] + Seq::<Seq<char>>::empty();
    assert(text::lines(venv::cfg_text(home, version)) =~= lines);
    assert(home_line[0] == 'h') by {
        assert(first[0] == 'h');
        if first.last() == '\r' {
            assert(first.drop_last()[0] == 'h');
        }
    }
    text_laws::no_prefix("version"@, home_line, 0);
    text_laws::no_prefix("version"@, second, 0);
    let before = seq![home_line, second];
    assert forall|i: int| 0 <= i < before.len() implies !"version"@.is_prefix_of(
        #[trigger] before[i],
    ) by {}
    environment_version_is_read(before, version, Seq::empty());
}

// ── Standing alone ──────────────────────────────────────────────────────────
/// The interpreter of a runtime is looked for at the places of its system, the first of
/// which counts.
pub proof fn interpreter_of_runtime(existing: Seq<Seq<char>>)
    ensures
        existing.contains("python/bin/python3"@) ==> migrate::first_listed(
            migrate::exe_candidates(false),
            existing,
        ) == Some("python/bin/python3"@),
        !existing.contains("python/bin/python3"@) && existing.contains("bin/python3"@)
            ==> migrate::first_listed(migrate::exe_candidates(false), existing) == Some(
            "bin/python3"@,
        ),
        !existing.contains("python/bin/python3"@) && !existing.contains("bin/python3"@)
            ==> migrate::first_listed(migrate::exe_candidates(false), existing) is None,
        existing.contains("python.exe"@) ==> migrate::first_listed(
            migrate::exe_candidates(true),
            existing,
        ) == Some("python.exe"@),
        !existing.contains("python.exe"@) && existing.contains("python/python.exe"@)
            ==> migrate::first_listed(migrate::exe_candidates(true), existing) == Some(
            "python/python.exe"@,
        ),
        !existing.contains("python.exe"@) && !existing.contains("python/python.exe"@)
            ==> migrate::first_listed(migrate::exe_candidates(true), existing) is None,
{
    reveal_with_fuel(migrate::first_listed, 3);
    let unix = migrate::exe_candidates(false);
    let windows = migrate::exe_candidates(true);
    assert(unix.skip(1)[0] == "bin/python3"@);
    assert(windows.skip(1)[0] == "python/python.exe"@);
    assert(unix.skip(1).skip(1).len() == 0);
    assert(windows.skip(1).skip(1).len() == 0);
}

/// What stands at the place of an environment makes room: a link is taken away without
/// what it leads to, a directory with all that is in it.
pub proof fn place_is_cleared(path: Seq<char>)
    ensures
        migrate::clear_steps(path, migrate::EnvPlace::Missing) == Seq::<ActionModel>::empty(),
        migrate::clear_steps(path, migrate::EnvPlace::Link) == seq![ActionModel::RemoveLink(path)],
        migrate::clear_steps(path, migrate::EnvPlace::Present) == seq![
            ActionModel::RemoveTree(path),
        ],
{
}

/// The environment of a project that stands alone has the runtime as its own, with
/// interpreters that lead to it.
pub proof fn environment_has_runtime(
    venv: Seq<char>,
    python: crate::config::PythonSection,
    store_root: Seq<char>,
    in_store: Seq<Seq<char>>,
    l: migrate::LocalRuntime,
    windows: bool,
)
    ensures
        ({
            let there = migrate::EnvPlace::Present;
            let site = venv::site_path(venv, python.version@, windows);
            let local = paths::joined(venv, "runtime"@);
            let bin = venv::bin_path(venv, windows);
            let steps = migrate::solid_steps(
                venv,
                python,
                store_root,
                in_store,
                there,
                Some(l),
                false,
                false,
                windows,
            );
            let again = migrate::solid_steps(
                venv,
                python,
                store_root,
                in_store,
                there,
                Some(l),
                true,
                false,
                windows,
            );
            &&& steps.len() >= 6
            &&& steps[0] == ActionModel::RemoveTree(venv)
            &&& steps[1] == ActionModel::CreateDir(site)
            &&& steps[2] == ActionModel::CopyTree(local, l.source@)
            &&& steps[3] == ActionModel::Write(
                paths::joined(venv, "pyvenv.cfg"@),
                venv::cfg_text(paths::parent_part(l.exe@), python.version@),
            )
            &&& steps[4] == ActionModel::CreateDir(bin)
            &&& windows ==> steps[5] == ActionModel::CopyFile(
                paths::joined(bin, "python.exe"@),
                l.exe@,
            )
            &&& !windows ==> steps[5] is Symlink && steps[5]->Symlink_0 == paths::joined(
                bin,
                "python3"@,
            )
            &&& again[2] == ActionModel::RemoveTree(local)
            &&& again[3] == ActionModel::CopyTree(local, l.source@)
        }),
{
}

/// Without a runtime the environment has no interpreter, and with one without a console
/// on Windows it has that too.
pub proof fn interpreters_of_environment(venv: Seq<char>, exe: Seq<char>, windowed: bool)
    ensures
        migrate::local_interpreter(venv, None, windowed, true).len() == 0,
        migrate::local_interpreter(venv, None, windowed, false).len() == 0,
        migrate::local_interpreter(venv, Some(exe), true, true) == seq![
            ActionModel::CopyFile(
                paths::joined(paths::joined(venv, "Scripts"@), "python.exe"@),
                exe,
            ),
            ActionModel::CopyFile(
                paths::joined(paths::joined(venv, "Scripts"@), "pythonw.exe"@),
                paths::joined(paths::parent_part(exe), "pythonw.exe"@),
            ),
        ],
        migrate::local_interpreter(venv, Some(exe), false, true).len() == 1,
        ({
            let bin = paths::joined(venv, "bin"@);
            let links = migrate::local_interpreter(venv, Some(exe), windowed, false);
            &&& links.len() == 2
            &&& links[0] == ActionModel::Symlink(
                paths::joined(bin, "python3"@),
                migrate::link_text(paths::joined(bin, "python3"@), exe),
            )
            &&& links[1] == ActionModel::Symlink(
                paths::joined(bin, "python"@),
                migrate::link_text(paths::joined(bin, "python"@), exe),
            )
        }),
{
    assert(migrate::local_interpreter(venv, Some(exe), true, true) =~= seq![
        ActionModel::CopyFile(paths::joined(paths::joined(venv, "Scripts"@), "python.exe"@), exe),
        ActionModel::CopyFile(
            paths::joined(paths::joined(venv, "Scripts"@), "pythonw.exe"@),
            paths::joined(paths::parent_part(exe), "pythonw.exe"@),
        ),
    ]);
}

/// A link within a project leads to its target from where it stands: up from its
/// directory to what both share, and from there down.
pub proof fn links_lead_to_targets(link: Seq<char>, target: Seq<char>)
    ensures
        ({
            let base = extract::components(paths::parent_part(link));
            let to = extract::components(target);
            let steps = migrate::way(base, to);
            &&& steps.len() > 0 ==> migrate::link_text(link, target) == text::join(steps, "/"@)
            &&& steps.len() == 0 ==> migrate::link_text(link, target) == target
        }),
{
}

/// A distribution without a list of its files is copied with its metadata and with the
/// module of its name, where there is one.
pub proof fn module_is_guessed(
    dist_info: Seq<char>,
    package: Seq<char>,
    site: Seq<char>,
    store: Seq<char>,
)
    ensures
        ({
            let name = migrate::module_name(package);
            let file = name + ".py"@;
            let info = ActionModel::CopyTree(
                paths::joined(store, dist_info),
                paths::joined(site, dist_info),
            );
            let guess = |m: migrate::ModuleKind|
                migrate::guess_steps(dist_info, package, m, site, store);
            &&& guess(migrate::ModuleKind::Dir) == seq![
                info,
                ActionModel::CopyTree(paths::joined(store, name), paths::joined(site, name)),
            ]
            &&& guess(migrate::ModuleKind::File) == seq![
                info,
                ActionModel::CopyFile(paths::joined(store, file), paths::joined(site, file)),
            ]
            &&& guess(migrate::ModuleKind::Missing) == seq![info]
        }),
{
    let name = migrate::module_name(package);
    let file = name + ".py"@;
    let info = ActionModel::CopyTree(paths::joined(store, dist_info), paths::joined(site, dist_info));
    assert(migrate::guess_steps(dist_info, package, migrate::ModuleKind::Dir, site, store) =~= seq![
        info,
        ActionModel::CopyTree(paths::joined(store, name), paths::joined(site, name)),
    ]);
    assert(migrate::guess_steps(dist_info, package, migrate::ModuleKind::File, site, store) =~= seq![
        info,
        ActionModel::CopyFile(paths::joined(store, file), paths::joined(site, file)),
    ]);
    assert(migrate::guess_steps(dist_info, package, migrate::ModuleKind::Missing, site, store)
        =~= seq![info]);
}

/// The package in a directory is named by its manifest, and by the directory where that
/// names none; its version is that of the manifest, or the lowest.
pub proof fn manifest_names_package(
    fields: Seq<(Seq<char>, DocModel)>,
    name: Seq<char>,
    version: Seq<char>,
    dir: Seq<char>,
)
    ensures
        doc::lookup(fields, "name"@) == Some(DocModel::Text(name)) ==> migrate::manifest_pair(
            DocModel::Table(fields),
            dir,
        ).0 == name,
        doc::lookup(fields, "name"@) is None ==> migrate::manifest_pair(
            DocModel::Table(fields),
            dir,
        ).0 == dir,
        doc::lookup(fields, "version"@) == Some(DocModel::Text(version)) ==> migrate::manifest_pair(
            DocModel::Table(fields),
            dir,
        ).1 == version,
        doc::lookup(fields, "version"@) is None ==> migrate::manifest_pair(
            DocModel::Table(fields),
            dir,
        ).1 == "0.0.0"@,
{
}

/// The packages of an environment are in the first directory of an interpreter that has
/// any.
pub proof fn packages_are_in_first_site(
    names: Seq<Seq<char>>,
    with_site: Seq<Seq<char>>,
    i: int,
    j: int,
)
    requires
        migrate::is_site(names, with_site, i),
        0 <= j < names.len(),
        "python"@.is_prefix_of(names[j]),
        with_site.contains(names[j]),
    ensures
        0 <= i <= j,
        "python"@.is_prefix_of(names[i]),
        with_site.contains(names[i]),
{
}

/// A package that is adopted is put under the path of its name and version, without an
/// address or a checksum, and is copied only where nothing has brought that path yet.
pub proof fn adopted_packages_are_stored(
    r: Seq<migrate::AdoptedPackage>,
    from: Seq<migrate::InstalledEntry>,
    py_tag: Seq<char>,
    platform: Seq<char>,
    in_store: Seq<Seq<char>>,
    i: int,
    j: int,
)
    requires
        migrate::are_adopted(r, from, py_tag, platform, in_store),
        0 <= i < from.len(),
        0 <= j < i,
    ensures
        r.len() == from.len(),
        r[i].entry.store_path@ == crate::config::python_path(
            r[i].entry.name@,
            r[i].entry.version@,
            py_tag,
            platform,
        ),
        r[i].entry.hash is None,
        r[i].entry.source_url is None,
        r[i].dist_info@ == from[i].name@,
        in_store.contains(r[i].entry.store_path@) ==> !r[i].copy,
        r[j].entry.store_path@ == r[i].entry.store_path@ ==> !r[i].copy,
        !in_store.contains(r[i].entry.store_path@) && (forall|k: int|
            0 <= k < i ==> (#[trigger] r[k]).entry.store_path@ != r[i].entry.store_path@)
            ==> r[i].copy,
{
    assert(migrate::is_adopted(r[i], from[i], py_tag, platform, in_store, r.take(i)));
    assert(r.take(i)[j] == r[j]);
    if migrate::adopts_path(r.take(i), r[i].entry.store_path@) {
        let k = choose|k: int|
            0 <= k < r.take(i).len() && (#[trigger] r.take(i)[k]).entry.store_path@
                == r[i].entry.store_path@;
        assert(r.take(i)[k] == r[k]);
    }
}

proof fn replaced_by_one(s: Seq<char>, a: char, b: char)
    ensures
        text::replace_char(s, a, seq![b]).len() == s.len(),
        forall|i: int|
            0 <= i < s.len() ==> #[trigger] text::replace_char(s, a, seq![b])[i] == (if s[i] == a {
                b
            } else {
                s[i]
            }),
    decreases s.len(),
{
    if s.len() > 0 {
        replaced_by_one(s.drop_last(), a, b);
    }
}

/// The module of a package is named as the package, in lower case and with `_` for `-`.
pub proof fn module_is_named_as_package(package: Seq<char>, i: int)
    requires
        text::is_ascii(package),
        0 <= i < package.len(),
    ensures
        ({
            let name = migrate::module_name(package);
            &&& name.len() == package.len()
            &&& package[i] == '-' ==> name[i] == '_'
            &&& 'A' <= package[i] <= 'Z' ==> name[i] as u32 - 'a' as u32 == package[i] as u32
                - 'A' as u32
            &&& package[i] != '-' && !('A' <= package[i] <= 'Z') ==> name[i] == package[i]
        }),
{
    reveal_strlit("_");
    assert("_"@ =~= seq!['_']);
    text_laws::lower_is_by_letter(package, i);
    replaced_by_one(text::ascii_lower(package), '-', '_');
}

} // verus!
