//! What holds of the rules of projects: paths in the store, tags of platforms and
//! interpreters, scripts, and what is fetched.
use vstd::prelude::*;

use crate::config;
use crate::doc::DocModel;
use crate::node::parser::NodeDepModel;
use crate::rust_eco::parser::RustDepModel;
use crate::text;
use crate::text_laws;

verus! {

// ── Directories ─────────────────────────────────────────────────────────────
/// A local package at an absolute path, of Unix or of Windows, is where the path says,
/// and one at another path is seen from the project's directory.
pub proof fn local_packages_are_found(path: Seq<char>, project_dir: Seq<char>, drive: char)
    requires
        'a' <= drive <= 'z' || 'A' <= drive <= 'Z',
        path.len() > 0,
        path[0] != '/',
        !(path.len() >= 2 && path[1] == ':'),
        project_dir.len() > 0,
        project_dir.last() != '/',
    ensures
        config::local_dir(seq!['/'] + path, project_dir) == seq!['/'] + path,
        config::local_dir(seq![drive, ':', '/'] + path, project_dir) == seq![drive, ':', '/'] + path,
        config::local_dir(seq![drive, ':', '\\'] + path, project_dir) == seq![drive, ':', '\\']
            + path,
        config::local_dir(path, project_dir) == project_dir + seq!['/'] + path,
{
    reveal_strlit("/");
    assert("/"@ =~= seq!['/']);
    let a = seq!['/'] + path;
    let b = seq![drive, ':', '/'] + path;
    let c = seq![drive, ':', '\\'] + path;
    assert(a[0] == '/');
    assert(b[0] == drive && b[1] == ':' && b[2] == '/');
    assert(c[0] == drive && c[1] == ':' && c[2] == '\\');
}

// ── Tags ────────────────────────────────────────────────────────────────────
/// The platform tags of wheels.
pub proof fn platform_tags(os: Seq<char>, arch: Seq<char>)
    ensures
        config::wheel_platform("windows"@, "x86_64"@) == "win_amd64"@,
        config::wheel_platform("linux"@, "x86_64"@) == "manylinux2014_x86_64"@,
        config::wheel_platform("macos"@, "x86_64"@) == "macosx_10_9_x86_64"@,
        config::wheel_platform("macos"@, "aarch64"@) == "macosx_11_0_arm64"@,
        config::wheel_platform("linux"@, "aarch64"@) == "linux"@ + "_"@ + "aarch64"@,
        config::wheel_platform("windows"@, "aarch64"@) == "windows"@ + "_"@ + "aarch64"@,
        os != "windows"@ && os != "linux"@ && os != "macos"@ ==> config::wheel_platform(os, arch)
            == os + "_"@ + arch,
{
    reveal_strlit("windows");
    reveal_strlit("linux");
    reveal_strlit("macos");
    reveal_strlit("x86_64");
    reveal_strlit("aarch64");
    assert("windows"@[0] == 'w' && "linux"@[0] == 'l' && "macos"@[0] == 'm');
    assert("x86_64"@[0] == 'x' && "aarch64"@[0] == 'a');
}

/// The tag of an interpreter is made of the first two numbers of its version, whatever
/// follows them, and so is its minor version; a missing second number is zero.
pub proof fn tags_of_interpreters(major: Seq<char>, minor: Seq<char>, rest: Seq<char>)
    requires
        !major.contains('.'),
        !minor.contains('.'),
    ensures
        config::python_tag(major + seq!['.'] + minor) == "cp"@ + major + minor,
        config::python_tag(major + seq!['.'] + (minor + seq!['.'] + rest)) == "cp"@ + major + minor,
        config::python_tag(major) == "cp"@ + major + "0"@,
        config::minor_version(major + seq!['.'] + minor) == major + "."@ + minor,
        config::minor_version(major + seq!['.'] + (minor + seq!['.'] + rest)) == major + "."@
            + minor,
        config::minor_version(major) == major + ".0"@,
{
    let dot = seq!['.'];
    text_laws::split_single(major, '.');
    first_piece(major, minor);
    first_piece(major, minor + dot + rest);
    first_piece(minor, rest);
    text_laws::split_single(minor, '.');
    reveal_strlit(".0");
    reveal_strlit(".");
    reveal_strlit("0");
    assert(major + "."@ + "0"@ =~= major + ".0"@);
}

proof fn first_piece(a: Seq<char>, rest: Seq<char>)
    requires
        !a.contains('.'),
    ensures
        text::split(a + seq!['.'] + rest, '.') == seq![a] + text::split(rest, '.'),
{
    assert forall|k: int| 0 <= k < a.len() implies a[k] != '.' by {
        assert(a.contains(a[k]));
    }
    let s = a + seq!['.'] + rest;
    let b = seq!['.'] + rest;
    text_laws::find_absent(a, '.', 0);
    text_laws::find_kept(a, b, '.', 0);
    assert(s =~= a + b);
    assert(s.take(a.len() as int) =~= a);
    assert(s.skip(a.len() as int + 1) =~= rest);
}

// ── Paths in the store ──────────────────────────────────────────────────────
/// Packages have a path in the store by ecosystem, name and version: the scope of a
/// Node package is joined to its name with a plus sign, and a Python package has the
/// tags of its interpreter and platform behind its version.
pub proof fn store_paths(
    scope: Seq<char>,
    name: Seq<char>,
    version: Seq<char>,
    py_tag: Seq<char>,
    platform: Seq<char>,
)
    requires
        !scope.contains('/'),
        !name.contains('/'),
    ensures
        config::node_path(name, version) == "node/libs/"@ + name + "-"@ + version,
        config::node_path(scope + "/"@ + name, version) == "node/libs/"@ + scope + "+"@ + name
            + "-"@ + version,
        config::crate_path(name, version) == "rust/crates/"@ + name + "-"@ + version,
        config::python_path(name, version, py_tag, platform) == "python/libs/"@ + name + "-"@
            + version + "-"@ + py_tag + "-"@ + platform,
{
    reveal_strlit("/");
    assert("/"@ =~= seq!['/']);
    nothing_to_replace(name);
    nothing_to_replace(scope);
    text_laws::replacing_is_by_character(scope, seq!['/'], '/', 'x', "+"@);
    text_laws::replacing_is_by_character(scope + seq!['/'], name, '/', 'x', "+"@);
    assert("node/libs/"@ + (scope + "+"@ + name) + "-"@ + version =~= "node/libs/"@ + scope + "+"@
        + name + "-"@ + version);
}

proof fn nothing_to_replace(s: Seq<char>)
    requires
        !s.contains('/'),
    ensures
        text::replace_char(s, '/', "+"@) == s,
    decreases s.len(),
{
    if s.len() > 0 {
        let front = s.drop_last();
        assert(!front.contains('/')) by {
            assert forall|i: int| 0 <= i < front.len() implies front[i] != '/' by {
                assert(s.contains(s[i]));
            }
        }
        nothing_to_replace(front);
        assert(s.contains(s[s.len() - 1]));
        assert(front + seq![s.last()] =~= s);
    }
}

// ── What is fetched ─────────────────────────────────────────────────────────
/// Each dependency of the registry is planned once, behind those before it, with its
/// name, its version and its path; a local one is not. It is fetched where its path is
/// neither in the store nor planned already, and in any case where that is forced.
pub proof fn dependencies_are_planned(
    before: Seq<NodeDepModel>,
    d: NodeDepModel,
    crates: Seq<RustDepModel>,
    c: RustDepModel,
    in_store: Seq<Seq<char>>,
    force: bool,
)
    ensures
        ({
            let front = config::node_plan(before, in_store, force);
            let all = config::node_plan(before.push(d), in_store, force);
            let path = config::node_path(d.name, d.version);
            &&& d.local is Some ==> all == front
            &&& d.local is None ==> all.len() == front.len() + 1 && all.drop_last() == front
                && all.last().name == d.name && all.last().version == d.version
                && all.last().store_path == path
            &&& d.local is None && force ==> all.last().fetch
            &&& d.local is None && !force ==> all.last().fetch == (!in_store.contains(path)
                && forall|k: int|
                0 <= k < front.len() ==> (#[trigger] front[k]).store_path != path)
        }),
        ({
            let front = config::rust_plan(crates, in_store, force);
            let all = config::rust_plan(crates.push(c), in_store, force);
            let path = config::crate_path(c.name, c.version);
            &&& all.len() == front.len() + 1 && all.drop_last() == front && all.last().name
                == c.name && all.last().version == c.version && all.last().store_path == path
            &&& force ==> all.last().fetch
            &&& !force ==> all.last().fetch == (!in_store.contains(path) && forall|k: int|
                0 <= k < front.len() ==> (#[trigger] front[k]).store_path != path)
        }),
{
    let all = before.push(d);
    assert(all.drop_last() =~= before && all.last() == d);
    let more = crates.push(c);
    assert(more.drop_last() =~= crates && more.last() == c);
    let front = config::node_plan(before, in_store, force);
    let other = config::rust_plan(crates, in_store, force);
    if d.local is None {
        let p = config::planned(
            d.name,
            d.version,
            config::node_path(d.name, d.version),
            in_store,
            front,
            force,
        );
        assert(front.push(p).drop_last() =~= front);
    }
    let q = config::planned(
        c.name,
        c.version,
        config::crate_path(c.name, c.version),
        in_store,
        other,
        force,
    );
    assert(other.push(q).drop_last() =~= other);
}

// ── Metadata ────────────────────────────────────────────────────────────────
/// The requirements in the metadata of a package are the lines that start with
/// `Requires-Dist:`, in their order, without that and the spaces round them.
pub proof fn required_lines(before: Seq<Seq<char>>, entry: Seq<char>, other: Seq<char>)
    requires
        entry.len() > 0,
        !text::is_whitespace(entry[0]),
        !text::is_whitespace(entry.last()),
        !"Requires-Dist:"@.is_prefix_of(other),
    ensures
        config::requires_among(before.push("Requires-Dist: "@ + entry)) == config::requires_among(
            before,
        ).push(entry),
        config::requires_among(before.push(other)) == config::requires_among(before),
        config::requires_among(Seq::empty()) == Seq::<Seq<char>>::empty(),
{
    reveal_strlit("Requires-Dist: ");
    reveal_strlit("Requires-Dist:");
    let line = "Requires-Dist: "@ + entry;
    let spaced = seq![' '] + entry;
    assert(line =~= "Requires-Dist:"@ + spaced);
    text_laws::joined_ends("Requires-Dist:"@, spaced);
    assert(spaced.skip(1) =~= entry);
    assert(text::trim_start(entry) == entry);
    assert(text::trim_start(spaced) == entry);
    let a = before.push(line);
    let b = before.push(other);
    assert(a.drop_last() =~= before && a.last() == line);
    assert(b.drop_last() =~= before && b.last() == other);
}

// ── Scripts ─────────────────────────────────────────────────────────────────
proof fn scripts_stay(
    scripts: Seq<(Seq<char>, Seq<char>)>,
    entries: Seq<(Seq<char>, DocModel)>,
    i: int,
)
    requires
        0 <= i < scripts.len(),
    ensures
        config::with_scripts(scripts, entries).len() >= scripts.len(),
        config::with_scripts(scripts, entries)[i] == scripts[i],
    decreases entries.len(),
{
    if entries.len() > 0 {
        scripts_stay(scripts, entries.drop_last(), i);
    }
}

/// Every script of `package.json` that is a text, and every task of taskipy, can be run
/// by its name; where both have a name, the one of `package.json` is meant, and of
/// entries with one name the first.
pub proof fn scripts_can_be_run(
    scripts: Seq<(Seq<char>, Seq<char>)>,
    before: Seq<(Seq<char>, DocModel)>,
    name: Seq<char>,
    command: Seq<char>,
    behind: Seq<(Seq<char>, DocModel)>,
)
    requires
        forall|i: int| 0 <= i < scripts.len() ==> (#[trigger] scripts[i]).0 != name,
        forall|i: int| 0 <= i < before.len() ==> (#[trigger] before[i]).0 != name,
    ensures
        config::with_scripts(
            scripts,
            before + seq![(name, DocModel::Text(command))] + behind,
        ).contains((name, command)),
    decreases behind.len(),
{
    let entry = (name, DocModel::Text(command));
    let all = before + seq![entry] + behind;
    if behind.len() == 0 {
        assert(all =~= before.push(entry));
        assert(all.drop_last() =~= before);
        let front = config::with_scripts(scripts, before);
        name_is_new(scripts, before, name);
        assert(!config::has_script(front, name));
        assert(front.push((name, command))[front.len() as int] == (name, command));
    } else {
        scripts_can_be_run(scripts, before, name, command, behind.drop_last());
        assert(all.drop_last() =~= before + seq![entry] + behind.drop_last());
        let front = config::with_scripts(scripts, all.drop_last());
        let k = choose|k: int| 0 <= k < front.len() && front[k] == (name, command);
        assert(config::with_scripts(scripts, all)[k] == (name, command));
    }
}

proof fn name_is_new(
    scripts: Seq<(Seq<char>, Seq<char>)>,
    entries: Seq<(Seq<char>, DocModel)>,
    name: Seq<char>,
)
    requires
        forall|i: int| 0 <= i < scripts.len() ==> (#[trigger] scripts[i]).0 != name,
        forall|i: int| 0 <= i < entries.len() ==> (#[trigger] entries[i]).0 != name,
    ensures
        forall|i: int|
            0 <= i < config::with_scripts(scripts, entries).len() ==> (
            #[trigger] config::with_scripts(scripts, entries)[i]).0 != name,
    decreases entries.len(),
{
    if entries.len() > 0 {
        let rest = entries.drop_last();
        assert forall|i: int| 0 <= i < rest.len() implies (#[trigger] rest[i]).0 != name by {
            assert(rest[i] == entries[i]);
        }
        name_is_new(scripts, rest, name);
        assert(entries[entries.len() - 1].0 != name);
        let front = config::with_scripts(scripts, rest);
        let all = config::with_scripts(scripts, entries);
        assert forall|i: int| 0 <= i < all.len() implies (#[trigger] all[i]).0 != name by {
            if i < front.len() {
                assert(all[i] == front[i]);
            }
        }
    }
}

/// A script of the project is not replaced by a task of the same name.
pub proof fn tasks_replace_no_script(
    scripts: Seq<(Seq<char>, Seq<char>)>,
    tasks: Seq<(Seq<char>, DocModel)>,
    i: int,
)
    requires
        0 <= i < scripts.len(),
    ensures
        config::with_scripts(scripts, tasks).contains(scripts[i]),
{
    scripts_stay(scripts, tasks, i);
    assert(config::with_scripts(scripts, tasks)[i] == scripts[i]);
}

/// The scripts of a project are those under `scripts` in `package.json` and under
/// `tool.taskipy.tasks` in `pyproject.toml`.
pub proof fn where_scripts_stand(
    fields: Seq<(Seq<char>, DocModel)>,
    entries: Seq<(Seq<char>, DocModel)>,
    tool: Seq<(Seq<char>, DocModel)>,
    taskipy: Seq<(Seq<char>, DocModel)>,
    tasks: Seq<(Seq<char>, DocModel)>,
    project: Seq<(Seq<char>, DocModel)>,
)
    requires
        crate::doc::lookup(fields, "scripts"@) == Some(DocModel::Table(entries)),
        crate::doc::lookup(project, "tool"@) == Some(DocModel::Table(tool)),
        crate::doc::lookup(tool, "taskipy"@) == Some(DocModel::Table(taskipy)),
        crate::doc::lookup(taskipy, "tasks"@) == Some(DocModel::Table(tasks)),
    ensures
        config::project_scripts(Some(DocModel::Table(fields)), Some(DocModel::Table(project)))
            == config::with_scripts(config::with_scripts(Seq::empty(), entries), tasks),
        config::project_scripts(Some(DocModel::Table(fields)), None) == config::with_scripts(
            Seq::empty(),
            entries,
        ),
        config::project_scripts(None, Some(DocModel::Table(project))) == config::with_scripts(
            Seq::empty(),
            tasks,
        ),
{
}

/// A package is fetched where it is neither in the store nor among those before it, or
/// where that is forced.
pub proof fn packages_are_fetched_once(
    in_store: Seq<Seq<char>>,
    earlier: Seq<config::PackageEntry>,
    path: Seq<char>,
    i: int,
)
    requires
        0 <= i < earlier.len(),
    ensures
        config::must_fetch(in_store, true, earlier, path),
        in_store.contains(path) ==> !config::must_fetch(in_store, false, earlier, path),
        earlier[i].store_path@ == path ==> !config::must_fetch(in_store, false, earlier, path),
        !in_store.contains(path) && (forall|k: int|
            0 <= k < earlier.len() ==> (#[trigger] earlier[k]).store_path@ != path)
            ==> config::must_fetch(in_store, false, earlier, path),
{
}

/// The metadata of a stored package is that of the first directory for it that has any.
pub proof fn metadata_is_of_first_directory(
    entries: Seq<config::StoredEntry>,
    i: int,
    j: int,
)
    requires
        config::is_metadata_entry(entries, i),
        0 <= j < entries.len(),
        ".dist-info"@.is_suffix_of(entries[j].name@),
        entries[j].metadata is Some,
    ensures
        0 <= i <= j,
        ".dist-info"@.is_suffix_of(entries[i].name@),
        entries[i].metadata is Some,
{
}

/// The dependencies of a project come from the files of each ecosystem: crates from
/// `Cargo.lock`, bottles from the `Brewfile`, and none where the file is missing.
pub proof fn dependencies_come_from_files(texts: config::ManifestTexts)
    ensures
        texts.cargo_lock is None ==> config::rust_outcome(texts) == Some(
            Seq::<RustDepModel>::empty(),
        ),
        texts.cargo_lock matches Some(c) ==> config::rust_outcome(texts)
            == crate::rust_eco::parser::locked_crates(c@),
        texts.brewfile is None ==> config::brew_outcome(texts).len() == 0,
        texts.brewfile matches Some(c) ==> config::brew_outcome(texts)
            == crate::brew::parser::lines_deps(text::lines(c@)),
{
}

/// The local packages of a project are those of its dependencies that name a directory.
pub proof fn local_packages_are_local(deps: Seq<NodeDepModel>, d: NodeDepModel)
    ensures
        d.local is Some ==> config::local_models(deps.push(d)) == config::local_models(deps).push(d),
        d.local is None ==> config::local_models(deps.push(d)) == config::local_models(deps),
        config::local_models(Seq::empty()).len() == 0,
{
    reveal(Seq::filter);
    assert(deps.push(d).drop_last() =~= deps);
}

} // verus!
