//! Running a script of a project: which command it is, in which environment it
//! runs, and what has to be built before.
use vstd::prelude::*;

use crate::chars;
use crate::config;
use crate::config::KongRules;
use crate::config::PackageEntry;
use crate::doc;
use crate::doc::DocModel;
use crate::paths;
use crate::text;

verus! {

// ── The command ─────────────────────────────────────────────────────────────
/// The command of the first script of that name.
pub open spec fn script_command(scripts: Seq<(Seq<char>, Seq<char>)>, name: Seq<char>) -> Option<
    Seq<char>,
>
    decreases scripts.len(),
{
    if scripts.len() == 0 {
        None
    } else if scripts[0].0 == name {
        Some(scripts[0].1)
    } else {
        script_command(scripts.skip(1), name)
    }
}

/// The command of a script in a `package.json`.
pub open spec fn package_command(manifest: Option<DocModel>, name: Seq<char>) -> Option<Seq<char>> {
    doc::as_text(doc::get_opt(doc::get_opt(manifest, "scripts"@), name))
}

/// The scripts of the rules.
pub open spec fn rule_scripts(rules: Option<&KongRules>) -> Seq<(Seq<char>, Seq<char>)> {
    match rules {
        Some(r) => config::script_views(r.scripts@),
        None => Seq::empty(),
    }
}

/// The command of a script: that of the rules, or else that of the `package.json`.
pub open spec fn command_of(
    scripts: Seq<(Seq<char>, Seq<char>)>,
    manifest: Option<DocModel>,
    name: Seq<char>,
) -> Option<Seq<char>> {
    match script_command(scripts, name) {
        Some(c) => Some(c),
        None => package_command(manifest, name),
    }
}

fn find_script(scripts: &Vec<(String, String)>, name: &str) -> (r: Option<String>)
    ensures
        text::opt_view(r) == script_command(config::script_views(scripts@), name@),
{
    let ghost models = config::script_views(scripts@);
    let mut i: usize = 0;
    assert(models.skip(0) =~= models);
    while i < scripts.len()
        invariant
            i <= scripts.len(),
            models == config::script_views(scripts@),
            script_command(models, name@) == script_command(models.skip(i as int), name@),
        decreases scripts.len() - i,
    {
        assert(models.skip(i as int)[0] == (scripts@[i as int].0@, scripts@[i as int].1@));
        if chars::str_same(scripts[i].0.as_str(), name) {
            return Some(scripts[i].1.clone());
        }
        assert(models.skip(i as int).skip(1) =~= models.skip(i + 1));
        i = i + 1;
    }
    None
}

/// The command of a script, by the rules of a project and the content of its
/// `package.json`, where they are there.
pub fn resolve_script(script: &str, rules: Option<&KongRules>, package_json: Option<&str>) -> (r:
    Option<String>)
    ensures
        text::opt_view(r) == command_of(
            rule_scripts(rules),
            config::json_of(text::opt_str_view(package_json)),
            script@,
        ),
{
    if let Some(rules) = rules {
        if let Some(command) = find_script(&rules.scripts, script) {
            return Some(command);
        }
    }
    let manifest = match package_json {
        Some(content) => doc::parse_json(content),
        None => None,
    };
    match doc::text_of(doc::get_in(doc::get_in(manifest.as_ref(), "scripts"), script)) {
        Some(command) => Some(command.clone()),
        None => None,
    }
}

/// A script of the rules hides one of the `package.json`.
pub proof fn rules_come_first(
    scripts: Seq<(Seq<char>, Seq<char>)>,
    manifest: Option<DocModel>,
    name: Seq<char>,
    i: int,
)
    requires
        0 <= i < scripts.len(),
        scripts[i].0 == name,
        config::names_differ(scripts),
    ensures
        command_of(scripts, manifest, name) == Some(scripts[i].1),
{
    found_by_name(scripts, name, i);
}

proof fn found_by_name(scripts: Seq<(Seq<char>, Seq<char>)>, name: Seq<char>, i: int)
    requires
        0 <= i < scripts.len(),
        scripts[i].0 == name,
        config::names_differ(scripts),
    ensures
        script_command(scripts, name) == Some(scripts[i].1),
    decreases scripts.len(),
{
    if i > 0 {
        let rest = scripts.skip(1);
        assert(scripts[0].0 != scripts[i].0);
        assert(rest[i - 1] == scripts[i]);
        assert forall|a: int, b: int|
            #![trigger rest[a], rest[b]]
            0 <= a < b < rest.len() implies rest[a].0 != rest[b].0 by {
            assert(rest[a] == scripts[a + 1] && rest[b] == scripts[b + 1]);
        }
        found_by_name(rest, name, i - 1);
    }
}

/// A command with arguments behind it.
pub open spec fn with_args(command: Seq<char>, args: Seq<Seq<char>>) -> Seq<char> {
    if args.len() == 0 {
        command
    } else {
        command + " "@ + text::join(args, " "@)
    }
}

/// A command with arguments behind it.
pub fn full_command(command: &str, args: &[String]) -> (r: String)
    ensures
        r@ == with_args(command@, text::views(args@)),
{
    let mut out = String::from_str(command);
    if args.len() > 0 {
        out.append(" ");
        out.append(chars::join(args, " ").as_str());
    }
    out
}

// ── The environment ─────────────────────────────────────────────────────────
/// The packages of Homebrew of a project.
pub open spec fn brew_packages(rules: Option<&KongRules>) -> Seq<PackageEntry> {
    match rules {
        Some(r) => match r.brew {
            Some(brew) => brew.packages@,
            None => Seq::empty(),
        },
        None => Seq::empty(),
    }
}

/// A path that exists, as a list.
pub open spec fn if_there(path: Seq<char>, existing: Seq<Seq<char>>) -> Seq<Seq<char>> {
    if existing.contains(path) {
        seq![path]
    } else {
        Seq::empty()
    }
}

/// The directories below those of packages that exist: for each package, those with
/// these paths in it.
pub open spec fn package_dirs(
    packages: Seq<PackageEntry>,
    store_root: Seq<char>,
    subs: Seq<Seq<char>>,
    existing: Seq<Seq<char>>,
) -> Seq<Seq<char>>
    decreases packages.len(),
{
    if packages.len() == 0 {
        Seq::empty()
    } else {
        package_dirs(packages.drop_last(), store_root, subs, existing) + sub_dirs(
            paths::joined(store_root, packages.last().store_path@),
            subs,
            existing,
        )
    }
}

/// The directories with these paths in a directory that exist.
pub open spec fn sub_dirs(dir: Seq<char>, subs: Seq<Seq<char>>, existing: Seq<Seq<char>>) -> Seq<
    Seq<char>,
>
    decreases subs.len(),
{
    if subs.len() == 0 {
        Seq::empty()
    } else {
        sub_dirs(dir, subs.drop_last(), existing) + if_there(
            paths::joined(dir, subs.last()),
            existing,
        )
    }
}

/// The directory of the executables of the toolchain of a project, if it exists.
pub open spec fn toolchain_bin(
    rules: Option<&KongRules>,
    store_root: Seq<char>,
    existing: Seq<Seq<char>>,
) -> Seq<Seq<char>> {
    match rules {
        Some(r) => match r.runtimes {
            Some(section) => match section.rust {
                Some(rust) => if_there(
                    paths::joined(paths::joined(store_root, rust.store_path@), "bin"@),
                    existing,
                ),
                None => Seq::empty(),
            },
            None => Seq::empty(),
        },
        None => Seq::empty(),
    }
}

/// A text that is not empty, as a list.
pub open spec fn if_any(s: Seq<char>) -> Seq<Seq<char>> {
    if s.len() == 0 {
        Seq::empty()
    } else {
        seq![s]
    }
}

/// What stands between the parts of a search path.
pub open spec fn separator(windows: bool) -> Seq<char> {
    if windows {
        ";"@
    } else {
        ":"@
    }
}

/// The parts of the search path for executables: Homebrew, the toolchain, the
/// commands of Node.js packages, those of the Python environment, and what was
/// there.
pub open spec fn path_parts(
    env_dir: Seq<char>,
    store_root: Seq<char>,
    rules: Option<&KongRules>,
    existing: Seq<Seq<char>>,
    current: Seq<char>,
    windows: bool,
) -> Seq<Seq<char>> {
    package_dirs(brew_packages(rules), store_root, seq!["bin"@, "sbin"@], existing)
        + toolchain_bin(rules, store_root, existing) + seq![
        paths::joined(paths::joined(env_dir, "node_modules"@), ".bin"@),
        crate::python::venv::bin_path(paths::joined(env_dir, ".venv"@), windows),
    ] + if_any(current)
}

/// The parts of a search path for files of Homebrew packages, and what was there.
pub open spec fn library_parts(
    store_root: Seq<char>,
    rules: Option<&KongRules>,
    sub: Seq<char>,
    existing: Seq<Seq<char>>,
    current: Seq<char>,
) -> Seq<Seq<char>> {
    package_dirs(brew_packages(rules), store_root, seq![sub], existing) + if_any(current)
}

fn push_text(out: &mut Vec<String>, s: String)
    ensures
        text::views(final(out)@) == text::views(old(out)@).push(s@),
{
    out.push(s);
    assert(text::views(out@) =~= text::views(old(out)@).push(s@));
}

/// Adds the directories below those of packages that exist.
pub fn add_package_dirs(
    out: &mut Vec<String>,
    packages: &Vec<PackageEntry>,
    store_root: &str,
    subs: &[&str],
    existing: &[String],
)
    ensures
        text::views(final(out)@) == text::views(old(out)@) + package_dirs(
            packages@,
            store_root@,
            paths::str_views(subs@),
            text::views(existing@),
        ),
{
    let ghost start = text::views(out@);
    let ghost names = paths::str_views(subs@);
    let ghost there = text::views(existing@);
    let mut i: usize = 0;
    assert(start =~= start + package_dirs(packages@.take(0), store_root@, names, there));
    while i < packages.len()
        invariant
            i <= packages.len(),
            start == text::views(old(out)@),
            names == paths::str_views(subs@),
            there == text::views(existing@),
            text::views(out@) == start + package_dirs(
                packages@.take(i as int),
                store_root@,
                names,
                there,
            ),
        decreases packages.len() - i,
    {
        let ghost before = text::views(out@);
        proof {
            assert(packages@.take(i + 1).drop_last() =~= packages@.take(i as int));
            assert(packages@.take(i + 1).last() == packages@[i as int]);
        }
        let dir = paths::join(store_root, packages[i].store_path.as_str());
        let mut j: usize = 0;
        assert(before =~= before + sub_dirs(dir@, names.take(0), there));
        while j < subs.len()
            invariant
                j <= subs.len(),
                names == paths::str_views(subs@),
                there == text::views(existing@),
                text::views(out@) == before + sub_dirs(dir@, names.take(j as int), there),
            decreases subs.len() - j,
        {
            let ghost earlier = text::views(out@);
            proof {
                assert(names.take(j + 1).drop_last() =~= names.take(j as int));
                assert(names.take(j + 1).last() == subs@[j as int]@);
            }
            let path = paths::join(dir.as_str(), subs[j]);
            let ghost model = path@;
            if paths::listed(existing, path.as_str()) {
                push_text(out, path);
            }
            j = j + 1;
            assert(text::views(out@) =~= earlier + if_there(model, there));
            assert(text::views(out@) =~= before + sub_dirs(dir@, names.take(j as int), there));
        }
        assert(names.take(j as int) =~= names);
        i = i + 1;
        assert(text::views(out@) =~= start + package_dirs(
            packages@.take(i as int),
            store_root@,
            names,
            there,
        ));
    }
    assert(packages@.take(i as int) =~= packages@);
}

fn add_brew_dirs(
    out: &mut Vec<String>,
    rules: Option<&KongRules>,
    store_root: &str,
    subs: &[&str],
    existing: &[String],
)
    ensures
        text::views(final(out)@) == text::views(old(out)@) + package_dirs(
            brew_packages(rules),
            store_root@,
            paths::str_views(subs@),
            text::views(existing@),
        ),
{
    if let Some(r) = rules {
        if let Some(brew) = &r.brew {
            add_package_dirs(out, &brew.packages, store_root, subs, existing);
            return;
        }
    }
    assert(text::views(out@) =~= text::views(old(out)@) + package_dirs(
        brew_packages(rules),
        store_root@,
        paths::str_views(subs@),
        text::views(existing@),
    ));
}

fn separator_of(windows: bool) -> (r: &'static str)
    ensures
        r@ == separator(windows),
{
    if windows {
        ";"
    } else {
        ":"
    }
}

/// The search path for executables. `existing` lists the directories that exist,
/// and `current` is the value that the variable has.
pub fn build_path(
    env_dir: &str,
    store_root: &str,
    rules: Option<&KongRules>,
    existing: &[String],
    current: &str,
    windows: bool,
) -> (r: String)
    ensures
        r@ == text::join(
            path_parts(
                env_dir@,
                store_root@,
                rules,
                text::views(existing@),
                current@,
                windows,
            ),
            separator(windows),
        ),
{
    let mut parts: Vec<String> = Vec::new();
    let ghost there = text::views(existing@);
    assert(text::views(parts@) =~= Seq::empty());
    let subs: [&str; 2] = ["bin", "sbin"];
    let slice = subs.as_slice();
    assert(paths::str_views(slice@) =~= seq!["bin"@, "sbin"@]);
    add_brew_dirs(&mut parts, rules, store_root, slice, existing);
    let ghost brew = package_dirs(
        brew_packages(rules),
        store_root@,
        seq!["bin"@, "sbin"@],
        there,
    );
    assert(text::views(parts@) =~= brew);
    if let Some(r) = rules {
        if let Some(section) = &r.runtimes {
            if let Some(rust) = &section.rust {
                let dir = paths::join(store_root, rust.store_path.as_str());
                let bin = paths::join(dir.as_str(), "bin");
                if paths::listed(existing, bin.as_str()) {
                    push_text(&mut parts, bin);
                }
            }
        }
    }
    assert(text::views(parts@) =~= brew + toolchain_bin(rules, store_root@, there));
    let modules = paths::join(env_dir, "node_modules");
    push_text(&mut parts, paths::join(modules.as_str(), ".bin"));
    let venv = paths::join(env_dir, ".venv");
    push_text(&mut parts, crate::python::venv::bin_dir(venv.as_str(), windows));
    if !current.is_empty() {
        push_text(&mut parts, String::from_str(current));
    }
    assert(text::views(parts@) =~= path_parts(
        env_dir@,
        store_root@,
        rules,
        there,
        current@,
        windows,
    ));
    chars::join(&parts, separator_of(windows))
}

fn build_library_path(
    store_root: &str,
    rules: Option<&KongRules>,
    sub: &str,
    existing: &[String],
    current: &str,
    windows: bool,
) -> (r: String)
    ensures
        r@ == text::join(
            library_parts(store_root@, rules, sub@, text::views(existing@), current@),
            separator(windows),
        ),
{
    let mut parts: Vec<String> = Vec::new();
    assert(text::views(parts@) =~= Seq::empty());
    let subs: [&str; 1] = [sub];
    let slice = subs.as_slice();
    assert(paths::str_views(slice@) =~= seq![sub@]);
    add_brew_dirs(&mut parts, rules, store_root, slice, existing);
    if !current.is_empty() {
        push_text(&mut parts, String::from_str(current));
    }
    assert(text::views(parts@) =~= library_parts(
        store_root@,
        rules,
        sub@,
        text::views(existing@),
        current@,
    ));
    chars::join(&parts, separator_of(windows))
}

/// The search path for shared libraries.
pub fn build_lib_path(
    store_root: &str,
    rules: Option<&KongRules>,
    existing: &[String],
    current: &str,
    windows: bool,
) -> (r: String)
    ensures
        r@ == text::join(
            library_parts(store_root@, rules, "lib"@, text::views(existing@), current@),
            separator(windows),
        ),
{
    build_library_path(store_root, rules, "lib", existing, current, windows)
}

/// The search path of `pkg-config`.
pub fn build_pkg_config_path(
    store_root: &str,
    rules: Option<&KongRules>,
    existing: &[String],
    current: &str,
    windows: bool,
) -> (r: String)
    ensures
        r@ == text::join(
            library_parts(
                store_root@,
                rules,
                "lib/pkgconfig"@,
                text::views(existing@),
                current@,
            ),
            separator(windows),
        ),
{
    build_library_path(store_root, rules, "lib/pkgconfig", existing, current, windows)
}

/// The variable with the search path for shared libraries.
pub open spec fn lib_variable(macos: bool) -> Seq<char> {
    if macos {
        "DYLD_LIBRARY_PATH"@
    } else {
        "LD_LIBRARY_PATH"@
    }
}

/// The variable with the search path for shared libraries.
pub fn lib_env_key(macos: bool) -> (r: &'static str)
    ensures
        r@ == lib_variable(macos),
{
    if macos {
        "DYLD_LIBRARY_PATH"
    } else {
        "LD_LIBRARY_PATH"
    }
}

/// The variables that are set for a script.
pub open spec fn variables(
    env_dir: Seq<char>,
    path: Seq<char>,
    lib_path: Seq<char>,
    pkg_config_path: Seq<char>,
    venv_exists: bool,
    node_modules_exists: bool,
    macos: bool,
) -> Seq<(Seq<char>, Seq<char>)> {
    seq![("PATH"@, path)] + (if venv_exists {
        seq![("VIRTUAL_ENV"@, paths::joined(env_dir, ".venv"@))]
    } else {
        Seq::empty()
    }) + (if node_modules_exists {
        seq![("NODE_PATH"@, paths::joined(env_dir, "node_modules"@))]
    } else {
        Seq::empty()
    }) + (if lib_path.len() > 0 {
        seq![(lib_variable(macos), lib_path)]
    } else {
        Seq::empty()
    }) + (if pkg_config_path.len() > 0 {
        seq![("PKG_CONFIG_PATH"@, pkg_config_path)]
    } else {
        Seq::empty()
    })
}

/// The variables that are set for a script, beside those that it inherits.
pub fn script_env(
    env_dir: &str,
    path: String,
    lib_path: String,
    pkg_config_path: String,
    venv_exists: bool,
    node_modules_exists: bool,
    macos: bool,
) -> (r: Vec<(String, String)>)
    ensures
        config::script_views(r@) == variables(
            env_dir@,
            path@,
            lib_path@,
            pkg_config_path@,
            venv_exists,
            node_modules_exists,
            macos,
        ),
{
    let mut out: Vec<(String, String)> = Vec::new();
    let ghost all = variables(
        env_dir@,
        path@,
        lib_path@,
        pkg_config_path@,
        venv_exists,
        node_modules_exists,
        macos,
    );
    out.push((String::from_str("PATH"), path));
    if venv_exists {
        out.push((String::from_str("VIRTUAL_ENV"), paths::join(env_dir, ".venv")));
    }
    if node_modules_exists {
        out.push((String::from_str("NODE_PATH"), paths::join(env_dir, "node_modules")));
    }
    if !lib_path.as_str().is_empty() {
        out.push((String::from_str(lib_env_key(macos)), lib_path));
    }
    if !pkg_config_path.as_str().is_empty() {
        out.push((String::from_str("PKG_CONFIG_PATH"), pkg_config_path));
    }
    assert(config::script_views(out@) =~= all);
    out
}

// ── Building first ──────────────────────────────────────────────────────────
/// A word names a file that cargo builds.
pub open spec fn names_target(word: Seq<char>) -> bool {
    text::contains(word, "target/"@) || text::contains(word, "target\\"@)
}

/// The first word that names a file that cargo builds.
pub open spec fn first_target(words: Seq<Seq<char>>) -> Option<Seq<char>>
    decreases words.len(),
{
    if words.len() == 0 {
        None
    } else if names_target(words[0]) {
        Some(words[0])
    } else {
        first_target(words.skip(1))
    }
}

/// The file that cargo builds for a command, if the command runs one.
pub open spec fn binary_of(command: Seq<char>, project_dir: Seq<char>) -> Option<Seq<char>> {
    if text::contains(command, "./target/"@) || text::contains(command, ".\\target\\"@) {
        match first_target(text::words(command)) {
            Some(word) => Some(paths::joined(project_dir, word)),
            None => None,
        }
    } else {
        None
    }
}

/// The file that cargo builds for a command, if the command runs one.
pub fn target_binary(command: &str, project_dir: &str) -> (r: Option<String>)
    ensures
        text::opt_view(r) == binary_of(command@, project_dir@),
{
    let whole = chars::of(command);
    if !chars::contains(&whole, "./target/") && !chars::contains(&whole, ".\\target\\") {
        return None;
    }
    let words = chars::words(&whole);
    let ghost texts = chars::slice_views(words@);
    let mut i: usize = 0;
    assert(texts.skip(0) =~= texts);
    while i < words.len()
        invariant
            i <= words.len(),
            texts == chars::slice_views(words@),
            first_target(texts) == first_target(texts.skip(i as int)),
            texts == text::words(command@),
            binary_of(command@, project_dir@) == match first_target(texts) {
                Some(word) => Some(paths::joined(project_dir@, word)),
                None => None,
            },
        decreases words.len() - i,
    {
        assert(texts.skip(i as int)[0] == words@[i as int]@);
        if chars::contains(words[i], "target/") || chars::contains(words[i], "target\\") {
            return Some(paths::join(project_dir, chars::to_string(words[i]).as_str()));
        }
        assert(texts.skip(i as int).skip(1) =~= texts.skip(i + 1));
        i = i + 1;
    }
    None
}

/// A run of cargo.
#[derive(Debug)]
pub struct CargoBuild {
    pub cargo: String,
    pub args: Vec<String>,
}

/// The cargo of the toolchain of a project.
pub open spec fn managed_cargo(rules: Option<&KongRules>, store_root: Seq<char>) -> Option<
    Seq<char>,
> {
    match rules {
        Some(r) => match r.runtimes {
            Some(section) => match section.rust {
                Some(rust) => Some(
                    paths::joined(
                        paths::joined(paths::joined(store_root, rust.store_path@), "bin"@),
                        "cargo"@,
                    ),
                ),
                None => None,
            },
            None => None,
        },
        None => None,
    }
}

/// The cargo of the toolchain of a project.
pub fn cargo_of(rules: Option<&KongRules>, store_root: &str) -> (r: Option<String>)
    ensures
        text::opt_view(r) == managed_cargo(rules, store_root@),
{
    match rules {
        Some(r) => match &r.runtimes {
            Some(section) => match &section.rust {
                Some(rust) => {
                    let dir = paths::join(store_root, rust.store_path.as_str());
                    Some(paths::join(paths::join(dir.as_str(), "bin").as_str(), "cargo"))
                },
                None => None,
            },
            None => None,
        },
        None => None,
    }
}

/// The run of cargo that a command needs first: where the command runs a file that
/// cargo builds and that is not there. `binary_exists` says that it is;
/// `cargo_exists` says of the cargo of the toolchain that it is there, and any
/// other cargo stands in for it where it is not.
pub fn maybe_cargo_build(
    command: &str,
    project_dir: &str,
    binary_exists: bool,
    rules: Option<&KongRules>,
    store_root: &str,
    cargo_exists: bool,
) -> (r: Option<CargoBuild>)
    ensures
        match r {
            Some(b) => {
                &&& binary_of(command@, project_dir@) is Some
                &&& !binary_exists
                &&& b.cargo@ == (match managed_cargo(rules, store_root@) {
                    Some(cargo) if cargo_exists => cargo,
                    _ => "cargo"@,
                })
                &&& text::views(b.args@) == (if text::contains(command@, "release"@) {
                    seq!["build"@, "--release"@]
                } else {
                    seq!["build"@]
                })
            },
            None => binary_of(command@, project_dir@) is None || binary_exists,
        },
{
    if target_binary(command, project_dir).is_none() || binary_exists {
        return None;
    }
    let cargo = match cargo_of(rules, store_root) {
        Some(cargo) => if cargo_exists {
            cargo
        } else {
            String::from_str("cargo")
        },
        None => String::from_str("cargo"),
    };
    let mut args: Vec<String> = Vec::new();
    args.push(String::from_str("build"));
    let whole = chars::of(command);
    let release = chars::contains(&whole, "release");
    if release {
        args.push(String::from_str("--release"));
    }
    assert(text::views(args@) =~= if release {
        seq!["build"@, "--release"@]
    } else {
        seq!["build"@]
    });
    Some(CargoBuild { cargo, args })
}

// ── What can go wrong ───────────────────────────────────────────────────────
/// Why a script did not run to its end.
#[derive(Debug)]
pub enum RunError {
    /// There is no such script.
    NoSuchScript { script: String },
    /// It ended with a failure.
    Failed { script: String, code: i32 },
}

/// A number with its sign.
pub open spec fn signed(n: int) -> Seq<char> {
    if n < 0 {
        "-"@ + text::decimal((-n) as nat)
    } else {
        text::decimal(n as nat)
    }
}

fn append_signed(out: &mut String, n: i32)
    ensures
        final(out)@ == old(out)@ + signed(n as int),
{
    let n: i64 = n as i64;
    if n < 0 {
        out.append("-");
        let digits = chars::to_string(&chars::decimal((-n) as u128));
        out.append(digits.as_str());
    } else {
        let digits = chars::to_string(&chars::decimal(n as u128));
        out.append(digits.as_str());
    }
    assert(out@ =~= old(out)@ + signed(n as int));
}

impl RunError {
    /// What is said of it.
    pub fn message(&self) -> (r: String)
        ensures
            r@ == match self {
                RunError::NoSuchScript { script } => "script '"@ + script@
                    + "' not found in kong.rules or package.json"@,
                RunError::Failed { script, code } => "script '"@ + script@ + "' exited with code "@
                    + signed(*code as int),
            },
    {
        let mut out = String::from_str("script '");
        match self {
            RunError::NoSuchScript { script } => {
                out.append(script.as_str());
                out.append("' not found in kong.rules or package.json");
            },
            RunError::Failed { script, code } => {
                out.append(script.as_str());
                out.append("' exited with code ");
                append_signed(&mut out, *code);
            },
        }
        out
    }
}

/// The command that a script runs with arguments behind it.
pub fn run(
    script: &str,
    args: &[String],
    rules: Option<&KongRules>,
    package_json: Option<&str>,
) -> (r: Result<String, RunError>)
    ensures
        match command_of(
            rule_scripts(rules),
            config::json_of(text::opt_str_view(package_json)),
            script@,
        ) {
            Some(command) => r matches Ok(full) && full@ == with_args(command, text::views(args@)),
            None => r matches Err(RunError::NoSuchScript { script: s }) && s@ == script@,
        },
{
    match resolve_script(script, rules, package_json) {
        Some(command) => Ok(full_command(command.as_str(), args)),
        None => Err(RunError::NoSuchScript { script: String::from_str(script) }),
    }
}

/// What comes of a script that ended with a code: nothing stands for one that was
/// stopped by a signal.
pub fn outcome(script: &str, success: bool, code: Option<i32>) -> (r: Result<(), RunError>)
    ensures
        match r {
            Ok(()) => success,
            Err(RunError::Failed { script: s, code: c }) => {
                &&& !success
                &&& s@ == script@
                &&& c == (match code {
                    Some(n) => n,
                    None => 1,
                })
            },
            Err(RunError::NoSuchScript { .. }) => false,
        },
{
    if success {
        Ok(())
    } else {
        let code: i32 = match code {
            Some(n) => n,
            None => 1,
        };
        Err(RunError::Failed { script: String::from_str(script), code })
    }
}

} // verus!
