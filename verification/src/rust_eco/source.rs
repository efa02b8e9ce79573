//! The crates of a project as a local registry, and the toolchain in its
//! directory.
use vstd::prelude::*;

use crate::actions;
use crate::actions::ActionModel;
use crate::actions::FsAction;
use crate::chars;
use crate::config::KongRules;
use crate::config::PackageEntry;
use crate::config::RustSection;
use crate::paths;
use crate::text;

verus! {

// ── Crates ──────────────────────────────────────────────────────────────────
/// What is known of a crate before it is put into the registry.
#[derive(Debug)]
pub struct CrateFacts {
    /// The crate is in a directory of its own in its directory in the store.
    pub nested: bool,
    /// The registry has it.
    pub in_registry: bool,
    /// It has its checksum there.
    pub has_checksum: bool,
}

/// The name of a version of a crate.
pub open spec fn crate_name(p: PackageEntry) -> Seq<char> {
    p.name@ + "-"@ + p.version@
}

/// The content of the checksum file of a crate.
pub open spec fn checksum_text(hash: Option<Seq<char>>) -> Seq<char> {
    "{\"files\":{},\"package\":\""@ + (match hash {
        Some(h) => h,
        None => "unknown"@,
    }) + "\"}"@
}

/// The registry in the store.
pub open spec fn registry_path(store_root: Seq<char>) -> Seq<char> {
    paths::joined(paths::joined(store_root, "rust"@), "registry"@)
}

/// The steps that put a crate into the registry. What is there is left as it is.
pub open spec fn crate_steps(p: PackageEntry, store_root: Seq<char>, f: CrateFacts) -> Seq<
    ActionModel,
> {
    let stored = paths::joined(store_root, p.store_path@);
    let source = if f.nested {
        paths::joined(stored, crate_name(p))
    } else {
        stored
    };
    let entry = paths::joined(registry_path(store_root), crate_name(p));
    (if f.in_registry {
        Seq::empty()
    } else {
        seq![ActionModel::LinkTree(entry, source)]
    }) + (if f.has_checksum {
        Seq::empty()
    } else {
        seq![
            ActionModel::WriteNew(
                paths::joined(entry, ".cargo-checksum.json"@),
                checksum_text(text::opt_view(p.hash)),
                false,
            ),
        ]
    })
}

/// The steps that put crates into the registry.
pub open spec fn crates_steps(
    packages: Seq<PackageEntry>,
    store_root: Seq<char>,
    facts: Seq<CrateFacts>,
) -> Seq<ActionModel>
    decreases packages.len(),
{
    if packages.len() == 0 {
        Seq::empty()
    } else {
        crates_steps(packages.drop_last(), store_root, facts) + crate_steps(
            packages.last(),
            store_root,
            facts[packages.len() - 1],
        )
    }
}

/// The registry in the store.
pub fn registry_dir(store_root: &str) -> (r: String)
    ensures
        r@ == registry_path(store_root@),
{
    paths::join(paths::join(store_root, "rust").as_str(), "registry")
}

/// The content of the checksum file of a crate.
pub fn checksum_json(hash: Option<&String>) -> (r: String)
    ensures
        r@ == checksum_text(
            match hash {
                Some(h) => Some(h@),
                None => None,
            },
        ),
{
    let mut out = String::from_str("{\"files\":{},\"package\":\"");
    match hash {
        Some(h) => out.append(h.as_str()),
        None => out.append("unknown"),
    }
    out.append("\"}");
    out
}

fn add_crate(steps: &mut Vec<FsAction>, p: &PackageEntry, store_root: &str, f: &CrateFacts)
    ensures
        actions::action_views(final(steps)@) == actions::action_views(old(steps)@) + crate_steps(
            *p,
            store_root@,
            *f,
        ),
{
    let mut name = p.name.clone();
    name.append("-");
    name.append(p.version.as_str());
    let entry = paths::join(registry_dir(store_root).as_str(), name.as_str());
    if !f.in_registry {
        let stored = paths::join(store_root, p.store_path.as_str());
        let source = if f.nested {
            paths::join(stored.as_str(), name.as_str())
        } else {
            stored
        };
        actions::add_step(steps, FsAction::LinkTree { path: entry.clone(), source });
    }
    if !f.has_checksum {
        let path = paths::join(entry.as_str(), ".cargo-checksum.json");
        let content = checksum_json(p.hash.as_ref());
        actions::add_step(steps, FsAction::WriteNew { path, content, executable: false });
    }
    assert(actions::action_views(steps@) =~= actions::action_views(old(steps)@) + crate_steps(
        *p,
        store_root@,
        *f,
    ));
}

fn add_crates(
    steps: &mut Vec<FsAction>,
    packages: &Vec<PackageEntry>,
    store_root: &str,
    facts: &Vec<CrateFacts>,
)
    requires
        facts@.len() == packages@.len(),
    ensures
        actions::action_views(final(steps)@) == actions::action_views(old(steps)@) + crates_steps(
            packages@,
            store_root@,
            facts@,
        ),
{
    let ghost start = actions::action_views(steps@);
    let mut i: usize = 0;
    assert(start =~= start + crates_steps(packages@.take(0), store_root@, facts@));
    while i < packages.len()
        invariant
            i <= packages.len(),
            facts@.len() == packages@.len(),
            start == actions::action_views(old(steps)@),
            actions::action_views(steps@) == start + crates_steps(
                packages@.take(i as int),
                store_root@,
                facts@,
            ),
        decreases packages.len() - i,
    {
        proof {
            assert(packages@.take(i + 1).drop_last() =~= packages@.take(i as int));
            assert(packages@.take(i + 1).last() == packages@[i as int]);
        }
        add_crate(steps, &packages[i], store_root, &facts[i]);
        i = i + 1;
        assert(actions::action_views(steps@) =~= start + crates_steps(
            packages@.take(i as int),
            store_root@,
            facts@,
        ));
    }
    assert(packages@.take(i as int) =~= packages@);
}

// ── The configuration ───────────────────────────────────────────────────────
/// A path with slashes only.
pub open spec fn slashed(path: Seq<char>) -> Seq<char> {
    text::replace_char(path, '\\', "/"@)
}

/// The content of `.cargo/config.toml`: crates.io is replaced by the registry, and
/// the compiler is that of the toolchain, where there is one.
pub open spec fn config_text(registry: Seq<char>, rustc: Option<Seq<char>>) -> Seq<char> {
    "[source.crates-io]\nreplace-with = \"kong-local\"\n\n[source.kong-local]\ndirectory = \""@
        + slashed(registry) + "\"\n"@ + (match rustc {
        Some(exe) => "\n[build]\nrustc = \""@ + slashed(exe) + "\"\n"@,
        None => Seq::empty(),
    })
}

fn with_slashes(path: &str) -> (r: String)
    ensures
        r@ == slashed(path@),
{
    let whole = chars::of(path);
    chars::to_string(&chars::replace_char(&whole, '\\', "/"))
}

/// The content of `.cargo/config.toml`.
pub fn cargo_config(registry: &str, rustc: Option<&str>) -> (r: String)
    ensures
        r@ == config_text(registry@, text::opt_str_view(rustc)),
{
    let mut out = String::from_str(
        "[source.crates-io]\nreplace-with = \"kong-local\"\n\n[source.kong-local]\ndirectory = \"",
    );
    out.append(with_slashes(registry).as_str());
    out.append("\"\n");
    if let Some(exe) = rustc {
        out.append("\n[build]\nrustc = \"");
        out.append(with_slashes(exe).as_str());
        out.append("\"\n");
    }
    assert(out@ =~= config_text(registry@, text::opt_str_view(rustc)));
    out
}

// ── The toolchain ───────────────────────────────────────────────────────────
/// The script that activates a toolchain in PowerShell.
pub const ACTIVATE_POWERSHELL: &'static str = "# Activate kong-managed Rust toolchain\n$env:PATH = \"$PSScriptRoot\\bin;$env:PATH\"\nWrite-Host \"Rust toolchain activated: $(rustc --version)\"\n";

/// The script that activates a toolchain in shells.
pub const ACTIVATE_SHELL: &'static str = "#!/bin/sh\n# Activate kong-managed Rust toolchain\nexport PATH=\"$(dirname \"$0\")/bin:$PATH\"\necho \"Rust toolchain activated: $(rustc --version)\"\n";

/// The steps that link the executables of a toolchain.
pub open spec fn exe_steps(names: Seq<Seq<char>>, src: Seq<char>, dst: Seq<char>) -> Seq<
    ActionModel,
> {
    Seq::new(
        names.len(),
        |i: int|
            ActionModel::PlaceFile(paths::joined(dst, names[i]), paths::joined(src, names[i])),
    )
}

/// The steps that put a toolchain into a project, with the names of its
/// executables, if it has a directory for them.
pub open spec fn toolchain_steps(
    project_dir: Seq<char>,
    toolchain: Seq<char>,
    names: Option<Seq<Seq<char>>>,
) -> Seq<ActionModel> {
    let dest = paths::joined(project_dir, ".rust-toolchain"@);
    match names {
        None => seq![ActionModel::CreateDir(dest)],
        Some(list) => {
            let bin = paths::joined(dest, "bin"@);
            seq![ActionModel::CreateDir(dest), ActionModel::CreateDir(bin)] + exe_steps(
                list,
                paths::joined(toolchain, "bin"@),
                bin,
            ) + seq![
                ActionModel::WriteNew(
                    paths::joined(dest, "activate.ps1"@),
                    ACTIVATE_POWERSHELL@,
                    false,
                ),
                ActionModel::WriteNew(paths::joined(dest, "activate.sh"@), ACTIVATE_SHELL@, false),
            ]
        },
    }
}

/// The names of a list that may be missing.
pub open spec fn opt_views(names: Option<&Vec<String>>) -> Option<Seq<Seq<char>>> {
    match names {
        Some(v) => Some(text::views(v@)),
        None => None,
    }
}

/// The steps that put a toolchain into a project.
pub fn create_toolchain_links(
    project_dir: &str,
    toolchain: &str,
    names: Option<&Vec<String>>,
) -> (r: Vec<FsAction>)
    ensures
        actions::action_views(r@) == toolchain_steps(project_dir@, toolchain@, opt_views(names)),
{
    let dest = paths::join(project_dir, ".rust-toolchain");
    let mut steps: Vec<FsAction> = Vec::new();
    assert(actions::action_views(steps@) =~= Seq::empty());
    actions::add_step(&mut steps, FsAction::CreateDir { path: dest.clone() });
    if let Some(list) = names {
        let bin = paths::join(dest.as_str(), "bin");
        let src = paths::join(toolchain, "bin");
        actions::add_step(&mut steps, FsAction::CreateDir { path: bin.clone() });
        let ghost start = actions::action_views(steps@);
        let ghost all = exe_steps(text::views(list@), src@, bin@);
        let mut i: usize = 0;
        assert(start =~= start + all.take(0));
        while i < list.len()
            invariant
                i <= list.len(),
                all == exe_steps(text::views(list@), src@, bin@),
                actions::action_views(steps@) == start + all.take(i as int),
            decreases list.len() - i,
        {
            assert(all[i as int] == ActionModel::PlaceFile(
                paths::joined(bin@, list@[i as int]@),
                paths::joined(src@, list@[i as int]@),
            ));
            let path = paths::join(bin.as_str(), list[i].as_str());
            let source = paths::join(src.as_str(), list[i].as_str());
            actions::add_step(&mut steps, FsAction::PlaceFile { path, source });
            i = i + 1;
            assert(actions::action_views(steps@) =~= start + all.take(i as int));
        }
        assert(all.take(i as int) =~= all);
        let path = paths::join(dest.as_str(), "activate.ps1");
        let content = String::from_str(ACTIVATE_POWERSHELL);
        actions::add_step(&mut steps, FsAction::WriteNew { path, content, executable: false });
        let path = paths::join(dest.as_str(), "activate.sh");
        let content = String::from_str(ACTIVATE_SHELL);
        actions::add_step(&mut steps, FsAction::WriteNew { path, content, executable: false });
    }
    assert(actions::action_views(steps@) =~= toolchain_steps(
        project_dir@,
        toolchain@,
        opt_views(names),
    ));
    steps
}

/// The directory of the toolchain that the rules name, in the store.
pub open spec fn toolchain_dir(rules: KongRules, store_root: Seq<char>) -> Option<Seq<char>> {
    match rules.runtimes {
        Some(section) => match section.rust {
            Some(runtime) => Some(paths::joined(store_root, runtime.store_path@)),
            None => None,
        },
        None => None,
    }
}

/// The directory of the toolchain that the rules name, in the store.
pub fn rust_toolchain_dir(store_root: &str, rules: &KongRules) -> (r: Option<String>)
    ensures
        text::opt_view(r) == toolchain_dir(*rules, store_root@),
{
    match &rules.runtimes {
        Some(section) => match &section.rust {
            Some(runtime) => Some(paths::join(store_root, runtime.store_path.as_str())),
            None => None,
        },
        None => None,
    }
}

/// The steps that let cargo take the crates of a project from the registry in the
/// store. `rustc` is the compiler of the toolchain, where there is one. The
/// toolchain itself is put into the project by [`create_toolchain_links`].
pub fn configure_source_replacement(
    project_dir: &str,
    rust: &RustSection,
    store_root: &str,
    facts: &Vec<CrateFacts>,
    rustc: Option<&str>,
) -> (r: Vec<FsAction>)
    requires
        facts@.len() == rust.packages@.len(),
    ensures
        ({
            let cargo_dir = paths::joined(project_dir@, ".cargo"@);
            let registry = registry_path(store_root@);
            actions::action_views(r@) == seq![
                ActionModel::CreateDir(cargo_dir),
                ActionModel::CreateDir(registry),
            ] + crates_steps(rust.packages@, store_root@, facts@) + seq![
                ActionModel::Write(
                    paths::joined(cargo_dir, "config.toml"@),
                    config_text(registry, text::opt_str_view(rustc)),
                ),
            ]
        }),
{
    let cargo_dir = paths::join(project_dir, ".cargo");
    let registry = registry_dir(store_root);
    let mut steps: Vec<FsAction> = Vec::new();
    assert(actions::action_views(steps@) =~= Seq::empty());
    actions::add_step(&mut steps, FsAction::CreateDir { path: cargo_dir.clone() });
    actions::add_step(&mut steps, FsAction::CreateDir { path: registry.clone() });
    assert(actions::action_views(steps@) =~= seq![
        ActionModel::CreateDir(cargo_dir@),
        ActionModel::CreateDir(registry@),
    ]);
    add_crates(&mut steps, &rust.packages, store_root, facts);
    let path = paths::join(cargo_dir.as_str(), "config.toml");
    let content = cargo_config(registry.as_str(), rustc);
    actions::add_step(&mut steps, FsAction::Write { path, content });
    assert(actions::action_views(steps@) =~= seq![
        ActionModel::CreateDir(cargo_dir@),
        ActionModel::CreateDir(registry@),
    ] + crates_steps(rust.packages@, store_root@, facts@) + seq![
        ActionModel::Write(
            paths::joined(cargo_dir@, "config.toml"@),
            config_text(registry@, text::opt_str_view(rustc)),
        ),
    ]);
    steps
}

/// A crate that is in the registry with its checksum stays as it is: the registry
/// can be filled again.
pub proof fn registered_crate_stays(p: PackageEntry, store_root: Seq<char>, f: CrateFacts)
    requires
        f.in_registry,
        f.has_checksum,
    ensures
        crate_steps(p, store_root, f).len() == 0,
{
}

} // verus!
