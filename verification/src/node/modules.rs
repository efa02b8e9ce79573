//! The `node_modules` directory of a project: flat, with the packages of the store
//! as trees of hard links and local packages as links to their directories.
use vstd::prelude::*;

use crate::actions;
use crate::actions::ActionModel;
use crate::actions::FsAction;
use crate::chars;
use crate::config;
use crate::config::LocalPackageEntry;
use crate::config::NodeSection;
use crate::config::PackageEntry;
use crate::doc;
use crate::doc::Doc;
use crate::doc::DocModel;
use crate::paths;
use crate::text;

verus! {

// ── Packages in the store ───────────────────────────────────────────────────
/// An entry at the top of a package in the store.
#[derive(Debug)]
pub struct RootEntry {
    pub name: String,
    pub is_dir: bool,
    /// It is a directory with a `package.json` in it.
    pub has_manifest: bool,
}

/// What is at the top of a package in the store.
#[derive(Debug)]
pub struct StoredLayout {
    /// There is a directory `package`.
    pub package_dir: bool,
    /// There is a `package.json`.
    pub manifest: bool,
    pub entries: Vec<RootEntry>,
}

/// The entries that came with the package.
pub open spec fn payload(entries: Seq<RootEntry>) -> Seq<RootEntry> {
    entries.filter(|e: RootEntry| !".kong"@.is_prefix_of(e.name@))
}

/// The directory that holds the `package.json` of a package in the store:
/// `package`; otherwise the only entry, where that is a directory with a
/// `package.json` and the store has none above it; otherwise the package itself.
pub open spec fn content_root(src: Seq<char>, l: StoredLayout) -> Seq<char> {
    let own = payload(l.entries@);
    if l.package_dir {
        paths::joined(src, "package"@)
    } else if !l.manifest && own.len() == 1 && own[0].is_dir && own[0].has_manifest {
        paths::joined(src, own[0].name@)
    } else {
        src
    }
}

/// The position of the only entry that came with the package, if there is one.
fn only_entry(entries: &Vec<RootEntry>) -> (r: Option<usize>)
    ensures
        match r {
            Some(i) => i < entries.len() && payload(entries@) == seq![entries@[i as int]],
            None => payload(entries@).len() != 1,
        },
{
    let mut found: Option<usize> = None;
    let mut count: usize = 0;
    let mut i: usize = 0;
    proof {
        reveal(Seq::filter);
        assert(entries@.take(0) =~= Seq::empty());
    }
    while i < entries.len()
        invariant
            i <= entries.len(),
            count <= i,
            count == payload(entries@.take(i as int)).len(),
            match found {
                Some(k) => k < i && payload(entries@.take(i as int)).last() == entries@[k as int]
                    && count >= 1,
                None => count == 0,
            },
        decreases entries.len() - i,
    {
        proof {
            reveal(Seq::filter);
            assert(entries@.take(i + 1).drop_last() =~= entries@.take(i as int));
            assert(entries@.take(i + 1).last() == entries@[i as int]);
        }
        let name = chars::of(entries[i].name.as_str());
        if !chars::starts_with(&name, ".kong") {
            found = Some(i);
            count = count + 1;
        }
        i = i + 1;
    }
    assert(entries@.take(i as int) =~= entries@);
    if count == 1 {
        proof {
            let own = payload(entries@);
            assert(own =~= seq![own.last()]);
        }
        found
    } else {
        None
    }
}

/// The directory that holds the `package.json` of a package in the store.
pub fn package_content_root(src: &str, layout: &StoredLayout) -> (r: String)
    ensures
        r@ == content_root(src@, *layout),
{
    if layout.package_dir {
        return paths::join(src, "package");
    }
    if !layout.manifest {
        if let Some(i) = only_entry(&layout.entries) {
            let e = &layout.entries[i];
            if e.is_dir && e.has_manifest {
                return paths::join(src, e.name.as_str());
            }
        }
    }
    String::from_str(src)
}

/// What is at the place of a package in `node_modules`.
#[derive(Debug, Clone, Copy, PartialEq, Eq, Structural)]
pub enum PlaceState {
    Missing,
    /// A link to the directory that it should point at.
    RightLink,
    /// A link to another directory.
    OtherLink,
    /// Something that is no link.
    Present,
}

/// What is known of a package of the store before it is linked.
#[derive(Debug)]
pub struct PackageFacts {
    pub in_store: bool,
    pub layout: StoredLayout,
    /// What is at its place before anything is linked.
    pub place: PlaceState,
}

/// The steps that link a package of the store. One that is not in the store, or
/// that is linked already, is left as it is; a link that is in the way is removed,
/// and not what it points at.
pub open spec fn package_steps(
    nm: Seq<char>,
    p: PackageEntry,
    store_root: Seq<char>,
    f: PackageFacts,
    place: PlaceState,
) -> Seq<ActionModel> {
    let top = paths::joined(nm, p.name@);
    let source = content_root(paths::joined(store_root, p.store_path@), f.layout);
    if !f.in_store || place is Present {
        Seq::empty()
    } else {
        (if place is Missing {
            Seq::empty()
        } else {
            seq![ActionModel::RemoveLink(top)]
        }) + (if p.name@.contains('/') {
            seq![ActionModel::CreateDir(paths::parent_part(top))]
        } else {
            Seq::empty()
        }) + seq![ActionModel::LinkTree(top, source)]
    }
}

/// Adds the steps that link a package of the store.
fn link_stored_package(
    steps: &mut Vec<FsAction>,
    nm: &str,
    p: &PackageEntry,
    store_root: &str,
    f: &PackageFacts,
    place: PlaceState,
)
    ensures
        actions::action_views(final(steps)@) == actions::action_views(old(steps)@) + package_steps(
            nm@,
            *p,
            store_root@,
            *f,
            place,
        ),
{
    if f.in_store && place != PlaceState::Present {
        let top = paths::join(nm, p.name.as_str());
        if place != PlaceState::Missing {
            actions::add_step(steps, FsAction::RemoveLink { path: top.clone() });
        }
        let name = chars::of(p.name.as_str());
        if chars::member(&name, '/') {
            let parent = paths::parent_of(top.as_str());
            actions::add_step(steps, FsAction::CreateDir { path: parent });
        }
        let stored = paths::join(store_root, p.store_path.as_str());
        let source = package_content_root(stored.as_str(), &f.layout);
        actions::add_step(steps, FsAction::LinkTree { path: top, source });
    }
    assert(actions::action_views(steps@) =~= actions::action_views(old(steps)@) + package_steps(
        nm@,
        *p,
        store_root@,
        *f,
        place,
    ));
}

// ── Local packages ──────────────────────────────────────────────────────────
/// What is known of a local package before it is linked.
#[derive(Debug)]
pub struct LocalFacts {
    /// Its directory is there.
    pub target_is_dir: bool,
    /// What is at its place before anything is linked.
    pub place: PlaceState,
}

/// A local package whose directory is not there.
#[derive(Debug)]
pub struct MissingLocal {
    pub name: String,
    pub path: String,
    pub project_dir: String,
    pub target: String,
}

/// What a missing local package is answered with.
pub open spec fn missing_text(
    name: Seq<char>,
    path: Seq<char>,
    project_dir: Seq<char>,
    target: Seq<char>,
) -> Seq<char> {
    "local Node dependency '"@ + name
        + "' points at a directory that does not exist:\n  declared path : "@ + path
        + " (kong.rules node.local, relative to "@ + project_dir + ")\n  resolved to   : "@
        + target
        + "\nRestore the directory or fix the dependency in package.json, then re-run `kong rules`."@
}

impl MissingLocal {
    /// What is said of it.
    pub fn message(&self) -> (r: String)
        ensures
            r@ == missing_text(self.name@, self.path@, self.project_dir@, self.target@),
    {
        let mut out = String::from_str("local Node dependency '");
        out.append(self.name.as_str());
        out.append("' points at a directory that does not exist:\n  declared path : ");
        out.append(self.path.as_str());
        out.append(" (kong.rules node.local, relative to ");
        out.append(self.project_dir.as_str());
        out.append(")\n  resolved to   : ");
        out.append(self.target.as_str());
        out.append(
            "\nRestore the directory or fix the dependency in package.json, then re-run `kong rules`.",
        );
        out
    }
}

/// The steps that link a local package. A link to its directory is kept; a link to
/// another directory, and a package of the store, make way.
pub open spec fn local_steps(
    nm: Seq<char>,
    project_dir: Seq<char>,
    l: LocalPackageEntry,
    place: PlaceState,
) -> Seq<ActionModel> {
    let path = paths::joined(nm, l.name@);
    let link = ActionModel::LinkDir(path, config::local_dir(l.path@, project_dir));
    seq![ActionModel::CreateDir(paths::parent_part(path))] + match place {
        PlaceState::Missing => seq![link],
        PlaceState::RightLink => Seq::empty(),
        PlaceState::OtherLink => seq![ActionModel::RemoveLink(path), link],
        PlaceState::Present => seq![ActionModel::RemoveTree(path), link],
    }
}

/// The last of some local packages that has this name.
pub open spec fn last_of_name(local: Seq<LocalPackageEntry>, name: Seq<char>) -> Option<
    LocalPackageEntry,
>
    decreases local.len(),
{
    if local.len() == 0 {
        None
    } else if local.last().name@ == name {
        Some(local.last())
    } else {
        last_of_name(local.drop_last(), name)
    }
}

/// What is at the place of a local package when those before it are linked: a link
/// to the directory of the last one of its name, if there is one.
pub open spec fn local_place(
    before: Seq<LocalPackageEntry>,
    l: LocalPackageEntry,
    project_dir: Seq<char>,
    place: PlaceState,
) -> PlaceState {
    match last_of_name(before, l.name@) {
        Some(other) => if config::local_dir(other.path@, project_dir) == config::local_dir(
            l.path@,
            project_dir,
        ) {
            PlaceState::RightLink
        } else {
            PlaceState::OtherLink
        },
        None => place,
    }
}

/// The steps that link local packages, up to the first whose directory is missing.
pub open spec fn locals_steps(
    nm: Seq<char>,
    project_dir: Seq<char>,
    local: Seq<LocalPackageEntry>,
    facts: Seq<LocalFacts>,
) -> Seq<ActionModel>
    decreases local.len(),
{
    if local.len() == 0 {
        Seq::empty()
    } else {
        let front = locals_steps(nm, project_dir, local.drop_last(), facts);
        if all_there(facts.take(local.len() as int)) {
            front + local_steps(
                nm,
                project_dir,
                local.last(),
                local_place(
                    local.drop_last(),
                    local.last(),
                    project_dir,
                    facts[local.len() - 1].place,
                ),
            )
        } else {
            front
        }
    }
}

/// The directories of all these local packages are there.
pub open spec fn all_there(facts: Seq<LocalFacts>) -> bool {
    forall|i: int| 0 <= i < facts.len() ==> (#[trigger] facts[i]).target_is_dir
}

/// The steps that link local packages, and the package at which they stop, if its
/// directory is missing.
#[derive(Debug)]
pub struct LocalPlan {
    pub steps: Vec<FsAction>,
    pub missing: Option<MissingLocal>,
}

/// Adds the steps that link one local package.
fn link_local_package(
    steps: &mut Vec<FsAction>,
    nm: &str,
    project_dir: &str,
    l: &LocalPackageEntry,
    place: PlaceState,
)
    ensures
        actions::action_views(final(steps)@) == actions::action_views(old(steps)@) + local_steps(
            nm@,
            project_dir@,
            *l,
            place,
        ),
{
    let path = paths::join(nm, l.name.as_str());
    actions::add_step(steps, FsAction::CreateDir { path: paths::parent_of(path.as_str()) });
    let target = l.resolve(project_dir);
    match place {
        PlaceState::Missing => {
            actions::add_step(steps, FsAction::LinkDir { path, target });
        },
        PlaceState::RightLink => {},
        PlaceState::OtherLink => {
            actions::add_step(steps, FsAction::RemoveLink { path: path.clone() });
            actions::add_step(steps, FsAction::LinkDir { path, target });
        },
        PlaceState::Present => {
            actions::add_step(steps, FsAction::RemoveTree { path: path.clone() });
            actions::add_step(steps, FsAction::LinkDir { path, target });
        },
    }
    assert(actions::action_views(steps@) =~= actions::action_views(old(steps)@) + local_steps(
        nm@,
        project_dir@,
        *l,
        place,
    ));
}

fn find_last_of_name(local: &Vec<LocalPackageEntry>, n: usize, name: &str) -> (r: Option<usize>)
    requires
        n <= local@.len(),
    ensures
        match r {
            Some(i) => i < n && last_of_name(local@.take(n as int), name@) == Some(
                local@[i as int],
            ),
            None => last_of_name(local@.take(n as int), name@) is None,
        },
{
    let mut i: usize = n;
    while i > 0
        invariant
            i <= n <= local@.len(),
            last_of_name(local@.take(n as int), name@) == last_of_name(
                local@.take(i as int),
                name@,
            ),
        decreases i,
    {
        proof {
            assert(local@.take(i as int).last() == local@[i - 1]);
            assert(local@.take(i as int).drop_last() =~= local@.take(i - 1));
        }
        i = i - 1;
        if chars::str_same(local[i].name.as_str(), name) {
            return Some(i);
        }
    }
    None
}

fn place_of_local(
    local: &Vec<LocalPackageEntry>,
    i: usize,
    project_dir: &str,
    place: PlaceState,
) -> (r: PlaceState)
    requires
        i < local@.len(),
    ensures
        r == local_place(local@.take(i as int), local@[i as int], project_dir@, place),
{
    match find_last_of_name(local, i, local[i].name.as_str()) {
        Some(j) => {
            let before = local[j].resolve(project_dir);
            let now = local[i].resolve(project_dir);
            if chars::str_same(before.as_str(), now.as_str()) {
                PlaceState::RightLink
            } else {
                PlaceState::OtherLink
            }
        },
        None => place,
    }
}

/// The steps that link local packages into `nm`.
pub fn link_local_packages(
    nm: &str,
    project_dir: &str,
    local: &Vec<LocalPackageEntry>,
    facts: &Vec<LocalFacts>,
) -> (r: LocalPlan)
    requires
        facts@.len() == local@.len(),
    ensures
        actions::action_views(r.steps@) == locals_steps(nm@, project_dir@, local@, facts@),
        match r.missing {
            None => all_there(facts@),
            Some(m) => exists|i: int|
                {
                    &&& 0 <= i < local@.len()
                    &&& !(#[trigger] facts@[i]).target_is_dir
                    &&& all_there(facts@.take(i))
                    &&& m.name == local@[i].name
                    &&& m.path == local@[i].path
                    &&& m.project_dir@ == project_dir@
                    &&& m.target@ == config::local_dir(local@[i].path@, project_dir@)
                },
        },
{
    let mut steps: Vec<FsAction> = Vec::new();
    let mut i: usize = 0;
    assert(actions::action_views(steps@) =~= locals_steps(
        nm@,
        project_dir@,
        local@.take(0),
        facts@,
    ));
    while i < local.len()
        invariant
            i <= local.len(),
            facts@.len() == local@.len(),
            all_there(facts@.take(i as int)),
            actions::action_views(steps@) == locals_steps(
                nm@,
                project_dir@,
                local@.take(i as int),
                facts@,
            ),
        decreases local.len() - i,
    {
        let l = &local[i];
        proof {
            assert(local@.take(i + 1).drop_last() =~= local@.take(i as int));
            assert(local@.take(i + 1).last() == local@[i as int]);
        }
        if !facts[i].target_is_dir {
            proof {
                steps_stop(nm@, project_dir@, local@, facts@, i as int, local@.len() as int);
                assert(local@.take(local@.len() as int) =~= local@);
                assert(!facts@[i as int].target_is_dir);
            }
            let missing = MissingLocal {
                name: l.name.clone(),
                path: l.path.clone(),
                project_dir: String::from_str(project_dir),
                target: l.resolve(project_dir),
            };
            return LocalPlan { steps, missing: Some(missing) };
        }
        proof {
            assert forall|k: int| 0 <= k < facts@.take(i + 1).len() implies (
            #[trigger] facts@.take(i + 1)[k]).target_is_dir by {
                if k < i {
                    assert(facts@.take(i as int)[k].target_is_dir);
                }
            }
        }
        let place = place_of_local(local, i, project_dir, facts[i].place);
        link_local_package(&mut steps, nm, project_dir, l, place);
        i = i + 1;
    }
    assert(local@.take(i as int) =~= local@);
    assert(facts@.take(i as int) =~= facts@);
    LocalPlan { steps, missing: None }
}

proof fn steps_stop(
    nm: Seq<char>,
    project_dir: Seq<char>,
    local: Seq<LocalPackageEntry>,
    facts: Seq<LocalFacts>,
    i: int,
    n: int,
)
    requires
        facts.len() == local.len(),
        0 <= i < n <= local.len(),
        !facts[i].target_is_dir,
    ensures
        locals_steps(nm, project_dir, local.take(n), facts) == locals_steps(
            nm,
            project_dir,
            local.take(i),
            facts,
        ),
    decreases n - i,
{
    assert(!facts.take(n)[i].target_is_dir);
    assert(local.take(n).drop_last() =~= local.take(n - 1));
    if n - 1 > i {
        steps_stop(nm, project_dir, local, facts, i, n - 1);
    }
}

/// A local package that is linked stays as it is: linking it can be repeated.
pub proof fn relinking_changes_nothing(
    nm: Seq<char>,
    project_dir: Seq<char>,
    l: LocalPackageEntry,
)
    ensures
        actions::only_directories(local_steps(nm, project_dir, l, PlaceState::RightLink)),
{
}

/// Linking a local package works on its place in `node_modules` and on the
/// directory above that, and never on the directory of the package.
pub proof fn local_target_is_untouched(
    nm: Seq<char>,
    project_dir: Seq<char>,
    l: LocalPackageEntry,
    place: PlaceState,
    i: int,
)
    requires
        0 <= i < local_steps(nm, project_dir, l, place).len(),
    ensures
        ({
            let a = local_steps(nm, project_dir, l, place)[i];
            let path = paths::joined(nm, l.name@);
            if a is CreateDir {
                actions::path_of(a) == paths::parent_part(path)
            } else {
                actions::path_of(a) == path
            }
        }),
{
}

/// A local package is linked and never copied: its place is a link to its
/// directory, before or after the steps.
pub proof fn local_package_is_a_link(
    nm: Seq<char>,
    project_dir: Seq<char>,
    l: LocalPackageEntry,
    place: PlaceState,
)
    ensures
        place is RightLink || local_steps(nm, project_dir, l, place).last()
            == ActionModel::LinkDir(
            paths::joined(nm, l.name@),
            config::local_dir(l.path@, project_dir),
        ),
{
}

// ── The whole directory ─────────────────────────────────────────────────────
/// One of the packages has this name and is in the store.
pub open spec fn linked_before(
    packages: Seq<PackageEntry>,
    facts: Seq<PackageFacts>,
    name: Seq<char>,
) -> bool {
    exists|j: int|
        0 <= j < packages.len() && (#[trigger] packages[j]).name@ == name && facts[j].in_store
}

/// What is at the place of a package when the local packages and the packages
/// before it are linked: the first of its name has its place for good, and a local
/// package of its name has left a link.
pub open spec fn package_place(
    local: Seq<LocalPackageEntry>,
    before: Seq<PackageEntry>,
    facts: Seq<PackageFacts>,
    name: Seq<char>,
    place: PlaceState,
) -> PlaceState {
    if linked_before(before, facts, name) {
        PlaceState::Present
    } else if last_of_name(local, name) is Some {
        PlaceState::OtherLink
    } else {
        place
    }
}

/// The steps that link packages of the store behind local packages.
pub open spec fn packages_steps(
    nm: Seq<char>,
    local: Seq<LocalPackageEntry>,
    packages: Seq<PackageEntry>,
    store_root: Seq<char>,
    facts: Seq<PackageFacts>,
) -> Seq<ActionModel>
    decreases packages.len(),
{
    if packages.len() == 0 {
        Seq::empty()
    } else {
        let p = packages.last();
        let f = facts[packages.len() - 1];
        packages_steps(nm, local, packages.drop_last(), store_root, facts) + package_steps(
            nm,
            p,
            store_root,
            f,
            package_place(local, packages.drop_last(), facts, p.name@, f.place),
        )
    }
}

/// The `node_modules` directory of an environment.
pub open spec fn modules_path(env_dir: Seq<char>) -> Seq<char> {
    paths::joined(env_dir, "node_modules"@)
}

/// The directory of the commands of the packages.
pub open spec fn bin_path(env_dir: Seq<char>) -> Seq<char> {
    paths::joined(modules_path(env_dir), ".bin"@)
}

fn was_linked(
    packages: &Vec<PackageEntry>,
    facts: &Vec<PackageFacts>,
    n: usize,
    name: &str,
) -> (r: bool)
    requires
        n <= packages@.len(),
        facts@.len() == packages@.len(),
    ensures
        r == linked_before(packages@.take(n as int), facts@, name@),
{
    let mut i: usize = 0;
    while i < n
        invariant
            i <= n <= packages@.len(),
            facts@.len() == packages@.len(),
            forall|j: int|
                0 <= j < i ==> !((#[trigger] packages@.take(n as int)[j]).name@ == name@
                    && facts@[j].in_store),
        decreases n - i,
    {
        if facts[i].in_store && chars::str_same(packages[i].name.as_str(), name) {
            assert(packages@.take(n as int)[i as int].name@ == name@);
            return true;
        }
        i = i + 1;
    }
    false
}

fn add_packages(
    steps: &mut Vec<FsAction>,
    nm: &str,
    local: &Vec<LocalPackageEntry>,
    packages: &Vec<PackageEntry>,
    store_root: &str,
    facts: &Vec<PackageFacts>,
)
    requires
        facts@.len() == packages@.len(),
    ensures
        actions::action_views(final(steps)@) == actions::action_views(old(steps)@)
            + packages_steps(nm@, local@, packages@, store_root@, facts@),
{
    let ghost start = actions::action_views(steps@);
    let mut i: usize = 0;
    assert(start =~= start + packages_steps(nm@, local@, packages@.take(0), store_root@, facts@));
    while i < packages.len()
        invariant
            i <= packages.len(),
            facts@.len() == packages@.len(),
            start == actions::action_views(old(steps)@),
            actions::action_views(steps@) == start + packages_steps(
                nm@,
                local@,
                packages@.take(i as int),
                store_root@,
                facts@,
            ),
        decreases packages.len() - i,
    {
        proof {
            assert(packages@.take(i + 1).drop_last() =~= packages@.take(i as int));
            assert(packages@.take(i + 1).last() == packages@[i as int]);
            assert(local@.take(local@.len() as int) =~= local@);
        }
        let name = packages[i].name.as_str();
        let place = if was_linked(packages, facts, i, name) {
            PlaceState::Present
        } else if find_last_of_name(local, local.len(), name).is_some() {
            PlaceState::OtherLink
        } else {
            facts[i].place
        };
        link_stored_package(steps, nm, &packages[i], store_root, &facts[i], place);
        i = i + 1;
        assert(actions::action_views(steps@) =~= start + packages_steps(
            nm@,
            local@,
            packages@.take(i as int),
            store_root@,
            facts@,
        ));
    }
    assert(packages@.take(i as int) =~= packages@);
}

/// The steps that make the `node_modules` directory of an environment.
pub open spec fn modules_steps(
    env_dir: Seq<char>,
    project_dir: Seq<char>,
    local: Seq<LocalPackageEntry>,
    local_facts: Seq<LocalFacts>,
    packages: Seq<PackageEntry>,
    store_root: Seq<char>,
    package_facts: Seq<PackageFacts>,
) -> Seq<ActionModel> {
    let nm = modules_path(env_dir);
    seq![ActionModel::CreateDir(nm)] + locals_steps(nm, project_dir, local, local_facts) + (
    if all_there(local_facts) {
        packages_steps(nm, local, packages, store_root, package_facts) + seq![
            ActionModel::CreateDir(bin_path(env_dir)),
        ]
    } else {
        Seq::empty()
    })
}

/// The steps that make the `node_modules` directory of an environment: local
/// packages first, then those of the store, then the directory of commands. Where
/// the directory of a local package is missing, they stop before it.
pub fn build_node_modules(
    env_dir: &str,
    project_dir: &str,
    node: &NodeSection,
    store_root: &str,
    local_facts: &Vec<LocalFacts>,
    package_facts: &Vec<PackageFacts>,
) -> (r: LocalPlan)
    requires
        local_facts@.len() == node.local@.len(),
        package_facts@.len() == node.packages@.len(),
    ensures
        actions::action_views(r.steps@) == modules_steps(
            env_dir@,
            project_dir@,
            node.local@,
            local_facts@,
            node.packages@,
            store_root@,
            package_facts@,
        ),
        match r.missing {
            None => all_there(local_facts@),
            Some(m) => exists|i: int|
                {
                    &&& 0 <= i < node.local@.len()
                    &&& !(#[trigger] local_facts@[i]).target_is_dir
                    &&& all_there(local_facts@.take(i))
                    &&& m.name == node.local@[i].name
                    &&& m.path == node.local@[i].path
                    &&& m.project_dir@ == project_dir@
                    &&& m.target@ == config::local_dir(node.local@[i].path@, project_dir@)
                },
        },
{
    let nm = paths::join(env_dir, "node_modules");
    let mut steps: Vec<FsAction> = Vec::new();
    steps.push(FsAction::CreateDir { path: nm.clone() });
    let ghost start = actions::action_views(steps@);
    let mut plan = link_local_packages(nm.as_str(), project_dir, &node.local, local_facts);
    let ghost linked = actions::action_views(plan.steps@);
    let ghost all = steps@ + plan.steps@;
    steps.append(&mut plan.steps);
    assert(steps@ =~= all);
    assert(actions::action_views(steps@) =~= start + linked);
    assert(start =~= seq![ActionModel::CreateDir(modules_path(env_dir@))]);
    if plan.missing.is_none() {
        add_packages(
            &mut steps,
            nm.as_str(),
            &node.local,
            &node.packages,
            store_root,
            package_facts,
        );
        actions::add_step(&mut steps, FsAction::CreateDir { path: paths::join(nm.as_str(), ".bin") });
    } else {
        proof {
            if all_there(local_facts@) {
                assert(false);
            }
        }
    }
    LocalPlan { steps, missing: plan.missing }
}

/// A `node_modules` directory that is complete stays as it is: making it can be
/// repeated, as long as no two directories have to share a place.
pub proof fn rebuilding_changes_nothing(
    nm: Seq<char>,
    project_dir: Seq<char>,
    local: Seq<LocalPackageEntry>,
    local_facts: Seq<LocalFacts>,
    packages: Seq<PackageEntry>,
    store_root: Seq<char>,
    package_facts: Seq<PackageFacts>,
)
    requires
        local_facts.len() == local.len(),
        package_facts.len() == packages.len(),
        forall|i: int|
            0 <= i < local_facts.len() ==> (#[trigger] local_facts[i]).place is RightLink,
        forall|i: int|
            0 <= i < package_facts.len() ==> (#[trigger] package_facts[i]).place is Present,
        forall|i: int, j: int|
            0 <= i < j < local.len() && (#[trigger] local[i]).name@ == (#[trigger] local[j]).name@
                ==> config::local_dir(local[i].path@, project_dir) == config::local_dir(
                local[j].path@,
                project_dir,
            ),
        forall|i: int, j: int|
            0 <= i < local.len() && 0 <= j < packages.len() ==> (#[trigger] local[i]).name@ != (
            #[trigger] packages[j]).name@,
    ensures
        actions::only_directories(locals_steps(nm, project_dir, local, local_facts)),
        packages_steps(nm, local, packages, store_root, package_facts).len() == 0,
{
    locals_stay(nm, project_dir, local, local_facts);
    packages_stay(nm, local, packages, store_root, package_facts);
}

proof fn last_of_name_is_there(local: Seq<LocalPackageEntry>, name: Seq<char>)
    ensures
        match last_of_name(local, name) {
            Some(l) => l.name@ == name && exists|i: int|
                0 <= i < local.len() && #[trigger] local[i] == l,
            None => true,
        },
    decreases local.len(),
{
    if local.len() > 0 {
        last_of_name_is_there(local.drop_last(), name);
        if local.last().name@ == name {
            assert(local[local.len() - 1] == local.last());
        } else if last_of_name(local, name) is Some {
            let l = last_of_name(local, name)->0;
            let i = choose|i: int|
                0 <= i < local.drop_last().len() && #[trigger] local.drop_last()[i] == l;
            assert(local[i] == l);
        }
    }
}

proof fn locals_stay(
    nm: Seq<char>,
    project_dir: Seq<char>,
    local: Seq<LocalPackageEntry>,
    facts: Seq<LocalFacts>,
)
    requires
        local.len() <= facts.len(),
        forall|i: int| 0 <= i < facts.len() ==> (#[trigger] facts[i]).place is RightLink,
        forall|i: int, j: int|
            0 <= i < j < local.len() && (#[trigger] local[i]).name@ == (#[trigger] local[j]).name@
                ==> config::local_dir(local[i].path@, project_dir) == config::local_dir(
                local[j].path@,
                project_dir,
            ),
    ensures
        actions::only_directories(locals_steps(nm, project_dir, local, facts)),
    decreases local.len(),
{
    if local.len() > 0 {
        let front = local.drop_last();
        assert forall|i: int, j: int|
            0 <= i < j < front.len() && (#[trigger] front[i]).name@ == (
            #[trigger] front[j]).name@ implies config::local_dir(front[i].path@, project_dir)
            == config::local_dir(front[j].path@, project_dir) by {
            assert(local[i].name@ == local[j].name@);
        }
        locals_stay(nm, project_dir, front, facts);
        relinking_changes_nothing(nm, project_dir, local.last());
        assert(facts[local.len() - 1].place is RightLink);
        last_of_name_is_there(front, local.last().name@);
        if last_of_name(front, local.last().name@) is Some {
            let l = last_of_name(front, local.last().name@)->0;
            let i = choose|i: int| 0 <= i < front.len() && #[trigger] front[i] == l;
            assert(local[i].name@ == local[local.len() - 1].name@);
        }
    }
}

proof fn packages_stay(
    nm: Seq<char>,
    local: Seq<LocalPackageEntry>,
    packages: Seq<PackageEntry>,
    store_root: Seq<char>,
    facts: Seq<PackageFacts>,
)
    requires
        packages.len() <= facts.len(),
        forall|i: int| 0 <= i < facts.len() ==> (#[trigger] facts[i]).place is Present,
        forall|i: int, j: int|
            0 <= i < local.len() && 0 <= j < packages.len() ==> (#[trigger] local[i]).name@ != (
            #[trigger] packages[j]).name@,
    ensures
        packages_steps(nm, local, packages, store_root, facts).len() == 0,
    decreases packages.len(),
{
    if packages.len() > 0 {
        let front = packages.drop_last();
        assert forall|i: int, j: int| 0 <= i < local.len() && 0 <= j < front.len() implies (
        #[trigger] local[i]).name@ != (#[trigger] front[j]).name@ by {
            assert(local[i].name@ != packages[j].name@);
        }
        packages_stay(nm, local, front, store_root, facts);
        assert(facts[packages.len() - 1].place is Present);
        last_of_name_is_there(local, packages.last().name@);
        assert forall|i: int| 0 <= i < local.len() implies (#[trigger] local[i]).name@
            != packages.last().name@ by {
            assert(local[i].name@ != packages[packages.len() - 1].name@);
        }
    }
}

/// The first package of a name has the place of that name: one behind it adds
/// nothing.
pub proof fn first_of_a_name_is_linked(
    nm: Seq<char>,
    local: Seq<LocalPackageEntry>,
    packages: Seq<PackageEntry>,
    store_root: Seq<char>,
    facts: Seq<PackageFacts>,
    i: int,
)
    requires
        facts.len() == packages.len(),
        0 <= i < packages.len() - 1,
        packages[i].name@ == packages.last().name@,
        facts[i].in_store,
    ensures
        packages_steps(nm, local, packages, store_root, facts) == packages_steps(
            nm,
            local,
            packages.drop_last(),
            store_root,
            facts,
        ),
{
    assert(packages.drop_last()[i].name@ == packages.last().name@);
    assert(packages_steps(nm, local, packages, store_root, facts) =~= packages_steps(
        nm,
        local,
        packages.drop_last(),
        store_root,
        facts,
    ));
}

/// The packages whose commands are linked: those of the store, then the local ones.
pub open spec fn command_owners(node: NodeSection) -> Seq<Seq<char>> {
    Seq::new(node.packages@.len(), |i: int| node.packages@[i].name@) + Seq::new(
        node.local@.len(),
        |i: int| node.local@[i].name@,
    )
}

/// The packages whose commands are linked, in this order.
pub fn bin_owners(node: &NodeSection) -> (r: Vec<String>)
    ensures
        text::views(r@) == command_owners(*node),
{
    let ghost all = command_owners(*node);
    let mut names: Vec<String> = Vec::new();
    let mut i: usize = 0;
    while i < node.packages.len()
        invariant
            i <= node.packages.len(),
            all == command_owners(*node),
            text::views(names@) =~= all.take(i as int),
        decreases node.packages.len() - i,
    {
        let ghost before = names@;
        names.push(node.packages[i].name.clone());
        assert(text::views(names@) =~= text::views(before).push(node.packages@[i as int].name@));
        assert(all.take(i + 1) =~= all.take(i as int).push(node.packages@[i as int].name@));
        i = i + 1;
    }
    let mut k: usize = 0;
    while k < node.local.len()
        invariant
            k <= node.local.len(),
            all == command_owners(*node),
            text::views(names@) =~= all.take(node.packages@.len() + k),
        decreases node.local.len() - k,
    {
        let ghost before = names@;
        let ghost done = node.packages@.len() + k;
        names.push(node.local[k].name.clone());
        assert(text::views(names@) =~= text::views(before).push(node.local@[k as int].name@));
        assert(all.take(done + 1) =~= all.take(done).push(node.local@[k as int].name@));
        k = k + 1;
    }
    assert(all.take(node.packages@.len() + k) =~= all);
    names
}

// ── Commands ────────────────────────────────────────────────────────────────
/// The entries whose value is a text.
pub open spec fn text_entries(entries: Seq<(Seq<char>, DocModel)>) -> Seq<(Seq<char>, Seq<char>)>
    decreases entries.len(),
{
    if entries.len() == 0 {
        Seq::empty()
    } else {
        let front = text_entries(entries.drop_last());
        match entries.last().1 {
            DocModel::Text(value) => front.push((entries.last().0, value)),
            _ => front,
        }
    }
}

/// The commands that a package declares, with their files: one under the name of
/// the package, without its scope, or several under names of their own.
pub open spec fn declared_bins(name: Seq<char>, manifest: Option<DocModel>) -> Seq<
    (Seq<char>, Seq<char>),
> {
    match doc::get_opt(manifest, "bin"@) {
        Some(DocModel::Text(file)) => seq![(paths::last_part(name), file)],
        Some(DocModel::Table(entries)) => text_entries(entries),
        _ => Seq::empty(),
    }
}

/// The commands that a package declares in its manifest.
pub fn bins_of(name: &str, manifest: Option<&Doc>) -> (r: Vec<(String, String)>)
    ensures
        config::script_views(r@) == declared_bins(name@, doc::opt_doc(manifest)),
{
    let mut out: Vec<(String, String)> = Vec::new();
    let bin = doc::get_in(manifest, "bin");
    if let Some(file) = doc::text_of(bin) {
        let whole = chars::of(name);
        out.push((chars::to_string(paths::last_of(&whole)), file.clone()));
    } else if let Some(entries) = doc::table_of(bin) {
        let ghost models = doc::entry_models(entries@);
        let mut i: usize = 0;
        assert(config::script_views(out@) =~= text_entries(models.take(0)));
        while i < entries.len()
            invariant
                i <= entries.len(),
                models == doc::entry_models(entries@),
                config::script_views(out@) == text_entries(models.take(i as int)),
            decreases entries.len() - i,
        {
            let ghost before = out@;
            proof {
                assert(models.take(i + 1).drop_last() =~= models.take(i as int));
                assert(models.take(i + 1).last() == (
                    entries@[i as int].0@,
                    entries@[i as int].1@,
                ));
            }
            if let Some(value) = entries[i].1.as_str() {
                out.push((entries[i].0.clone(), value.clone()));
                assert(config::script_views(out@) =~= config::script_views(before).push(
                    (entries@[i as int].0@, value@),
                ));
            }
            i = i + 1;
        }
        assert(models.take(i as int) =~= models);
    }
    assert(config::script_views(out@) =~= declared_bins(name@, doc::opt_doc(manifest)));
    out
}

/// The commands that a package declares, by the content of its `package.json`
/// where it can be read.
pub fn bin_entries(name: &str, package_json: Option<&str>) -> (r: Vec<(String, String)>)
    ensures
        config::script_views(r@) == declared_bins(
            name@,
            config::json_of(text::opt_str_view(package_json)),
        ),
{
    let manifest = match package_json {
        Some(content) => doc::parse_json(content),
        None => None,
    };
    bins_of(name, manifest.as_ref())
}

/// The steps that let a command be run: none where it is there already or its file
/// is missing; otherwise a link to its file, or on Windows a wrapper.
pub open spec fn shim_steps(
    bin_dir: Seq<char>,
    top: Seq<char>,
    name: Seq<char>,
    file: Seq<char>,
    shim_exists: bool,
    target_exists: bool,
    windows: bool,
) -> Seq<ActionModel> {
    let target = paths::joined(top, file);
    if shim_exists || !target_exists {
        Seq::empty()
    } else if windows {
        seq![
            ActionModel::WriteNew(
                paths::joined(bin_dir, name + ".cmd"@),
                "@node \""@ + text::replace_char(target, '/', "\\"@) + "\" %*\r\n"@,
                false,
            ),
        ]
    } else {
        seq![
            ActionModel::MakeExecutable(target),
            ActionModel::Symlink(paths::joined(bin_dir, name), target),
        ]
    }
}

/// The steps that let a command of a package be run. `top` is the place of the
/// package, and `file` the file of the command in it.
pub fn create_shim(
    bin_dir: &str,
    top: &str,
    name: &str,
    file: &str,
    shim_exists: bool,
    target_exists: bool,
    windows: bool,
) -> (r: Vec<FsAction>)
    ensures
        actions::action_views(r@) == shim_steps(
            bin_dir@,
            top@,
            name@,
            file@,
            shim_exists,
            target_exists,
            windows,
        ),
{
    let mut steps: Vec<FsAction> = Vec::new();
    if !shim_exists && target_exists {
        let target = paths::join(top, file);
        if windows {
            let mut script = String::from_str(name);
            script.append(".cmd");
            let whole = chars::of(target.as_str());
            let native = chars::to_string(&chars::replace_char(&whole, '/', "\\"));
            let mut content = String::from_str("@node \"");
            content.append(native.as_str());
            content.append("\" %*\r\n");
            let path = paths::join(bin_dir, script.as_str());
            steps.push(FsAction::WriteNew { path, content, executable: false });
        } else {
            steps.push(FsAction::MakeExecutable { path: target.clone() });
            steps.push(FsAction::Symlink { path: paths::join(bin_dir, name), target });
        }
    }
    assert(actions::action_views(steps@) =~= shim_steps(
        bin_dir@,
        top@,
        name@,
        file@,
        shim_exists,
        target_exists,
        windows,
    ));
    steps
}

} // verus!
