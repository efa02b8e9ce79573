//! Linking packages into a project, and removing what was linked.
use vstd::prelude::*;

use crate::actions;
use crate::actions::ActionModel;
use crate::actions::FsAction;
use crate::paths;
use crate::text;

verus! {

/// An entry of a package in the store, and whether the project has it.
#[derive(Debug)]
pub struct TreeEntry {
    /// The path in the package.
    pub path: String,
    pub is_dir: bool,
    /// Something is there in the project.
    pub exists: bool,
}

/// The steps for one entry of a package. What is there is left as it is.
pub open spec fn entry_steps(e: TreeEntry, src: Seq<char>, dst: Seq<char>) -> Seq<ActionModel> {
    let path = paths::joined(dst, e.path@);
    if e.exists {
        Seq::empty()
    } else if e.is_dir {
        seq![ActionModel::CreateDir(path)]
    } else {
        seq![
            ActionModel::CreateDir(paths::parent_part(path)),
            ActionModel::LinkFile(path, paths::joined(src, e.path@)),
        ]
    }
}

/// The steps for the entries of a package.
pub open spec fn entries_steps(
    entries: Seq<TreeEntry>,
    src: Seq<char>,
    dst: Seq<char>,
) -> Seq<ActionModel>
    decreases entries.len(),
{
    if entries.len() == 0 {
        Seq::empty()
    } else {
        entries_steps(entries.drop_last(), src, dst) + entry_steps(entries.last(), src, dst)
    }
}

/// The steps that link a package, with the entries of its directory in the store,
/// a directory before what is in it.
pub open spec fn link_steps(
    entries: Seq<TreeEntry>,
    src: Seq<char>,
    dst: Seq<char>,
) -> Seq<ActionModel> {
    seq![ActionModel::CreateDir(dst)] + entries_steps(entries, src, dst)
}

/// Adds the steps for one entry of a package.
pub fn link_entry(steps: &mut Vec<FsAction>, e: &TreeEntry, src: &str, dst: &str)
    ensures
        actions::action_views(final(steps)@) == actions::action_views(old(steps)@) + entry_steps(
            *e,
            src@,
            dst@,
        ),
{
    if !e.exists {
        let path = paths::join(dst, e.path.as_str());
        if e.is_dir {
            actions::add_step(steps, FsAction::CreateDir { path });
        } else {
            let parent = paths::parent_of(path.as_str());
            actions::add_step(steps, FsAction::CreateDir { path: parent });
            let source = paths::join(src, e.path.as_str());
            actions::add_step(steps, FsAction::LinkFile { path, source });
        }
    }
    assert(actions::action_views(steps@) =~= actions::action_views(old(steps)@) + entry_steps(
        *e,
        src@,
        dst@,
    ));
}

/// The steps that link a package from the directory `src` into the directory
/// `dst`: real directories, with a hard link to each file.
pub fn link_package(src: &str, dst: &str, entries: &Vec<TreeEntry>) -> (r: Vec<FsAction>)
    ensures
        actions::action_views(r@) == link_steps(entries@, src@, dst@),
{
    let mut steps: Vec<FsAction> = Vec::new();
    steps.push(FsAction::CreateDir { path: String::from_str(dst) });
    let mut i: usize = 0;
    assert(actions::action_views(steps@) =~= link_steps(entries@.take(0), src@, dst@));
    while i < entries.len()
        invariant
            i <= entries.len(),
            actions::action_views(steps@) == link_steps(entries@.take(i as int), src@, dst@),
        decreases entries.len() - i,
    {
        proof {
            assert(entries@.take(i + 1).drop_last() =~= entries@.take(i as int));
            assert(entries@.take(i + 1).last() == entries@[i as int]);
        }
        link_entry(&mut steps, &entries[i], src, dst);
        i = i + 1;
        assert(actions::action_views(steps@) =~= link_steps(entries@.take(i as int), src@, dst@));
    }
    assert(entries@.take(i as int) =~= entries@);
    steps
}

/// Linking a package that is there in full makes its directory at most: linking
/// can be repeated.
pub proof fn linking_again_changes_nothing(
    entries: Seq<TreeEntry>,
    src: Seq<char>,
    dst: Seq<char>,
)
    requires
        forall|i: int| 0 <= i < entries.len() ==> (#[trigger] entries[i]).exists,
    ensures
        link_steps(entries, src, dst) == seq![ActionModel::CreateDir(dst)],
    decreases entries.len(),
{
    if entries.len() > 0 {
        assert forall|i: int| 0 <= i < entries.drop_last().len() implies (
        #[trigger] entries.drop_last()[i]).exists by {
            assert(entries.drop_last()[i] == entries[i]);
        }
        linking_again_changes_nothing(entries.drop_last(), src, dst);
        assert(entries.last().exists);
        assert(link_steps(entries, src, dst) =~= link_steps(entries.drop_last(), src, dst));
    }
}

/// Linking replaces and removes nothing: it makes directories and links only, each
/// where nothing is there.
pub proof fn linking_only_adds(entries: Seq<TreeEntry>, src: Seq<char>, dst: Seq<char>, i: int)
    requires
        0 <= i < link_steps(entries, src, dst).len(),
    ensures
        ({
            let a = link_steps(entries, src, dst)[i];
            a is CreateDir || exists|k: int|
                0 <= k < entries.len() && !(#[trigger] entries[k]).exists && a
                    == ActionModel::LinkFile(
                    paths::joined(dst, entries[k].path@),
                    paths::joined(src, entries[k].path@),
                )
        }),
    decreases entries.len(),
{
    if entries.len() > 0 {
        let front = link_steps(entries.drop_last(), src, dst);
        if i < front.len() {
            linking_only_adds(entries.drop_last(), src, dst, i);
            assert(link_steps(entries, src, dst)[i] == front[i]);
            if !(front[i] is CreateDir) {
                let k = choose|k: int|
                    0 <= k < entries.drop_last().len() && !(
                    #[trigger] entries.drop_last()[k]).exists && front[i]
                        == ActionModel::LinkFile(
                        paths::joined(dst, entries.drop_last()[k].path@),
                        paths::joined(src, entries.drop_last()[k].path@),
                    );
                assert(entries[k] == entries.drop_last()[k]);
            }
        } else {
            let last = entries[entries.len() - 1];
            assert(link_steps(entries, src, dst)[i] == entry_steps(last, src, dst)[i
                - front.len()]);
        }
    }
}

// ── Removing ────────────────────────────────────────────────────────────────
/// What an entry is, seen without following links.
#[derive(Debug, Clone, Copy, PartialEq, Eq, Structural)]
pub enum EntryKind {
    Dir,
    /// A symbolic link or a junction, whatever it points at.
    Link,
    File,
}

/// The step that removes an entry.
pub open spec fn removal(path: Seq<char>, kind: EntryKind) -> ActionModel {
    match kind {
        EntryKind::Dir => ActionModel::RemoveEmptyDir(path),
        EntryKind::Link => ActionModel::RemoveLink(path),
        EntryKind::File => ActionModel::RemoveFile(path),
    }
}

/// The steps that remove a directory, by its entries without those behind links:
/// what is in a directory comes before it.
pub fn remove_dir_all_robust(entries: &Vec<(String, EntryKind)>) -> (r: Vec<FsAction>)
    ensures
        r@.len() == entries@.len(),
        forall|i: int|
            0 <= i < r@.len() ==> (#[trigger] r@[i])@ == removal(entries@[i].0@, entries@[i].1),
{
    let mut steps: Vec<FsAction> = Vec::new();
    let mut i: usize = 0;
    while i < entries.len()
        invariant
            i <= entries.len(),
            steps@.len() == i,
            forall|k: int|
                0 <= k < i ==> (#[trigger] steps@[k])@ == removal(entries@[k].0@, entries@[k].1),
        decreases entries.len() - i,
    {
        let path = entries[i].0.clone();
        let step = match entries[i].1 {
            EntryKind::Dir => FsAction::RemoveEmptyDir { path },
            EntryKind::Link => FsAction::RemoveLink { path },
            EntryKind::File => FsAction::RemoveFile { path },
        };
        steps.push(step);
        i = i + 1;
    }
    steps
}

/// Which environments of a project are there.
#[derive(Debug)]
pub struct Environments {
    pub venv: bool,
    pub node_modules: bool,
    pub cargo_config: bool,
}

/// The steps that remove the environments of a project.
pub open spec fn clean_steps(dir: Seq<char>, keep_venv: bool, e: Environments) -> Seq<ActionModel> {
    (if e.venv && !keep_venv {
        seq![ActionModel::RemoveTree(paths::joined(dir, ".venv"@))]
    } else {
        Seq::empty()
    }) + (if e.node_modules {
        seq![ActionModel::RemoveTree(paths::joined(dir, "node_modules"@))]
    } else {
        Seq::empty()
    }) + (if e.cargo_config {
        seq![ActionModel::RemoveFile(paths::joined(paths::joined(dir, ".cargo"@), "config.toml"@))]
    } else {
        Seq::empty()
    })
}

/// The steps that remove the environments of a project. An environment of Python
/// that is about to be exchanged is kept.
pub fn clean_environments(project_dir: &str, keep_venv: bool, there: &Environments) -> (r: Vec<
    FsAction,
>)
    ensures
        actions::action_views(r@) == clean_steps(project_dir@, keep_venv, *there),
{
    let mut steps: Vec<FsAction> = Vec::new();
    if there.venv && !keep_venv {
        steps.push(FsAction::RemoveTree { path: paths::join(project_dir, ".venv") });
    }
    if there.node_modules {
        steps.push(FsAction::RemoveTree { path: paths::join(project_dir, "node_modules") });
    }
    if there.cargo_config {
        let dir = paths::join(project_dir, ".cargo");
        steps.push(FsAction::RemoveFile { path: paths::join(dir.as_str(), "config.toml") });
    }
    assert(actions::action_views(steps@) =~= clean_steps(project_dir@, keep_venv, *there));
    steps
}

/// Where nothing is there, there is nothing to remove: cleaning can be repeated.
pub proof fn cleaning_again_changes_nothing(dir: Seq<char>, keep_venv: bool, e: Environments)
    requires
        !e.venv || keep_venv,
        !e.node_modules,
        !e.cargo_config,
    ensures
        clean_steps(dir, keep_venv, e).len() == 0,
{
}

// ── The environments in the directory of a project ──────────────────────────
/// What is at the place of an environment in the directory of a project.
#[derive(Debug, Clone, Copy, PartialEq, Eq, Structural)]
pub enum JunctionState {
    Missing,
    /// A link to the environment.
    Right,
    /// A link to something else.
    Other,
    /// Something that is no link.
    Taken,
}

/// The steps that link one environment into the directory of a project. What is no
/// link there is left as it is.
pub open spec fn junction_steps(
    path: Seq<char>,
    target: Seq<char>,
    state: JunctionState,
) -> Seq<ActionModel> {
    match state {
        JunctionState::Missing => seq![ActionModel::LinkDir(path, target)],
        JunctionState::Other => seq![
            ActionModel::RemoveLink(path),
            ActionModel::LinkDir(path, target),
        ],
        JunctionState::Right => Seq::empty(),
        JunctionState::Taken => Seq::empty(),
    }
}

/// The environments that are linked into the directory of a project, by their names.
pub fn junction_names() -> (r: Vec<String>)
    ensures
        text::views(r@) == seq![".venv"@, "node_modules"@, ".cargo"@, ".rust-toolchain"@],
{
    let mut names: Vec<String> = Vec::new();
    names.push(String::from_str(".venv"));
    names.push(String::from_str("node_modules"));
    names.push(String::from_str(".cargo"));
    names.push(String::from_str(".rust-toolchain"));
    assert(text::views(names@) =~= seq![
        ".venv"@,
        "node_modules"@,
        ".cargo"@,
        ".rust-toolchain"@,
    ]);
    names
}

/// The steps that link an environment into the directory of a project, so that the
/// tools that look for it there find it.
pub fn create_junction(project_dir: &str, env_dir: &str, name: &str, state: JunctionState) -> (r:
    Vec<FsAction>)
    ensures
        actions::action_views(r@) == junction_steps(
            paths::joined(project_dir@, name@),
            paths::joined(env_dir@, name@),
            state,
        ),
{
    let path = paths::join(project_dir, name);
    let target = paths::join(env_dir, name);
    let mut steps: Vec<FsAction> = Vec::new();
    assert(actions::action_views(steps@) =~= Seq::empty());
    match state {
        JunctionState::Missing => {
            actions::add_step(&mut steps, FsAction::LinkDir { path, target });
        },
        JunctionState::Other => {
            actions::add_step(&mut steps, FsAction::RemoveLink { path: path.clone() });
            actions::add_step(&mut steps, FsAction::LinkDir { path, target });
        },
        JunctionState::Right => {},
        JunctionState::Taken => {},
    }
    assert(actions::action_views(steps@) =~= junction_steps(
        paths::joined(project_dir@, name@),
        paths::joined(env_dir@, name@),
        state,
    ));
    steps
}

/// The steps that remove the link to an environment from the directory of a
/// project. What is no link there is left as it is.
pub fn remove_junction(project_dir: &str, name: &str, state: JunctionState) -> (r: Vec<FsAction>)
    ensures
        actions::action_views(r@) == if state is Right || state is Other {
            seq![ActionModel::RemoveLink(paths::joined(project_dir@, name@))]
        } else {
            Seq::empty()
        },
{
    let mut steps: Vec<FsAction> = Vec::new();
    if state == JunctionState::Right || state == JunctionState::Other {
        steps.push(FsAction::RemoveLink { path: paths::join(project_dir, name) });
    }
    assert(actions::action_views(steps@) =~= if state is Right || state is Other {
        seq![ActionModel::RemoveLink(paths::joined(project_dir@, name@))]
    } else {
        Seq::empty()
    });
    steps
}

/// An environment that is linked stays as it is: linking it can be repeated.
pub proof fn junction_is_made_once(path: Seq<char>, target: Seq<char>)
    ensures
        junction_steps(path, target, JunctionState::Right).len() == 0,
{
}

/// Nothing but links is ever removed from the directory of a project.
pub proof fn junctions_remove_links_only(
    path: Seq<char>,
    target: Seq<char>,
    state: JunctionState,
    i: int,
)
    requires
        0 <= i < junction_steps(path, target, state).len(),
    ensures
        ({
            let a = junction_steps(path, target, state)[i];
            a == ActionModel::LinkDir(path, target) || (a == ActionModel::RemoveLink(path)
                && state is Other)
        }),
{
}

} // verus!
