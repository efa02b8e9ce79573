//! What is to be done to files and directories, as data: the library decides, and
//! what it decided is carried out elsewhere.
use vstd::prelude::*;

verus! {

/// One step on the file system.
#[derive(Debug)]
pub enum FsAction {
    /// Make a directory, and those above it, where they are missing.
    CreateDir { path: String },
    /// Write a file, in place of the one that is there.
    Write { path: String, content: String },
    /// Write a file where nothing is there yet.
    WriteNew { path: String, content: String, executable: bool },
    /// Make a symbolic link where nothing is there yet.
    Symlink { path: String, target: String },
    /// Make a hard link to a file, or a copy where that fails, where nothing is
    /// there yet.
    PlaceFile { path: String, source: String },
    /// Make a hard link to a file.
    LinkFile { path: String, source: String },
    /// Make a tree of directories with a hard link to each file of another tree.
    LinkTree { path: String, source: String },
    /// Copy a file.
    CopyFile { path: String, source: String },
    /// Copy an entry as it is, a link as a link, where it is there and nothing is at
    /// its new place yet.
    CopyEntry { path: String, source: String },
    /// Copy a tree, each of its entries as it is.
    CopyTree { path: String, source: String },
    /// Copy the directories and the files of a tree, in place of the files that are
    /// there; a link is copied as the file that it leads to.
    CopyFiles { path: String, source: String },
    /// Make a link to a directory: a symbolic link or a junction.
    LinkDir { path: String, target: String },
    /// Remove a link to a directory, and not what it points at.
    RemoveLink { path: String },
    /// Remove a directory with all that is in it.
    RemoveTree { path: String },
    /// Remove a directory that is empty.
    RemoveEmptyDir { path: String },
    /// Remove a file.
    RemoveFile { path: String },
    /// Let a file be executed.
    MakeExecutable { path: String },
}

/// One step on the file system.
pub enum ActionModel {
    CreateDir(Seq<char>),
    Write(Seq<char>, Seq<char>),
    WriteNew(Seq<char>, Seq<char>, bool),
    Symlink(Seq<char>, Seq<char>),
    PlaceFile(Seq<char>, Seq<char>),
    LinkFile(Seq<char>, Seq<char>),
    LinkTree(Seq<char>, Seq<char>),
    CopyFile(Seq<char>, Seq<char>),
    CopyEntry(Seq<char>, Seq<char>),
    CopyTree(Seq<char>, Seq<char>),
    CopyFiles(Seq<char>, Seq<char>),
    LinkDir(Seq<char>, Seq<char>),
    RemoveLink(Seq<char>),
    RemoveTree(Seq<char>),
    RemoveEmptyDir(Seq<char>),
    RemoveFile(Seq<char>),
    MakeExecutable(Seq<char>),
}

impl View for FsAction {
    type V = ActionModel;

    open spec fn view(&self) -> ActionModel {
        match self {
            FsAction::CreateDir { path } => ActionModel::CreateDir(path@),
            FsAction::Write { path, content } => ActionModel::Write(path@, content@),
            FsAction::WriteNew { path, content, executable } => ActionModel::WriteNew(
                path@,
                content@,
                *executable,
            ),
            FsAction::Symlink { path, target } => ActionModel::Symlink(path@, target@),
            FsAction::PlaceFile { path, source } => ActionModel::PlaceFile(path@, source@),
            FsAction::LinkFile { path, source } => ActionModel::LinkFile(path@, source@),
            FsAction::LinkTree { path, source } => ActionModel::LinkTree(path@, source@),
            FsAction::CopyFile { path, source } => ActionModel::CopyFile(path@, source@),
            FsAction::CopyEntry { path, source } => ActionModel::CopyEntry(path@, source@),
            FsAction::CopyTree { path, source } => ActionModel::CopyTree(path@, source@),
            FsAction::CopyFiles { path, source } => ActionModel::CopyFiles(path@, source@),
            FsAction::LinkDir { path, target } => ActionModel::LinkDir(path@, target@),
            FsAction::RemoveLink { path } => ActionModel::RemoveLink(path@),
            FsAction::RemoveTree { path } => ActionModel::RemoveTree(path@),
            FsAction::RemoveEmptyDir { path } => ActionModel::RemoveEmptyDir(path@),
            FsAction::RemoveFile { path } => ActionModel::RemoveFile(path@),
            FsAction::MakeExecutable { path } => ActionModel::MakeExecutable(path@),
        }
    }
}

/// The steps of a list.
pub open spec fn action_views(v: Seq<FsAction>) -> Seq<ActionModel> {
    Seq::new(v.len(), |i: int| v[i]@)
}

/// The path on which a step works.
pub open spec fn path_of(a: ActionModel) -> Seq<char> {
    match a {
        ActionModel::CreateDir(path) => path,
        ActionModel::Write(path, _) => path,
        ActionModel::WriteNew(path, _, _) => path,
        ActionModel::Symlink(path, _) => path,
        ActionModel::PlaceFile(path, _) => path,
        ActionModel::LinkFile(path, _) => path,
        ActionModel::LinkTree(path, _) => path,
        ActionModel::CopyFile(path, _) => path,
        ActionModel::CopyEntry(path, _) => path,
        ActionModel::CopyTree(path, _) => path,
        ActionModel::CopyFiles(path, _) => path,
        ActionModel::LinkDir(path, _) => path,
        ActionModel::RemoveLink(path) => path,
        ActionModel::RemoveTree(path) => path,
        ActionModel::RemoveEmptyDir(path) => path,
        ActionModel::RemoveFile(path) => path,
        ActionModel::MakeExecutable(path) => path,
    }
}

/// The steps make directories at most, and so change nothing where these are
/// there.
pub open spec fn only_directories(steps: Seq<ActionModel>) -> bool {
    forall|i: int| 0 <= i < steps.len() ==> (#[trigger] steps[i]) is CreateDir
}

/// Adds a step to a list.
pub fn add_step(list: &mut Vec<FsAction>, a: FsAction)
    ensures
        action_views(final(list)@) == action_views(old(list)@).push(a@),
{
    list.push(a);
    assert(action_views(list@) =~= action_views(old(list)@).push(a@));
}

} // verus!
