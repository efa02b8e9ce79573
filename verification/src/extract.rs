//! Archives: which kind one is, and where each of its entries goes.
use vstd::prelude::*;

use crate::chars;
use crate::paths;
use crate::text;
use crate::unicode;

verus! {

// ── Kinds of archives ───────────────────────────────────────────────────────
/// The kinds of archives that can be extracted.
#[derive(Debug, Clone, Copy, PartialEq, Eq, Structural)]
pub enum ArchiveKind {
    /// A zip archive, such as a wheel.
    Zip,
    /// A compressed tar archive, such as a crate.
    TarGz,
}

/// An archive of another kind.
#[derive(Debug)]
pub struct UnsupportedArchive {
    pub path: String,
}

impl UnsupportedArchive {
    /// What is said of it.
    pub fn message(&self) -> (r: String)
        ensures
            r@ == "unsupported archive format: "@ + self.path@,
    {
        let mut out = String::from_str("unsupported archive format: ");
        out.append(self.path.as_str());
        out
    }
}

/// The kind of an archive by its name in small letters.
pub open spec fn kind_of(name: Seq<char>) -> Option<ArchiveKind> {
    if ".whl"@.is_suffix_of(name) || ".zip"@.is_suffix_of(name) {
        Some(ArchiveKind::Zip)
    } else if ".tgz"@.is_suffix_of(name) || ".tar.gz"@.is_suffix_of(name)
        || ".crate"@.is_suffix_of(name) {
        Some(ArchiveKind::TarGz)
    } else {
        None
    }
}

/// The kind of an archive by its name in small letters.
pub fn archive_kind(name: &str) -> (r: Option<ArchiveKind>)
    ensures
        r == kind_of(name@),
{
    let name = chars::of(name);
    if chars::ends_with(&name, ".whl") || chars::ends_with(&name, ".zip") {
        Some(ArchiveKind::Zip)
    } else if chars::ends_with(&name, ".tgz") || chars::ends_with(&name, ".tar.gz")
        || chars::ends_with(&name, ".crate") {
        Some(ArchiveKind::TarGz)
    } else {
        None
    }
}

/// The kind of the archive at a path, whatever the case of its name.
pub fn extract(archive_path: &str) -> (r: Result<ArchiveKind, UnsupportedArchive>)
    ensures
        match kind_of(unicode::lowercase(paths::last_part(archive_path@))) {
            Some(kind) => r == Ok::<ArchiveKind, UnsupportedArchive>(kind),
            None => r matches Err(e) && e.path@ == archive_path@,
        },
{
    let whole = chars::of(archive_path);
    let name = chars::to_string(paths::last_of(&whole));
    match archive_kind(unicode::str_to_lowercase(name.as_str()).as_str()) {
        Some(kind) => Ok(kind),
        None => Err(UnsupportedArchive { path: String::from_str(archive_path) }),
    }
}

// ── Paths of entries ────────────────────────────────────────────────────────
/// A part of a path says something: it is not empty, and is `.` only at the start.
pub open spec fn is_component(parts: Seq<Seq<char>>, i: int) -> bool {
    parts[i].len() > 0 && (parts[i] != "."@ || i == 0)
}

/// The parts of a path that say something, among the first `n`.
pub open spec fn named_parts(parts: Seq<Seq<char>>, n: int) -> Seq<Seq<char>>
    decreases n,
{
    if n <= 0 {
        Seq::empty()
    } else {
        let front = named_parts(parts, n - 1);
        if is_component(parts, n - 1) {
            front.push(parts[n - 1])
        } else {
            front
        }
    }
}

/// The components of a path: `/` for the root, and the parts between slashes.
pub open spec fn components(path: Seq<char>) -> Seq<Seq<char>> {
    let parts = text::split(path, '/');
    let named = named_parts(parts, parts.len() as int);
    if path.len() > 0 && path[0] == '/' {
        seq!["/"@] + named
    } else {
        named
    }
}

/// The components of a path.
pub fn path_components(path: &[char]) -> (r: Vec<String>)
    ensures
        text::views(r@) == components(path@),
{
    let parts = chars::split(path, '/');
    let ghost texts = chars::slice_views(parts@);
    let mut out: Vec<String> = Vec::new();
    let ghost mut start: Seq<Seq<char>> = Seq::empty();
    if path.len() > 0 && path[0] == '/' {
        out.push(String::from_str("/"));
        proof {
            start = seq!["/"@];
        }
    }
    let mut i: usize = 0;
    assert(text::views(out@) =~= start + named_parts(texts, 0));
    while i < parts.len()
        invariant
            i <= parts.len(),
            texts == chars::slice_views(parts@),
            text::views(out@) == start + named_parts(texts, i as int),
        decreases parts.len() - i,
    {
        let ghost before = out@;
        assert(texts[i as int] == parts@[i as int]@);
        if parts[i].len() > 0 && (!chars::is(parts[i], ".") || i == 0) {
            let part = chars::to_string(parts[i]);
            let ghost model = part@;
            out.push(part);
            assert(text::views(out@) =~= text::views(before).push(model));
            assert(text::views(out@) =~= start + named_parts(texts, i + 1));
        }
        i = i + 1;
    }
    assert(text::views(out@) =~= components(path@));
    out
}

/// The last component of a path, where that is a name.
pub open spec fn file_name(path: Seq<char>) -> Option<Seq<char>> {
    let all = components(path);
    if all.len() == 0 || all.last() == "/"@ || all.last() == "."@ || all.last() == ".."@ {
        None
    } else {
        Some(all.last())
    }
}

/// The last component of a path, where that is a name.
pub fn name_of(path: &[char]) -> (r: Option<String>)
    ensures
        text::opt_view(r) == file_name(path@),
{
    let all = path_components(path);
    if all.len() == 0 {
        return None;
    }
    let name = all[all.len() - 1].as_str();
    assert(name@ == components(path@).last());
    if chars::str_same(name, "/") || chars::str_same(name, ".") || chars::str_same(name, "..") {
        None
    } else {
        Some(String::from_str(name))
    }
}

/// The path that has the components.
pub open spec fn path_text(parts: Seq<Seq<char>>) -> Seq<char> {
    if parts.len() > 0 && parts[0] == "/"@ {
        "/"@ + text::join(parts.skip(1), "/"@)
    } else {
        text::join(parts, "/"@)
    }
}

/// A path without its first `n` components.
pub open spec fn stripped(path: Seq<char>, n: nat) -> Seq<char> {
    let all = components(path);
    if n < all.len() {
        path_text(all.skip(n as int))
    } else {
        Seq::empty()
    }
}

/// A path without its first `strip` components; nothing where it has no more.
pub fn strip_components(path: &str, strip: usize) -> (r: Option<String>)
    ensures
        match r {
            Some(p) => strip < components(path@).len() && p@ == stripped(path@, strip as nat),
            None => strip >= components(path@).len(),
        },
{
    let whole = chars::of(path);
    let all = path_components(&whole);
    if strip >= all.len() {
        return None;
    }
    let ghost left = components(path@).skip(strip as int);
    assert(left[0] == all@[strip as int]@);
    let rooted = chars::str_same(all[strip].as_str(), "/");
    let start: usize = if rooted {
        strip + 1
    } else {
        strip
    };
    let mut rest: Vec<String> = Vec::new();
    let mut i: usize = start;
    while i < all.len()
        invariant
            start <= i <= all.len(),
            rest@.len() == i - start,
            forall|k: int| 0 <= k < rest@.len() ==> (#[trigger] rest@[k])@ == all@[start + k]@,
        decreases all.len() - i,
    {
        rest.push(all[i].clone());
        i = i + 1;
    }
    let joined = chars::join(&rest, "/");
    if rooted {
        assert(text::views(rest@) =~= left.skip(1));
        let mut out = String::from_str("/");
        out.append(joined.as_str());
        Some(out)
    } else {
        assert(text::views(rest@) =~= left);
        Some(joined)
    }
}

// ── Wheels ──────────────────────────────────────────────────────────────────
/// What is done with an entry of an archive.
#[derive(Debug)]
pub enum EntryStep {
    /// Nothing.
    Skip,
    /// A directory is made, with the usual permissions.
    MakeDir { path: String },
    /// A file or a symbolic link is written.
    Unpack { path: String },
    /// A hard link to a file that is there is made.
    HardLink { path: String, target: String },
    /// A hard link to a file that is not there is put off.
    Defer { path: String, target: String },
}

/// What is done with an entry of an archive.
pub enum StepModel {
    Skip,
    MakeDir(Seq<char>),
    Unpack(Seq<char>),
    HardLink(Seq<char>, Seq<char>),
    Defer(Seq<char>, Seq<char>),
}

impl View for EntryStep {
    type V = StepModel;

    open spec fn view(&self) -> StepModel {
        match self {
            EntryStep::Skip => StepModel::Skip,
            EntryStep::MakeDir { path } => StepModel::MakeDir(path@),
            EntryStep::Unpack { path } => StepModel::Unpack(path@),
            EntryStep::HardLink { path, target } => StepModel::HardLink(path@, target@),
            EntryStep::Defer { path, target } => StepModel::Defer(path@, target@),
        }
    }
}

/// What stands behind the last point of the last component of a path, if a point
/// stands in it and not at its start.
pub open spec fn extension(path: Seq<char>) -> Option<Seq<char>> {
    let all = components(path);
    if all.len() == 0 || all.last() == ".."@ {
        None
    } else {
        match text::rfind(all.last(), '.') {
            Some(i) => if i > 0 {
                Some(all.last().skip(i + 1))
            } else {
                None
            },
            None => None,
        }
    }
}

/// What stands behind the last point of the name of a path.
pub fn extension_of(path: &str) -> (r: Option<String>)
    ensures
        text::opt_view(r) == extension(path@),
{
    let whole = chars::of(path);
    let all = path_components(&whole);
    if all.len() == 0 {
        return None;
    }
    assert(components(path@).last() == all@[all@.len() - 1]@);
    if chars::str_same(all[all.len() - 1].as_str(), "..") {
        return None;
    }
    let name = chars::of(all[all.len() - 1].as_str());
    match chars::rfind(&name, '.') {
        Some(i) => if i > 0 {
            Some(chars::to_string(chars::skip(&name, i + 1)))
        } else {
            None
        },
        None => None,
    }
}

/// What is done with an entry of a wheel. Wheels in a wheel are left out.
pub open spec fn wheel_step(name: Seq<char>, is_dir: bool, dest: Seq<char>) -> StepModel {
    if extension(name) == Some("whl"@) {
        StepModel::Skip
    } else if is_dir {
        StepModel::MakeDir(paths::joined(dest, name))
    } else {
        StepModel::Unpack(paths::joined(dest, name))
    }
}

/// What is done with an entry of a wheel that is extracted to `dest`.
pub fn extract_wheel(name: &str, is_dir: bool, dest: &str) -> (r: EntryStep)
    ensures
        r@ == wheel_step(name@, is_dir, dest@),
{
    if let Some(e) = extension_of(name) {
        if chars::str_same(e.as_str(), "whl") {
            return EntryStep::Skip;
        }
    }
    let path = paths::join(dest, name);
    if is_dir {
        EntryStep::MakeDir { path }
    } else {
        EntryStep::Unpack { path }
    }
}

// ── Tar archives ────────────────────────────────────────────────────────────
/// What an entry of a tar archive is.
#[derive(Debug, Clone, Copy, PartialEq, Eq, Structural)]
pub enum TarKind {
    Dir,
    HardLink,
    Symlink,
    /// A file, or something that is unpacked like one.
    File,
}

/// What is done with an entry of a tar archive. A directory is made with the usual
/// permissions, whatever the archive says of it.
pub open spec fn tar_step(path: Seq<char>, kind: TarKind, dest: Seq<char>) -> StepModel {
    if kind is Dir {
        StepModel::MakeDir(paths::joined(dest, path))
    } else {
        StepModel::Unpack(paths::joined(dest, path))
    }
}

/// What is done with an entry of a tar archive that is extracted to `dest`.
pub fn extract_targz(path: &str, kind: TarKind, dest: &str) -> (r: EntryStep)
    ensures
        r@ == tar_step(path@, kind, dest@),
{
    let path = paths::join(dest, path);
    if kind == TarKind::Dir {
        EntryStep::MakeDir { path }
    } else {
        EntryStep::Unpack { path }
    }
}

/// What is done with an entry of a tar archive whose first component is stripped.
pub open spec fn tar_step1(path: Seq<char>, kind: TarKind, dest: Seq<char>) -> StepModel {
    if components(path).len() <= 1 {
        StepModel::Skip
    } else {
        tar_step(stripped(path, 1), kind, dest)
    }
}

/// What is done with an entry of a tar archive that is extracted to `dest` without
/// its first component.
pub fn extract_targz_strip1(path: &str, kind: TarKind, dest: &str) -> (r: EntryStep)
    ensures
        r@ == tar_step1(path@, kind, dest@),
{
    match strip_components(path, 1) {
        Some(rest) => extract_targz(rest.as_str(), kind, dest),
        None => EntryStep::Skip,
    }
}

/// The place of the target of a hard link: its first components are stripped too.
pub open spec fn link_target(link: Seq<char>, strip: nat, dest: Seq<char>) -> Seq<char> {
    paths::joined(dest, stripped(link, strip))
}

/// What is done with an entry of a tar archive whose first components are
/// stripped. A hard link is made where its target is there, and otherwise put off;
/// one without a target is left out.
pub open spec fn tar_step_n(
    path: Seq<char>,
    kind: TarKind,
    link: Option<Seq<char>>,
    target_exists: bool,
    strip: nat,
    dest: Seq<char>,
) -> StepModel {
    if components(path).len() <= strip {
        StepModel::Skip
    } else {
        let out = paths::joined(dest, stripped(path, strip));
        match kind {
            TarKind::Dir => StepModel::MakeDir(out),
            TarKind::HardLink => match link {
                Some(l) => if target_exists {
                    StepModel::HardLink(out, link_target(l, strip, dest))
                } else {
                    StepModel::Defer(out, link_target(l, strip, dest))
                },
                None => StepModel::Skip,
            },
            TarKind::Symlink => StepModel::Unpack(out),
            TarKind::File => StepModel::Unpack(out),
        }
    }
}

/// The place of the target of a hard link in an archive that is extracted to
/// `dest`.
pub fn hard_link_target(link: &str, strip: usize, dest: &str) -> (r: String)
    ensures
        r@ == link_target(link@, strip as nat, dest@),
{
    match strip_components(link, strip) {
        Some(rest) => paths::join(dest, rest.as_str()),
        None => {
            proof {
                reveal_strlit("");
                assert(""@ =~= Seq::<char>::empty());
            }
            paths::join(dest, "")
        },
    }
}

/// What is done with an entry of a tar archive that is extracted to `dest` without
/// its first `strip` components. `target_exists` says of a hard link that its
/// target, at [`hard_link_target`], is there.
pub fn extract_targz_strip(
    path: &str,
    kind: TarKind,
    link: Option<&str>,
    target_exists: bool,
    strip: usize,
    dest: &str,
) -> (r: EntryStep)
    ensures
        r@ == tar_step_n(
            path@,
            kind,
            text::opt_str_view(link),
            target_exists,
            strip as nat,
            dest@,
        ),
{
    let rest = match strip_components(path, strip) {
        Some(rest) => rest,
        None => {
            return EntryStep::Skip;
        },
    };
    let path = paths::join(dest, rest.as_str());
    match kind {
        TarKind::Dir => EntryStep::MakeDir { path },
        TarKind::HardLink => match link {
            Some(l) => {
                let target = hard_link_target(l, strip, dest);
                if target_exists {
                    EntryStep::HardLink { path, target }
                } else {
                    EntryStep::Defer { path, target }
                }
            },
            None => EntryStep::Skip,
        },
        TarKind::Symlink => EntryStep::Unpack { path },
        TarKind::File => EntryStep::Unpack { path },
    }
}

/// What is done in the end with a hard link that was put off: it is made where its
/// target has come, and left out otherwise.
pub fn retry_hard_link(path: String, target: String, target_exists: bool) -> (r: EntryStep)
    ensures
        r@ == if target_exists {
            StepModel::HardLink(path@, target@)
        } else {
            StepModel::Skip
        },
{
    if target_exists {
        EntryStep::HardLink { path, target }
    } else {
        EntryStep::Skip
    }
}

/// A hard link is left out only where its target is not there in the end, whatever
/// the order of the entries.
pub proof fn hard_link_is_made_in_the_end(
    path: Seq<char>,
    link: Seq<char>,
    target_exists: bool,
    strip: nat,
    dest: Seq<char>,
)
    requires
        components(path).len() > strip,
    ensures
        ({
            let out = paths::joined(dest, stripped(path, strip));
            let target = link_target(link, strip, dest);
            let step = tar_step_n(path, TarKind::HardLink, Some(link), target_exists, strip, dest);
            step == StepModel::HardLink(out, target) || step == StepModel::Defer(out, target)
        }),
{
}

} // verus!
