//! What holds of paths and of the entries of archives.
use vstd::prelude::*;

use crate::extract;
use crate::extract::ArchiveKind;
use crate::extract::StepModel;
use crate::extract::TarKind;
use crate::paths;
use crate::text;
use crate::text_laws;

verus! {

// ── Joining and taking apart ────────────────────────────────────────────────
/// A name in a directory: its last part is the name and its parent the directory. A
/// path from the root stays as it is wherever it is joined to.
pub proof fn joined_is_taken_apart(dir: Seq<char>, name: Seq<char>)
    requires
        dir.len() > 0,
        dir.last() != '/',
    ensures
        paths::joined(dir, name) == (if name.len() > 0 && name[0] == '/' {
            name
        } else {
            dir + seq!['/'] + name
        }),
        paths::joined(dir + seq!['/'], name) == paths::joined(dir, name),
        paths::joined(Seq::empty(), name) == name,
        !name.contains('/') ==> paths::last_part(paths::joined(dir, name)) == name,
        !name.contains('/') ==> paths::parent_part(paths::joined(dir, name)) == dir,
        !name.contains('/') ==> paths::last_part(name) == name && paths::parent_part(name)
            == Seq::<char>::empty(),
{
    reveal_strlit("/");
    assert("/"@ =~= seq!['/']);
    let slashed = dir + seq!['/'];
    assert(slashed.last() == '/');
    assert(slashed + name =~= dir + seq!['/'] + name);
    if !name.contains('/') {
        if name.len() > 0 {
            assert(name.contains(name[0]));
        }
        let s = dir + seq!['/'] + name;
        let n = dir.len() as int;
        text_laws::rfind_is_last(s, '/');
        text_laws::rfind_is_last(name, '/');
        assert(s[n] == '/');
        assert forall|j: int| n < j < s.len() implies s[j] != '/' by {
            assert(s[j] == name[j - n - 1]);
            assert(name.contains(name[j - n - 1]));
        }
        assert(text::rfind(s, '/') == Some(n));
        assert(s.skip(n + 1) =~= name);
        assert(s.take(n) =~= dir);
    }
}

/// Of candidates the first that is there is taken, and none where none is.
pub proof fn first_candidate_is_taken(
    dir: Seq<char>,
    before: Seq<Seq<char>>,
    name: Seq<char>,
    behind: Seq<Seq<char>>,
    existing: Seq<Seq<char>>,
)
    requires
        forall|i: int| 0 <= i < before.len() ==> !existing.contains(#[trigger] before[i]),
    ensures
        existing.contains(name) ==> paths::first_existing(
            dir,
            before + seq![name] + behind,
            existing,
        ) == Some(paths::joined(dir, name)),
        paths::first_existing(dir, before, existing) is None,
    decreases before.len(),
{
    let all = before + seq![name] + behind;
    if before.len() == 0 {
        assert(all[0] == name);
    } else {
        let rest = before.skip(1);
        assert(!existing.contains(before[0]));
        assert forall|i: int| 0 <= i < rest.len() implies !existing.contains(#[trigger] rest[i]) by {
            assert(rest[i] == before[i + 1]);
        }
        first_candidate_is_taken(dir, rest, name, behind, existing);
        assert(all[0] == before[0]);
        assert(all.skip(1) =~= rest + seq![name] + behind);
    }
}

/// A path of Windows is written with slashes, and without the prefixes `\\?\` and
/// `\\?\UNC\`; a path of another system stays as it is.
pub proof fn machine_paths(path: Seq<char>)
    ensures
        paths::from_machine(path, false) == path,
        !path.contains('\\') && !"//?/"@.is_prefix_of(path) ==> paths::from_machine(path, true)
            == path,
        !path.contains('\\') && !"UNC/"@.is_prefix_of(path) ==> paths::from_machine(
            "//?/"@ + path,
            true,
        ) == path,
        !path.contains('\\') ==> paths::from_machine("//?/UNC/"@ + path, true) == "//"@ + path,
        !path.contains('\\') ==> paths::from_machine(seq!['\\'] + path, true)
            == paths::from_machine(seq!['/'] + path, true),
{
    reveal_strlit("//?/");
    reveal_strlit("//?/UNC/");
    reveal_strlit("UNC/");
    reveal_strlit("/");
    if !path.contains('\\') {
        let a = "//?/"@ + path;
        let b = "//?/UNC/"@ + path;
        no_backslash(path);
        assert(!a.contains('\\')) by {
            assert forall|i: int| 0 <= i < a.len() implies a[i] != '\\' by {
                if i >= 4 {
                    assert(a[i] == path[i - 4]);
                    assert(path.contains(path[i - 4]));
                }
            }
        }
        assert(!b.contains('\\')) by {
            assert forall|i: int| 0 <= i < b.len() implies b[i] != '\\' by {
                if i >= 8 {
                    assert(b[i] == path[i - 8]);
                    assert(path.contains(path[i - 8]));
                }
            }
        }
        no_backslash(a);
        no_backslash(b);
        text_laws::joined_ends("//?/"@, path);
        text_laws::joined_ends("//?/UNC/"@, path);
        if "//?/UNC/"@.is_prefix_of(path) {
            let head = path.subrange(0, 8);
            assert(path.subrange(0, 4) =~= head.subrange(0, 4));
            assert("//?/UNC/"@.subrange(0, 4) =~= "//?/"@);
            assert("//?/"@.is_prefix_of(path));
        }
        if "//?/UNC/"@.is_prefix_of(a) && !"UNC/"@.is_prefix_of(path) {
            let head = a.subrange(0, 8);
            assert(path.subrange(0, 4) =~= head.subrange(4, 8));
            assert("//?/UNC/"@.subrange(4, 8) =~= "UNC/"@);
            assert("UNC/"@.is_prefix_of(path));
        }
        text_laws::replacing_is_by_character(seq!['\\'], path, '\\', '/', "/"@);
        text_laws::replacing_is_by_character(seq!['/'], path, '\\', '/', "/"@);
        assert("/"@ =~= seq!['/']);
    }
}

proof fn no_backslash(s: Seq<char>)
    requires
        !s.contains('\\'),
    ensures
        paths::slashed(s) == s,
    decreases s.len(),
{
    if s.len() > 0 {
        let front = s.drop_last();
        assert(!front.contains('\\')) by {
            assert forall|i: int| 0 <= i < front.len() implies front[i] != '\\' by {
                assert(s.contains(s[i]));
            }
        }
        no_backslash(front);
        assert(s.contains(s[s.len() - 1]));
        assert(front + seq![s.last()] =~= s);
    }
}

// ── Components ──────────────────────────────────────────────────────────────
/// Names of which a path is made: not empty, without slashes, and not `.`.
pub open spec fn are_names(parts: Seq<Seq<char>>) -> bool {
    forall|i: int|
        0 <= i < parts.len() ==> (#[trigger] parts[i]).len() > 0 && !parts[i].contains('/')
            && parts[i] != "."@
}

proof fn all_named(parts: Seq<Seq<char>>, n: int)
    requires
        are_names(parts),
        0 <= n <= parts.len(),
    ensures
        extract::named_parts(parts, n) == parts.take(n),
    decreases n,
{
    if n > 0 {
        all_named(parts, n - 1);
        assert(parts[n - 1].len() > 0);
        assert(parts.take(n - 1).push(parts[n - 1]) =~= parts.take(n));
    } else {
        assert(parts.take(0) =~= Seq::<Seq<char>>::empty());
    }
}

/// A path of names with slashes between them has those names, and without the first
/// of them it is the path of the others.
pub proof fn components_are_names(parts: Seq<Seq<char>>, n: nat)
    requires
        parts.len() > 0,
        are_names(parts),
    ensures
        extract::components(text::join(parts, "/"@)) == parts,
        n < parts.len() ==> extract::stripped(text::join(parts, "/"@), n) == text::join(
            parts.skip(n as int),
            "/"@,
        ),
        parts.last() != ".."@ ==> extract::file_name(text::join(parts, "/"@)) == Some(parts.last()),
        parts.last() == ".."@ ==> extract::file_name(text::join(parts, "/"@)) is None,
{
    reveal_strlit("/");
    reveal_strlit(".");
    assert("/"@ =~= seq!['/']);
    text_laws::joined_is_split(parts, '/');
    let path = text::join(parts, "/"@);
    all_named(parts, parts.len() as int);
    assert(parts.take(parts.len() as int) =~= parts);
    join_starts(parts);
    assert(parts[parts.len() - 1] == parts.last());
    assert(parts.last() != "/"@) by {
        assert(!parts[parts.len() - 1].contains('/'));
        assert("/"@[0] == '/');
        assert("/"@.contains('/'));
    }
    if n < parts.len() {
        let rest = parts.skip(n as int);
        assert(rest[0] == parts[n as int]);
        assert(rest[0] != "/"@) by {
            assert(!parts[n as int].contains('/'));
            assert("/"@[0] == '/');
            assert("/"@.contains('/'));
        }
    }
}

proof fn join_starts(parts: Seq<Seq<char>>)
    requires
        parts.len() > 0,
        are_names(parts),
    ensures
        text::join(parts, "/"@).len() > 0,
        text::join(parts, "/"@)[0] == parts[0][0],
        text::join(parts, "/"@)[0] != '/',
    decreases parts.len(),
{
    assert(parts[0].len() > 0 && !parts[0].contains('/'));
    assert(parts[0].contains(parts[0][0]));
    if parts.len() > 1 {
        let front = parts.drop_last();
        assert forall|i: int| 0 <= i < front.len() implies (#[trigger] front[i]).len() > 0
            && !front[i].contains('/') && front[i] != "."@ by {
            assert(front[i] == parts[i]);
        }
        join_starts(front);
        assert(front[0] == parts[0]);
    }
}

/// The extension of a file is what stands behind the last point of its name; a name
/// that starts with its only point has none.
pub proof fn extension_is_behind_last_point(
    dirs: Seq<Seq<char>>,
    stem: Seq<char>,
    end: Seq<char>,
)
    requires
        are_names(dirs),
        stem.len() > 0,
        !stem.contains('/'),
        !end.contains('/'),
        !end.contains('.'),
        stem + seq!['.'] + end != ".."@,
    ensures
        extract::extension(text::join(dirs.push(stem + seq!['.'] + end), "/"@)) == Some(end),
        end.len() > 0 ==> extract::extension(text::join(dirs.push(end), "/"@)) is None,
        end.len() > 0 ==> extract::extension(text::join(dirs.push(seq!['.'] + end), "/"@)) is None,
{
    reveal_strlit(".");
    reveal_strlit("..");
    let name = stem + seq!['.'] + end;
    let n = stem.len() as int;
    assert(!name.contains('/')) by {
        assert forall|i: int| 0 <= i < name.len() implies name[i] != '/' by {
            if i < n {
                assert(name[i] == stem[i]);
                assert(stem.contains(stem[i]));
            } else if i > n {
                assert(name[i] == end[i - n - 1]);
                assert(end.contains(end[i - n - 1]));
            }
        }
    }
    assert(name.len() > 1);
    with_name(dirs, name);
    text_laws::rfind_is_last(name, '.');
    assert(name[n] == '.');
    assert forall|j: int| n < j < name.len() implies name[j] != '.' by {
        assert(name[j] == end[j - n - 1]);
        assert(end.contains(end[j - n - 1]));
    }
    assert(name.skip(n + 1) =~= end);
    if end.len() > 0 {
        assert(end.contains(end[0]));
        with_name(dirs, end);
        text_laws::rfind_is_last(end, '.');
        let hidden = seq!['.'] + end;
        assert(!hidden.contains('/')) by {
            assert forall|i: int| 0 <= i < hidden.len() implies hidden[i] != '/' by {
                if i > 0 {
                    assert(hidden[i] == end[i - 1]);
                    assert(end.contains(end[i - 1]));
                }
            }
        }
        with_name(dirs, hidden);
        text_laws::rfind_is_last(hidden, '.');
        assert(hidden[0] == '.' && hidden[1] == end[0]);
        assert forall|j: int| 0 < j < hidden.len() implies hidden[j] != '.' by {
            assert(hidden[j] == end[j - 1]);
            assert(end.contains(end[j - 1]));
        }
    }
}

proof fn with_name(dirs: Seq<Seq<char>>, name: Seq<char>)
    requires
        are_names(dirs),
        name.len() > 0,
        !name.contains('/'),
        name != "."@,
    ensures
        extract::components(text::join(dirs.push(name), "/"@)) == dirs.push(name),
        dirs.push(name).last() == name,
{
    let all = dirs.push(name);
    assert forall|i: int| 0 <= i < all.len() implies (#[trigger] all[i]).len() > 0
        && !all[i].contains('/') && all[i] != "."@ by {
        if i < dirs.len() {
            assert(all[i] == dirs[i]);
        }
    }
    components_are_names(all, 0);
}

// ── Archives ────────────────────────────────────────────────────────────────
/// The kind of an archive goes by the end of its name: wheels and zip files are of the
/// one kind, tar files and crates of the other, and anything else is none.
pub proof fn archive_kinds(stem: Seq<char>)
    ensures
        extract::kind_of(stem + ".whl"@) == Some(ArchiveKind::Zip),
        extract::kind_of(stem + ".zip"@) == Some(ArchiveKind::Zip),
        extract::kind_of(stem + ".tgz"@) == Some(ArchiveKind::TarGz),
        extract::kind_of(stem + ".tar.gz"@) == Some(ArchiveKind::TarGz),
        extract::kind_of(stem + ".crate"@) == Some(ArchiveKind::TarGz),
        extract::kind_of(stem + ".exe"@) is None,
        extract::kind_of(stem + ".tar"@) is None,
        extract::kind_of(stem + ".tar.xz"@) is None,
{
    reveal_strlit(".whl");
    reveal_strlit(".zip");
    reveal_strlit(".tgz");
    reveal_strlit(".tar.gz");
    reveal_strlit(".crate");
    reveal_strlit(".exe");
    reveal_strlit(".tar");
    reveal_strlit(".tar.xz");
    text_laws::joined_ends(stem, ".whl"@);
    text_laws::joined_ends(stem, ".zip"@);
    text_laws::joined_ends(stem, ".tgz"@);
    text_laws::joined_ends(stem, ".tar.gz"@);
    text_laws::joined_ends(stem, ".crate"@);
    let tgz = stem + ".tgz"@;
    text_laws::no_suffix(".whl"@, tgz, 1);
    text_laws::no_suffix(".zip"@, tgz, 1);
    let gz = stem + ".tar.gz"@;
    text_laws::no_suffix(".whl"@, gz, 1);
    text_laws::no_suffix(".zip"@, gz, 1);
    let krate = stem + ".crate"@;
    text_laws::no_suffix(".whl"@, krate, 1);
    text_laws::no_suffix(".zip"@, krate, 1);
    let exe = stem + ".exe"@;
    text_laws::no_suffix(".whl"@, exe, 1);
    text_laws::no_suffix(".zip"@, exe, 1);
    text_laws::no_suffix(".tgz"@, exe, 1);
    text_laws::no_suffix(".tar.gz"@, exe, 1);
    text_laws::no_suffix(".crate"@, exe, 2);
    let tar = stem + ".tar"@;
    text_laws::no_suffix(".whl"@, tar, 1);
    text_laws::no_suffix(".zip"@, tar, 1);
    text_laws::no_suffix(".tgz"@, tar, 1);
    text_laws::no_suffix(".tar.gz"@, tar, 1);
    text_laws::no_suffix(".crate"@, tar, 1);
    let xz = stem + ".tar.xz"@;
    text_laws::no_suffix(".whl"@, xz, 1);
    text_laws::no_suffix(".zip"@, xz, 1);
    text_laws::no_suffix(".tgz"@, xz, 2);
    text_laws::no_suffix(".tar.gz"@, xz, 2);
    text_laws::no_suffix(".crate"@, xz, 1);
}

/// An entry of an archive below its first directory is unpacked at the rest of its
/// path; the first directory itself is not. Directories are made, links that stand in
/// for files are made where the file is there, and everything else is unpacked.
pub proof fn entries_below_first_directory(
    top: Seq<char>,
    parts: Seq<Seq<char>>,
    kind: TarKind,
    link: Seq<Seq<char>>,
    there: bool,
    dest: Seq<char>,
)
    requires
        top.len() > 0,
        !top.contains('/'),
        top != "."@,
        parts.len() > 0,
        are_names(parts),
        link.len() > 0,
        are_names(link),
    ensures
        ({
            let path = text::join(seq![top] + parts, "/"@);
            let from = text::join(seq![top] + link, "/"@);
            let out = paths::joined(dest, text::join(parts, "/"@));
            let target = paths::joined(dest, text::join(link, "/"@));
            &&& extract::tar_step1(path, TarKind::Dir, dest) == StepModel::MakeDir(out)
            &&& extract::tar_step1(path, TarKind::File, dest) == StepModel::Unpack(out)
            &&& extract::tar_step1(top, kind, dest) == StepModel::Skip
            &&& extract::tar_step_n(path, TarKind::Dir, None, there, 1, dest)
                == StepModel::MakeDir(out)
            &&& extract::tar_step_n(path, TarKind::File, None, there, 1, dest)
                == StepModel::Unpack(out)
            &&& extract::tar_step_n(path, TarKind::Symlink, Some(from), there, 1, dest)
                == StepModel::Unpack(out)
            &&& extract::tar_step_n(path, TarKind::HardLink, Some(from), true, 1, dest)
                == StepModel::HardLink(out, target)
            &&& extract::tar_step_n(path, TarKind::HardLink, Some(from), false, 1, dest)
                == StepModel::Defer(out, target)
            &&& extract::tar_step_n(top, kind, Some(from), there, 1, dest) == StepModel::Skip
        }),
{
    let all = seq![top] + parts;
    let linked = seq![top] + link;
    let one = seq![top];
    assert(are_names(all)) by {
        assert forall|i: int| 0 <= i < all.len() implies (#[trigger] all[i]).len() > 0
            && !all[i].contains('/') && all[i] != "."@ by {
            if i > 0 {
                assert(all[i] == parts[i - 1]);
            }
        }
    }
    assert(are_names(linked)) by {
        assert forall|i: int| 0 <= i < linked.len() implies (#[trigger] linked[i]).len() > 0
            && !linked[i].contains('/') && linked[i] != "."@ by {
            if i > 0 {
                assert(linked[i] == link[i - 1]);
            }
        }
    }
    assert(are_names(one));
    components_are_names(all, 1);
    components_are_names(linked, 1);
    components_are_names(one, 0);
    assert(all.skip(1) =~= parts);
    assert(linked.skip(1) =~= link);
    assert(text::join(one, "/"@) == top);
}

/// A wheel within a wheel is left out; everything else is unpacked where it stands.
pub proof fn entries_of_wheels(dirs: Seq<Seq<char>>, stem: Seq<char>, dest: Seq<char>, is_dir: bool)
    requires
        are_names(dirs),
        stem.len() > 0,
        !stem.contains('/'),
    ensures
        ({
            let nested = text::join(dirs.push(stem + seq!['.'] + "whl"@), "/"@);
            let file = text::join(dirs.push(stem + seq!['.'] + "py"@), "/"@);
            &&& extract::wheel_step(nested, is_dir, dest) == StepModel::Skip
            &&& extract::wheel_step(file, false, dest) == StepModel::Unpack(
                paths::joined(dest, file),
            )
            &&& extract::wheel_step(file, true, dest) == StepModel::MakeDir(
                paths::joined(dest, file),
            )
        }),
{
    reveal_strlit("whl");
    reveal_strlit("py");
    reveal_strlit("..");
    assert((stem + seq!['.'] + "whl"@).len() > 2);
    assert((stem + seq!['.'] + "py"@).len() > 2);
    assert("whl"@.len() != "py"@.len());
    extension_is_behind_last_point(dirs, stem, "whl"@);
    extension_is_behind_last_point(dirs, stem, "py"@);
}

/// Behind the volume of a path stands what follows its drive or its share.
pub proof fn volumes_are_cut(
    drive: char,
    rest: Seq<char>,
    server: Seq<char>,
    share: Seq<char>,
    behind: Seq<char>,
)
    requires
        'a' <= drive <= 'z' || 'A' <= drive <= 'Z',
        server.len() > 0,
        !server.contains('/'),
        share.len() > 0,
        !share.contains('/'),
        behind.len() == 0 || behind[0] == '/',
    ensures
        paths::behind_volume(seq![drive, ':'] + rest) == rest,
        paths::behind_volume("//"@ + (server + seq!['/'] + (share + behind))) == behind,
{
    reveal_strlit("//");
    let a = seq![drive, ':'] + rest;
    assert(a.skip(2) =~= rest);
    let tail = share + behind;
    let inner = server + seq!['/'] + tail;
    let path = "//"@ + inner;
    assert(path[0] == '/');
    text_laws::joined_ends("//"@, inner);
    text_laws::before_ends_at_first(server, '/', tail);
    assert(share[0] != '/') by {
        if share[0] == '/' {
            assert(share.contains('/'));
        }
    }
    assert(tail[0] == share[0]);
    if behind.len() == 0 {
        assert(tail =~= share);
        text_laws::before_ends_at_first(share, '/', Seq::empty());
    } else {
        let last = behind.skip(1);
        assert(tail =~= share + seq!['/'] + last);
        text_laws::before_ends_at_first(share, '/', last);
    }
    assert(path.skip(path.len() - behind.len()) =~= behind);
}

} // verus!
