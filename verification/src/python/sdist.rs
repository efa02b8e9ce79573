//! Source distributions: what of one is installed, in the layout of a wheel.
//! Nothing of it is executed, and one with sources to compile is refused.
use vstd::prelude::*;

use crate::actions;
use crate::actions::ActionModel;
use crate::actions::FsAction;
use crate::chars;
use crate::config;
use crate::extract;
use crate::paths;
use crate::text;

verus! {

// ── The root ────────────────────────────────────────────────────────────────
/// A directory at the top of a source distribution.
#[derive(Debug)]
pub struct TopDir {
    pub name: String,
    /// It has a `setup.py`, a `setup.cfg` or a `pyproject.toml`.
    pub has_marker: bool,
}

/// One of the files in a directory marks a project.
pub open spec fn marks_project(files: Seq<Seq<char>>) -> bool {
    files.contains("setup.py"@) || files.contains("setup.cfg"@) || files.contains(
        "pyproject.toml"@,
    )
}

/// Does one of the files in a directory mark a project?
pub fn has_project_marker(files: &[String]) -> (r: bool)
    ensures
        r == marks_project(text::views(files@)),
{
    paths::listed(files, "setup.py") || paths::listed(files, "setup.cfg") || paths::listed(
        files,
        "pyproject.toml",
    )
}

/// The position of the first directory that is marked as a project.
pub open spec fn is_first_marked(dirs: Seq<TopDir>, i: int) -> bool {
    &&& 0 <= i < dirs.len()
    &&& dirs[i].has_marker
    &&& forall|j: int| 0 <= j < i ==> !(#[trigger] dirs[j]).has_marker
}

/// The position of the directory whose name comes first.
pub open spec fn is_least(dirs: Seq<TopDir>, i: int) -> bool {
    &&& 0 <= i < dirs.len()
    &&& forall|j: int| 0 <= j < dirs.len() ==> !text::less((#[trigger] dirs[j]).name@, dirs[i].name@)
}

/// The directory of the sources: the first one that is marked as a project, or the
/// one whose name comes first, or the top itself where there is none.
pub open spec fn is_root(r: Seq<char>, top: Seq<char>, dirs: Seq<TopDir>) -> bool {
    if dirs.len() == 0 {
        r == top
    } else if exists|i: int| #[trigger] is_first_marked(dirs, i) {
        exists|i: int| #[trigger] is_first_marked(dirs, i) && r == paths::joined(top, dirs[i].name@)
    } else {
        exists|i: int| #[trigger] is_least(dirs, i) && r == paths::joined(top, dirs[i].name@)
    }
}

/// The directory of the sources of a distribution that was extracted to `top`, by
/// the directories there.
pub fn locate_sdist_root(top: &str, dirs: &Vec<TopDir>) -> (r: String)
    ensures
        is_root(r@, top@, dirs@),
{
    if dirs.len() == 0 {
        return String::from_str(top);
    }
    let mut i: usize = 0;
    while i < dirs.len()
        invariant
            i <= dirs.len(),
            forall|j: int| 0 <= j < i ==> !(#[trigger] dirs@[j]).has_marker,
        decreases dirs.len() - i,
    {
        if dirs[i].has_marker {
            assert(is_first_marked(dirs@, i as int));
            return paths::join(top, dirs[i].name.as_str());
        }
        i = i + 1;
    }
    let mut least: usize = 0;
    let mut k: usize = 1;
    proof {
        text::less_total(dirs@[0].name@, dirs@[0].name@);
    }
    while k < dirs.len()
        invariant
            1 <= k <= dirs.len(),
            least < k,
            forall|j: int|
                0 <= j < k ==> !text::less((#[trigger] dirs@[j]).name@, dirs@[least as int].name@),
        decreases dirs.len() - k,
    {
        let a = chars::of(dirs[k].name.as_str());
        let b = chars::of(dirs[least].name.as_str());
        if chars::less(&a, &b) {
            proof {
                let now = dirs@[k as int].name@;
                let before = dirs@[least as int].name@;
                assert forall|j: int| 0 <= j < k + 1 implies !text::less(
                    (#[trigger] dirs@[j]).name@,
                    now,
                ) by {
                    if j == k {
                        text::less_total(now, now);
                    } else if text::less(dirs@[j].name@, now) {
                        text::less_transitive(dirs@[j].name@, now, before);
                    }
                }
            }
            least = k;
        }
        k = k + 1;
    }
    assert(is_least(dirs@, least as int));
    paths::join(top, dirs[least].name.as_str())
}

// ── What can be imported ────────────────────────────────────────────────────
/// What an entry of a directory of sources is.
#[derive(Debug, Clone, Copy, PartialEq, Eq, Structural)]
pub enum SourceKind {
    /// A directory with an `__init__.py`.
    Package,
    /// Another directory.
    Dir,
    File,
    /// Neither a directory nor a file.
    Other,
}

/// An entry of a directory of sources.
#[derive(Debug)]
pub struct SourceEntry {
    pub name: String,
    pub kind: SourceKind,
}

/// An entry can be imported: a package, or a module that is not a tool of the
/// build.
pub open spec fn is_importable(e: SourceEntry) -> bool {
    match e.kind {
        SourceKind::Package => true,
        SourceKind::File => e.name@ != "setup.py"@ && e.name@ != "conftest.py"@
            && ".py"@.is_suffix_of(e.name@),
        _ => false,
    }
}

/// Something that is installed.
#[derive(Debug)]
pub struct ImportItem {
    pub name: String,
    pub is_dir: bool,
}

/// The names and kinds of what can be imported, in the order of the entries.
pub open spec fn importable(entries: Seq<SourceEntry>) -> Seq<(Seq<char>, bool)>
    decreases entries.len(),
{
    if entries.len() == 0 {
        Seq::empty()
    } else {
        let front = importable(entries.drop_last());
        if is_importable(entries.last()) {
            front.push((entries.last().name@, entries.last().kind is Package))
        } else {
            front
        }
    }
}

/// The names and kinds of items.
pub open spec fn item_views(v: Seq<ImportItem>) -> Seq<(Seq<char>, bool)> {
    Seq::new(v.len(), |i: int| (v[i].name@, v[i].is_dir))
}

/// The names are in order.
pub open spec fn in_order(v: Seq<(Seq<char>, bool)>) -> bool {
    forall|i: int, j: int|
        #![trigger v[i], v[j]]
        0 <= i < j < v.len() ==> !text::less(v[j].0, v[i].0)
}

fn entry_importable(e: &SourceEntry) -> (r: bool)
    ensures
        r == is_importable(*e),
{
    match e.kind {
        SourceKind::Package => true,
        SourceKind::File => {
            let name = chars::of(e.name.as_str());
            !chars::is(&name, "setup.py") && !chars::is(&name, "conftest.py") && chars::ends_with(
                &name,
                ".py",
            )
        },
        _ => false,
    }
}

fn insert_in_order(items: &mut Vec<ImportItem>, item: ImportItem)
    requires
        in_order(item_views(old(items)@)),
    ensures
        in_order(item_views(final(items)@)),
        item_views(final(items)@).to_multiset() == item_views(old(items)@).to_multiset().insert(
            (item.name@, item.is_dir),
        ),
{
    let ghost start = item_views(items@);
    let ghost model = (item.name@, item.is_dir);
    let name = chars::of(item.name.as_str());
    let mut i: usize = 0;
    while i < items.len() && !item_after(&items[i], &name)
        invariant
            i <= items.len(),
            start == item_views(items@),
            in_order(start),
            name@ == model.0,
            forall|k: int| 0 <= k < i ==> !text::less(name@, (#[trigger] start[k]).0),
        decreases items.len() - i,
    {
        assert(start[i as int].0 == items@[i as int].name@);
        i = i + 1;
    }
    let ghost at = i as int;
    proof {
        if at < start.len() {
            assert(start[at].0 == items@[at].name@);
        }
    }
    items.insert(i, item);
    assert(item_views(items@) =~= start.insert(at, model));
    proof {
        let all = start.insert(at, model);
        assert forall|a: int, b: int|
            #![trigger all[a], all[b]]
            0 <= a < b < all.len() implies !text::less(all[b].0, all[a].0) by {
            let old_a = if a < at {
                a
            } else {
                a - 1
            };
            let old_b = if b < at {
                b
            } else {
                b - 1
            };
            if a == at {
                assert(all[b] == start[old_b]);
                if text::less(start[old_b].0, model.0) {
                    if old_b > at {
                        assert(!text::less(start[old_b].0, start[at].0));
                        less_not_less(model.0, start[at].0, start[old_b].0);
                    } else {
                        text::less_total(model.0, start[at].0);
                    }
                }
            } else if b == at {
                assert(all[a] == start[old_a]);
            } else {
                assert(all[a] == start[old_a]);
                assert(all[b] == start[old_b]);
            }
        }
        vstd::seq_lib::to_multiset_insert(start, at, model);
    }
}

/// Where `a` comes before `b` and `c` does not come before `b`, `c` does not come
/// before `a`.
proof fn less_not_less(a: Seq<char>, b: Seq<char>, c: Seq<char>)
    requires
        text::less(a, b),
        !text::less(c, b),
    ensures
        !text::less(c, a),
{
    if text::less(c, a) {
        text::less_transitive(c, a, b);
    }
}

fn item_after(item: &ImportItem, name: &[char]) -> (r: bool)
    ensures
        r == text::less(name@, item.name@),
{
    let other = chars::of(item.name.as_str());
    chars::less(name, &other)
}

/// What can be imported among the entries of a directory of sources, by name.
pub fn collect_importable(entries: &Vec<SourceEntry>) -> (r: Vec<ImportItem>)
    ensures
        in_order(item_views(r@)),
        item_views(r@).to_multiset() == importable(entries@).to_multiset(),
        r@.len() == importable(entries@).len(),
{
    let mut items: Vec<ImportItem> = Vec::new();
    let mut i: usize = 0;
    assert(item_views(items@) =~= importable(entries@.take(0)));
    while i < entries.len()
        invariant
            i <= entries.len(),
            in_order(item_views(items@)),
            item_views(items@).to_multiset() == importable(entries@.take(i as int)).to_multiset(),
        decreases entries.len() - i,
    {
        proof {
            assert(entries@.take(i + 1).drop_last() =~= entries@.take(i as int));
            assert(entries@.take(i + 1).last() == entries@[i as int]);
        }
        if entry_importable(&entries[i]) {
            let item = ImportItem {
                name: entries[i].name.clone(),
                is_dir: entries[i].kind == SourceKind::Package,
            };
            let ghost model = (item.name@, item.is_dir);
            insert_in_order(&mut items, item);
            proof {
                let front = importable(entries@.take(i as int));
                vstd::seq_lib::to_multiset_build(front, model);
            }
        }
        i = i + 1;
    }
    assert(entries@.take(i as int) =~= entries@);
    proof {
        vstd::seq_lib::to_multiset_len(item_views(items@));
        vstd::seq_lib::to_multiset_len(importable(entries@));
    }
    items
}

/// The directory of the modules: `src`, where that has any, and otherwise the root.
pub open spec fn import_base(root: Seq<char>, src: Option<Seq<SourceEntry>>) -> Seq<char> {
    match src {
        Some(entries) => if importable(entries).len() > 0 {
            paths::joined(root, "src"@)
        } else {
            root
        },
        None => root,
    }
}

/// The directory of the modules, and the entries of it. `src` holds the entries of
/// the directory `src`, where there is one.
pub fn pick_import_base<'a>(
    root: &str,
    root_entries: &'a Vec<SourceEntry>,
    src: Option<&'a Vec<SourceEntry>>,
) -> (r: (String, &'a Vec<SourceEntry>))
    ensures
        r.0@ == import_base(
            root@,
            match src {
                Some(v) => Some(v@),
                None => None,
            },
        ),
        *r.1 == if src is Some && importable(src->0@).len() > 0 {
            *src->0
        } else {
            *root_entries
        },
{
    if let Some(entries) = src {
        let items = collect_importable(entries);
        if items.len() > 0 {
            return (paths::join(root, "src"), entries);
        }
    }
    (String::from_str(root), root_entries)
}

// ── Sources to compile ──────────────────────────────────────────────────────
/// A file has to be compiled.
pub open spec fn is_compiled_source(path: Seq<char>) -> bool {
    match extract::extension(path) {
        Some(e) => {
            let e = text::ascii_lower(e);
            e == "c"@ || e == "cpp"@ || e == "cc"@ || e == "cxx"@ || e == "pyx"@ || e == "pxd"@
        },
        None => false,
    }
}

/// The position of the first file that has to be compiled.
pub open spec fn is_first_compiled(files: Seq<Seq<char>>, i: int) -> bool {
    &&& 0 <= i < files.len()
    &&& is_compiled_source(files[i])
    &&& forall|j: int| 0 <= j < i ==> !is_compiled_source(#[trigger] files[j])
}

fn compiled_source(path: &str) -> (r: bool)
    ensures
        r == is_compiled_source(path@),
{
    match extract::extension_of(path) {
        Some(e) => {
            let e = chars::of(e.as_str());
            let e = chars::ascii_lower(&e);
            chars::is(&e, "c") || chars::is(&e, "cpp") || chars::is(&e, "cc") || chars::is(
                &e,
                "cxx",
            ) || chars::is(&e, "pyx") || chars::is(&e, "pxd")
        },
        None => false,
    }
}

/// The first file that has to be compiled, if there is one.
pub fn find_compiled_source(files: &Vec<String>) -> (r: Option<&String>)
    ensures
        match r {
            Some(f) => exists|i: int| #[trigger]
                is_first_compiled(text::views(files@), i) && *f == files@[i],
            None => forall|i: int| !#[trigger] is_first_compiled(text::views(files@), i),
        },
{
    let ghost texts = text::views(files@);
    let mut i: usize = 0;
    while i < files.len()
        invariant
            i <= files.len(),
            texts == text::views(files@),
            forall|j: int| 0 <= j < i ==> !is_compiled_source(#[trigger] texts[j]),
        decreases files.len() - i,
    {
        assert(texts[i as int] == files@[i as int]@);
        if compiled_source(files[i].as_str()) {
            assert(is_first_compiled(texts, i as int));
            return Some(&files[i]);
        }
        i = i + 1;
    }
    None
}

// ── Metadata ────────────────────────────────────────────────────────────────
/// The lines that declare dependencies.
pub open spec fn requirement_lines(deps: Seq<Seq<char>>) -> Seq<char>
    decreases deps.len(),
{
    if deps.len() == 0 {
        Seq::empty()
    } else {
        requirement_lines(deps.drop_last()) + "Requires-Dist: "@ + text::trim(deps.last()) + "\n"@
    }
}

/// The content of the `METADATA` file of a package.
pub open spec fn metadata(name: Seq<char>, version: Seq<char>, deps: Seq<Seq<char>>) -> Seq<char> {
    "Metadata-Version: 2.1\nName: "@ + name + "\nVersion: "@ + version + "\n"@
        + requirement_lines(deps)
}

/// The content of the `METADATA` file of a package with what it depends on.
pub fn metadata_text(name: &str, version: &str, requires_dist: &[String]) -> (r: String)
    ensures
        r@ == metadata(name@, version@, text::views(requires_dist@)),
{
    let mut out = String::from_str("Metadata-Version: 2.1\nName: ");
    out.append(name);
    out.append("\nVersion: ");
    out.append(version);
    out.append("\n");
    let ghost head = out@;
    let ghost deps = text::views(requires_dist@);
    let mut i: usize = 0;
    assert(head =~= head + requirement_lines(deps.take(0)));
    while i < requires_dist.len()
        invariant
            i <= requires_dist.len(),
            deps == text::views(requires_dist@),
            out@ == head + requirement_lines(deps.take(i as int)),
        decreases requires_dist.len() - i,
    {
        proof {
            assert(deps.take(i + 1).drop_last() =~= deps.take(i as int));
            assert(deps.take(i + 1).last() == requires_dist@[i as int]@);
        }
        out.append("Requires-Dist: ");
        let dep = chars::of(requires_dist[i].as_str());
        out.append(chars::to_string(chars::trim(&dep)).as_str());
        out.append("\n");
        i = i + 1;
        assert(out@ =~= head + requirement_lines(deps.take(i as int)));
    }
    assert(deps.take(i as int) =~= deps);
    out
}

/// A text has no newline.
pub open spec fn one_line(s: Seq<char>) -> bool {
    forall|i: int| 0 <= i < s.len() ==> #[trigger] s[i] != '\n'
}

proof fn first_newline(s: Seq<char>, n: int, i: int)
    requires
        0 <= i <= n < s.len(),
        s[n] == '\n',
        forall|j: int| 0 <= j < n ==> #[trigger] s[j] != '\n',
    ensures
        text::find_from(s, seq!['\n'], i) == Some(n),
    decreases n - i,
{
    assert(s.subrange(i, i + 1)[0] == s[i]);
    if i < n {
        assert(seq!['\n'][0] == '\n');
        first_newline(s, n, i + 1);
    } else {
        assert(s.subrange(i, i + 1) =~= seq!['\n']);
    }
}

/// A text that is empty or ends with a newline.
pub open spec fn whole_lines(s: Seq<char>) -> bool {
    s.len() == 0 || s.last() == '\n'
}

/// A line behind whole lines is the last line.
proof fn line_behind(s: Seq<char>, line: Seq<char>)
    requires
        whole_lines(s),
        one_line(line),
    ensures
        text::lines(s + line + seq!['\n']) == text::lines(s).push(text::strip_cr(line)),
        whole_lines(s + line + seq!['\n']),
    decreases s.len(),
{
    let all = s + line + seq!['\n'];
    if s.len() == 0 {
        assert(s =~= Seq::empty());
        assert(all =~= line + seq!['\n']);
        first_newline(all, line.len() as int, 0);
        assert(all.take(line.len() as int) =~= line);
        assert(all.skip(line.len() as int + 1) =~= Seq::empty());
        assert(text::lines(all) =~= text::lines(s).push(text::strip_cr(line)));
    } else {
        newline_exists(s, s.len() - 1);
        let n = choose|n: int|
            0 <= n < s.len() && s[n] == '\n' && forall|j: int| 0 <= j < n ==> #[trigger] s[j] != '\n';
        first_newline(s, n, 0);
        assert forall|j: int| 0 <= j < n implies #[trigger] all[j] != '\n' by {
            assert(all[j] == s[j]);
        }
        first_newline(all, n, 0);
        let rest = s.skip(n + 1);
        line_behind(rest, line);
        assert(all.skip(n + 1) =~= rest + line + seq!['\n']);
        assert(all.take(n) =~= s.take(n));
        assert(text::lines(all) =~= text::lines(s).push(text::strip_cr(line)));
    }
}

/// Where there is a newline, there is a first one.
proof fn newline_exists(s: Seq<char>, k: int)
    requires
        0 <= k < s.len(),
        s[k] == '\n',
    ensures
        exists|n: int|
            0 <= n < s.len() && s[n] == '\n' && forall|j: int|
                0 <= j < n ==> #[trigger] s[j] != '\n',
    decreases k,
{
    if exists|j: int| 0 <= j < k && s[j] == '\n' {
        let j = choose|j: int| 0 <= j < k && s[j] == '\n';
        newline_exists(s, j);
    }
}

proof fn trimmed_start(s: Seq<char>)
    ensures
        text::trim_start(s).len() == 0 || !text::is_whitespace(text::trim_start(s)[0]),
        text::trim_start(text::trim_start(s)) == text::trim_start(s),
        one_line(s) ==> one_line(text::trim_start(s)),
    decreases s.len(),
{
    if s.len() > 0 && text::is_whitespace(s[0]) {
        trimmed_start(s.skip(1));
    }
}

proof fn trimmed_end(s: Seq<char>)
    ensures
        text::trim_end(s).len() <= s.len(),
        text::trim_end(s) == s.take(text::trim_end(s).len() as int),
        text::trim_end(s).len() == 0 || !text::is_whitespace(text::trim_end(s).last()),
        text::trim_end(text::trim_end(s)) == text::trim_end(s),
    decreases s.len(),
{
    if s.len() > 0 && text::is_whitespace(s.last()) {
        trimmed_end(s.drop_last());
        assert(s.drop_last().take(text::trim_end(s).len() as int) =~= s.take(
            text::trim_end(s).len() as int,
        ));
    } else {
        assert(s =~= s.take(s.len() as int));
    }
}

/// Trimming what is trimmed, with a space before it, gives it back.
proof fn trim_again(s: Seq<char>)
    ensures
        text::trim(seq![' '] + text::trim(s)) == text::trim(s),
        text::strip_cr(text::trim(s)) == text::trim(s),
        one_line(s) ==> one_line(text::trim(s)),
{
    let t = text::trim(s);
    trimmed_start(s);
    trimmed_end(text::trim_start(s));
    assert((seq![' '] + t).skip(1) =~= t);
    assert((seq![' '] + t)[0] == ' ');
    assert(text::is_whitespace(' '));
    assert(text::trim_start(seq![' '] + t) == text::trim_start(t));
    if t.len() > 0 {
        assert(t[0] == text::trim_start(s)[0]);
        assert(text::trim_start(t) == t);
    }
}

/// What is written of the dependencies of a package is read back as it was, but
/// for space around it.
pub proof fn requirements_are_read_back(
    name: Seq<char>,
    version: Seq<char>,
    deps: Seq<Seq<char>>,
)
    requires
        one_line(name),
        one_line(version),
        forall|i: int| 0 <= i < deps.len() ==> one_line(#[trigger] deps[i]),
    ensures
        config::requires_among(text::lines(metadata(name, version, deps))) == Seq::new(
            deps.len(),
            |i: int| text::trim(deps[i]),
        ),
        whole_lines(metadata(name, version, deps)),
    decreases deps.len(),
{
    reveal_strlit("Metadata-Version: 2.1\nName: ");
    reveal_strlit("\nVersion: ");
    reveal_strlit("\n");
    reveal_strlit("Requires-Dist: ");
    reveal_strlit("Requires-Dist:");
    if deps.len() == 0 {
        let first = seq![
            'M',
            'e',
            't',
            'a',
            'd',
            'a',
            't',
            'a',
            '-',
            'V',
            'e',
            'r',
            's',
            'i',
            'o',
            'n',
            ':',
            ' ',
            '2',
            '.',
            '1',
        ];
        let second = seq!['N', 'a', 'm', 'e', ':', ' '] + name;
        let third = seq!['V', 'e', 'r', 's', 'i', 'o', 'n', ':', ' '] + version;
        let empty = Seq::<char>::empty();
        let l1 = empty + first + seq!['\n'];
        let l2 = l1 + second + seq!['\n'];
        let l3 = l2 + third + seq!['\n'];
        assert(one_line(first));
        assert(one_line(second)) by {
            assert forall|i: int| 0 <= i < second.len() implies #[trigger] second[i] != '\n' by {
                if i >= 6 {
                    assert(second[i] == name[i - 6]);
                }
            }
        }
        assert(one_line(third)) by {
            assert forall|i: int| 0 <= i < third.len() implies #[trigger] third[i] != '\n' by {
                if i >= 9 {
                    assert(third[i] == version[i - 9]);
                }
            }
        }
        line_behind(empty, first);
        line_behind(l1, second);
        line_behind(l2, third);
        assert(metadata(name, version, deps) =~= l3);
        let all = text::lines(l3);
        assert(text::lines(empty) =~= Seq::empty());
        assert(all =~= seq![
            text::strip_cr(first),
            text::strip_cr(second),
            text::strip_cr(third),
        ]);
        let mark = "Requires-Dist:"@;
        assert(mark[0] == 'R');
        assert(text::strip_cr(first)[0] == 'M');
        assert(text::strip_cr(second)[0] == 'N');
        assert(text::strip_cr(third)[0] == 'V');
        assert(all.drop_last() =~= seq![text::strip_cr(first), text::strip_cr(second)]);
        assert(all.drop_last().drop_last() =~= seq![text::strip_cr(first)]);
        assert(all.drop_last().drop_last().drop_last() =~= Seq::empty());
        reveal_with_fuel(config::requires_among, 4);
        assert(!mark.is_prefix_of(all.last()));
        assert(!mark.is_prefix_of(all.drop_last().last()));
        assert(!mark.is_prefix_of(all.drop_last().drop_last().last()));
        assert(config::requires_among(all) =~= Seq::empty());
    } else {
        let front = deps.drop_last();
        assert forall|i: int| 0 <= i < front.len() implies one_line(#[trigger] front[i]) by {
            assert(front[i] == deps[i]);
        }
        requirements_are_read_back(name, version, front);
        let before = metadata(name, version, front);
        let dep = text::trim(deps.last());
        let line = "Requires-Dist: "@ + dep;
        assert(one_line(deps[deps.len() - 1]));
        trim_again(deps.last());
        assert(one_line(line)) by {
            assert forall|i: int| 0 <= i < line.len() implies #[trigger] line[i] != '\n' by {
                if i >= 15 {
                    assert(line[i] == dep[i - 15]);
                }
            }
        }
        line_behind(before, line);
        assert(metadata(name, version, deps) =~= before + line + seq!['\n']);
        assert(text::strip_cr(line) == line) by {
            if dep.len() > 0 {
                assert(line.last() == dep.last());
                assert(text::strip_cr(dep) == dep);
            }
        }
        let all = text::lines(metadata(name, version, deps));
        assert(all.drop_last() =~= text::lines(before));
        assert(all.last() == line);
        assert("Requires-Dist:"@ =~= line.take(14));
        assert("Requires-Dist:"@.is_prefix_of(line));
        assert(line.skip(14) =~= seq![' '] + dep);
        assert(config::requires_among(all) =~= Seq::new(
            deps.len(),
            |i: int| text::trim(deps[i]),
        ));
    }
}

// ── Installing ──────────────────────────────────────────────────────────────
/// What is known of a source distribution that was extracted.
#[derive(Debug)]
pub struct SdistTree {
    /// The directory of its sources.
    pub root: String,
    /// The files below that.
    pub files: Vec<String>,
    /// The entries of that directory.
    pub entries: Vec<SourceEntry>,
    /// The entries of the directory `src` in it, where there is one.
    pub src_entries: Option<Vec<SourceEntry>>,
}

/// Why a source distribution is not installed.
#[derive(Debug)]
pub enum SdistError {
    /// It has a file to compile.
    Compiled { name: String, version: String, file: String },
    /// It has nothing that could be imported.
    NothingToImport { name: String, version: String, base: String },
}

impl SdistError {
    /// What is said of it.
    pub fn message(&self) -> (r: String)
        ensures
            r@ == match self {
                SdistError::Compiled { name, version, file } => "package '"@ + name@ + "=="@
                    + version@ + "' is a compiled sdist (found '"@ + file@
                    + "') — kong installs pure-Python sdists only and has no C/build toolchain. Use a version that publishes a wheel for this platform, or install a build toolchain."@,
                SdistError::NothingToImport { name, version, base } => "package '"@ + name@ + "=="@
                    + version@ + "' sdist has no importable top-level module or package under "@
                    + base@ + " — kong cannot install it (not a simple pure-Python layout)"@,
            },
    {
        let mut out = String::from_str("package '");
        match self {
            SdistError::Compiled { name, version, file } => {
                out.append(name.as_str());
                out.append("==");
                out.append(version.as_str());
                out.append("' is a compiled sdist (found '");
                out.append(file.as_str());
                out.append(
                    "') — kong installs pure-Python sdists only and has no C/build toolchain. Use a version that publishes a wheel for this platform, or install a build toolchain.",
                );
            },
            SdistError::NothingToImport { name, version, base } => {
                out.append(name.as_str());
                out.append("==");
                out.append(version.as_str());
                out.append("' sdist has no importable top-level module or package under ");
                out.append(base.as_str());
                out.append(" — kong cannot install it (not a simple pure-Python layout)");
            },
        }
        out
    }
}

/// The step that copies an item into the store.
pub open spec fn item_step(item: (Seq<char>, bool), base: Seq<char>, store: Seq<char>) -> ActionModel {
    let path = paths::joined(store, item.0);
    let source = paths::joined(base, item.0);
    if item.1 {
        ActionModel::CopyFiles(path, source)
    } else {
        ActionModel::CopyFile(path, source)
    }
}

/// The steps that install items, with the metadata of the package.
pub open spec fn install_steps(
    items: Seq<(Seq<char>, bool)>,
    base: Seq<char>,
    store: Seq<char>,
    name: Seq<char>,
    version: Seq<char>,
    deps: Seq<Seq<char>>,
) -> Seq<ActionModel> {
    let info = paths::joined(store, name + "-"@ + version + ".dist-info"@);
    seq![ActionModel::CreateDir(store)] + Seq::new(
        items.len(),
        |i: int| item_step(items[i], base, store),
    ) + seq![
        ActionModel::CreateDir(info),
        ActionModel::Write(paths::joined(info, "METADATA"@), metadata(name, version, deps)),
    ]
}

/// The directory of the modules of a distribution.
pub open spec fn base_of(t: SdistTree) -> Seq<char> {
    import_base(
        t.root@,
        match t.src_entries {
            Some(v) => Some(v@),
            None => None,
        },
    )
}

/// The entries of that directory.
pub open spec fn base_entries(t: SdistTree) -> Seq<SourceEntry> {
    match t.src_entries {
        Some(v) => if importable(v@).len() > 0 {
            v@
        } else {
            t.entries@
        },
        None => t.entries@,
    }
}

/// The steps that install a source distribution into the store, at `store_path`.
/// One with a file to compile, or with nothing to import, is refused.
pub fn install_sdist(
    tree: &SdistTree,
    store_path: &str,
    name: &str,
    version: &str,
    requires_dist: &[String],
) -> (r: Result<Vec<FsAction>, SdistError>)
    ensures
        ({
            let files = text::views(tree.files@);
            match r {
                Ok(steps) => {
                    &&& forall|i: int| !#[trigger] is_first_compiled(files, i)
                    &&& importable(base_entries(*tree)).len() > 0
                    &&& exists|items: Seq<(Seq<char>, bool)>|
                        {
                            &&& in_order(items)
                            &&& items.to_multiset() == importable(base_entries(*tree)).to_multiset()
                            &&& actions::action_views(steps@) == #[trigger] install_steps(
                                items,
                                base_of(*tree),
                                store_path@,
                                name@,
                                version@,
                                text::views(requires_dist@),
                            )
                        }
                },
                Err(SdistError::Compiled { name: n, version: v, file }) => {
                    &&& n@ == name@
                    &&& v@ == version@
                    &&& exists|i: int| #[trigger]
                        is_first_compiled(files, i) && file@ == files[i]
                },
                Err(SdistError::NothingToImport { name: n, version: v, base }) => {
                    &&& n@ == name@
                    &&& v@ == version@
                    &&& base@ == base_of(*tree)
                    &&& forall|i: int| !#[trigger] is_first_compiled(files, i)
                    &&& importable(base_entries(*tree)).len() == 0
                },
            }
        }),
{
    if let Some(file) = find_compiled_source(&tree.files) {
        proof {
            let i = choose|i: int| #[trigger]
                is_first_compiled(text::views(tree.files@), i) && *file == tree.files@[i];
            assert(text::views(tree.files@)[i] == file@);
        }
        return Err(
            SdistError::Compiled {
                name: String::from_str(name),
                version: String::from_str(version),
                file: file.clone(),
            },
        );
    }
    let (base, entries) = pick_import_base(
        tree.root.as_str(),
        &tree.entries,
        tree.src_entries.as_ref(),
    );
    assert(base@ == base_of(*tree));
    assert(entries@ == base_entries(*tree));
    let items = collect_importable(entries);
    if items.len() == 0 {
        return Err(
            SdistError::NothingToImport {
                name: String::from_str(name),
                version: String::from_str(version),
                base,
            },
        );
    }
    let ghost models = item_views(items@);
    let mut steps: Vec<FsAction> = Vec::new();
    assert(actions::action_views(steps@) =~= Seq::empty());
    actions::add_step(&mut steps, FsAction::CreateDir { path: String::from_str(store_path) });
    let ghost start = actions::action_views(steps@);
    let ghost copies = Seq::new(
        models.len(),
        |i: int| item_step(models[i], base@, store_path@),
    );
    let mut i: usize = 0;
    assert(start =~= start + copies.take(0));
    while i < items.len()
        invariant
            i <= items.len(),
            models == item_views(items@),
            copies == Seq::new(models.len(), |i: int| item_step(models[i], base@, store_path@)),
            actions::action_views(steps@) == start + copies.take(i as int),
        decreases items.len() - i,
    {
        assert(copies[i as int] == item_step(
            (items@[i as int].name@, items@[i as int].is_dir),
            base@,
            store_path@,
        ));
        let path = paths::join(store_path, items[i].name.as_str());
        let source = paths::join(base.as_str(), items[i].name.as_str());
        if items[i].is_dir {
            actions::add_step(&mut steps, FsAction::CopyFiles { path, source });
        } else {
            actions::add_step(&mut steps, FsAction::CopyFile { path, source });
        }
        i = i + 1;
        assert(actions::action_views(steps@) =~= start + copies.take(i as int));
    }
    assert(copies.take(i as int) =~= copies);
    let mut leaf = String::from_str(name);
    leaf.append("-");
    leaf.append(version);
    leaf.append(".dist-info");
    let info = paths::join(store_path, leaf.as_str());
    actions::add_step(&mut steps, FsAction::CreateDir { path: info.clone() });
    let path = paths::join(info.as_str(), "METADATA");
    let content = metadata_text(name, version, requires_dist);
    actions::add_step(&mut steps, FsAction::Write { path, content });
    assert(actions::action_views(steps@) =~= install_steps(
        models,
        base@,
        store_path@,
        name@,
        version@,
        text::views(requires_dist@),
    ));
    Ok(steps)
}

} // verus!
