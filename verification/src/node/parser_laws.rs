//! What holds of the dependencies that lock files and manifests give: which entries
//! become dependencies, and what becomes of them on a host.
use vstd::prelude::*;

use crate::doc;
use crate::doc::DocModel;
use crate::node::parser;
use crate::node::parser::NodeDepModel;
use crate::node::parser::NodeErrorModel;
use crate::node::platform;
use crate::node::platform::HostModel;
use crate::paths;
use crate::text;
use crate::text_laws;

verus! {

// ── Entries of a lock file ──────────────────────────────────────────────────
/// What two lists of entries come to, one behind the other: the first error, or the
/// dependencies of the one and then those of the other.
pub open spec fn one_then_other(
    a: Result<Seq<NodeDepModel>, NodeErrorModel>,
    b: Result<Seq<NodeDepModel>, NodeErrorModel>,
) -> Result<Seq<NodeDepModel>, NodeErrorModel> {
    match (a, b) {
        (Err(e), _) => Err(e),
        (Ok(_), Err(e)) => Err(e),
        (Ok(x), Ok(y)) => Ok(x + y),
    }
}

/// The entries of a lock file are read one by one: each adds its dependencies behind
/// those of the entries before it, and the first that is refused refuses the file.
pub proof fn entries_add_up(
    a: Seq<(Seq<char>, DocModel)>,
    b: Seq<(Seq<char>, DocModel)>,
    packages: Seq<(Seq<char>, DocModel)>,
    lock_name: Seq<char>,
)
    ensures
        parser::lock_entries(a + b, packages, lock_name) == one_then_other(
            parser::lock_entries(a, packages, lock_name),
            parser::lock_entries(b, packages, lock_name),
        ),
    decreases b.len(),
{
    if b.len() == 0 {
        assert(a + b =~= a);
        if let Ok(x) = parser::lock_entries(a, packages, lock_name) {
            assert(x + Seq::<NodeDepModel>::empty() =~= x);
        }
    } else {
        entries_add_up(a, b.drop_last(), packages, lock_name);
        assert((a + b).drop_last() =~= a + b.drop_last());
        assert((a + b).last() == b.last());
        let next = parser::lock_entry(b.last().0, b.last().1, packages, lock_name);
        let front = parser::lock_entries(b.drop_last(), packages, lock_name);
        if let Ok(x) = parser::lock_entries(a, packages, lock_name) {
            if let Ok(y) = front {
                if let Ok(Some(d)) = next {
                    assert((x + y).push(d) =~= x + y.push(d));
                }
            }
        }
    }
}

proof fn single_entry(
    key: Seq<char>,
    value: DocModel,
    packages: Seq<(Seq<char>, DocModel)>,
    lock_name: Seq<char>,
)
    ensures
        parser::lock_entries(seq![(key, value)], packages, lock_name) == match parser::lock_entry(
            key,
            value,
            packages,
            lock_name,
        ) {
            Ok(Some(d)) => Ok(seq![d]),
            Ok(None) => Ok(Seq::<NodeDepModel>::empty()),
            Err(e) => Err(e),
        },
{
    let one = seq![(key, value)];
    assert(one.drop_last() =~= Seq::<(Seq<char>, DocModel)>::empty());
    assert(parser::lock_entries(one.drop_last(), packages, lock_name) == Ok::<
        Seq<NodeDepModel>,
        NodeErrorModel,
    >(Seq::empty()));
    if let Ok(Some(d)) = parser::lock_entry(key, value, packages, lock_name) {
        assert(Seq::<NodeDepModel>::empty().push(d) =~= seq![d]);
    }
}

/// A path that does not lead out of the project: it starts neither at the root of a
/// file system nor with a step up.
pub open spec fn stays_inside(key: Seq<char>) -> bool {
    &&& !"../"@.is_prefix_of(key)
    &&& !"/"@.is_prefix_of(key)
    &&& !(key.len() >= 3 && ('a' <= key[0] <= 'z' || 'A' <= key[0] <= 'Z') && key[1] == ':' && (
    key[2] == '/' || key[2] == '\\'))
}

/// The key of a package in the tree of a project: `node_modules/` and the name, at the
/// top or in a directory of the project.
pub open spec fn tree_key(dir: Seq<char>, name: Seq<char>) -> Seq<char> {
    dir + "node_modules/"@ + name
}

/// Such a directory: none, or one that ends in a slash and does not lead out.
pub open spec fn is_tree_dir(dir: Seq<char>) -> bool {
    dir.len() == 0 || dir.last() == '/'
}

proof fn leaf_of_tree_key(dir: Seq<char>, name: Seq<char>)
    requires
        !text::contains(name, "node_modules/"@),
        !text::contains("node_modules/"@.skip(1) + name, "node_modules/"@),
    ensures
        parser::leaf(tree_key(dir, name)) == name,
{
    let p = "node_modules/"@;
    let key = tree_key(dir, name);
    let d = dir.len() as int;
    let n = p.len() as int;
    text_laws::rfind_text_is_last(key, p);
    text_laws::find_is_first(p.skip(1) + name, p);
    assert(key.subrange(d, d + n) =~= p);
    let k = text::rfind_text(key, p)->0;
    if k > d {
        let rest = p.skip(1) + name;
        reveal_strlit("node_modules/");
        assert(rest.subrange(k - d - 1, k - d - 1 + n) =~= key.subrange(k, k + n));
        assert(false);
    }
    assert(k == d);
    assert(key.skip(d + n) =~= name);
}

/// The names of packages, with a scope or without, do not make up the directory's name.
proof fn name_is_leaf(name: Seq<char>)
    requires
        !text::contains(name, "node_modules/"@),
    ensures
        !text::contains("node_modules/"@.skip(1) + name, "node_modules/"@),
{
    let p = "node_modules/"@;
    reveal_strlit("node_modules/");
    let rest = p.skip(1) + name;
    let n = p.len() as int;
    text_laws::find_is_first(rest, p);
    text_laws::find_is_first(name, p);
    if text::contains(rest, p) {
        let j = text::find(rest, p)->0;
        let sub = rest.subrange(j, j + n);
        assert(sub == p);
        if j >= n - 1 {
            assert(name.subrange(j - (n - 1), j - (n - 1) + n) =~= sub);
            assert(false);
        } else {
            // The text would have to repeat itself within the directory's name.
            assert(sub[n - 2 - j] == rest[n - 2]);
            assert(rest[n - 2] == '/');
            assert(p[n - 2 - j] == '/');
            assert(false);
        }
    }
}

proof fn tree_key_is_in_tree(dir: Seq<char>, name: Seq<char>)
    requires
        is_tree_dir(dir),
        stays_inside(tree_key(dir, name)),
    ensures
        parser::is_in_tree(tree_key(dir, name)),
        tree_key(dir, name).len() > 0,
{
    let key = tree_key(dir, name);
    reveal_strlit("node_modules/");
    reveal_strlit("/node_modules/");
    if dir.len() == 0 {
        assert(key.subrange(0, 13) =~= "node_modules/"@);
    } else {
        let d = dir.len() as int;
        text_laws::find_is_first(key, "/node_modules/"@);
        assert(key.subrange(d - 1, d - 1 + 14) =~= "/node_modules/"@);
    }
}

/// An entry that is a package of the registry, by the fields that decide it.
pub open spec fn is_registry_entry(fields: Seq<(Seq<char>, DocModel)>, version: Seq<char>) -> bool {
    &&& doc::lookup(fields, "link"@) != Some(DocModel::Bool(true))
    &&& match doc::lookup(fields, "resolved"@) {
        Some(DocModel::Text(from)) => !"file:"@.is_prefix_of(from),
        _ => true,
    }
    &&& doc::lookup(fields, "version"@) == Some(DocModel::Text(version))
    &&& version.len() > 0
}

/// The text under a key of an entry.
pub open spec fn field_text(fields: Seq<(Seq<char>, DocModel)>, key: Seq<char>) -> Option<
    Seq<char>,
> {
    match doc::lookup(fields, key) {
        Some(DocModel::Text(s)) => Some(s),
        _ => None,
    }
}

/// Each entry of `packages` whose key is in the tree, that is no link, does not come
/// from a file and has a version is exactly one dependency of the registry, with the
/// name at the end of its key and its version, whatever other fields it has: so it is
/// with `dev`, with `peer` or without them. It stands between what the entries before
/// it and those behind it give, and where it comes from, its checksum and whether it is
/// optional are those of the entry.
pub proof fn registry_entry_is_one_dep(
    before: Seq<(Seq<char>, DocModel)>,
    dir: Seq<char>,
    name: Seq<char>,
    fields: Seq<(Seq<char>, DocModel)>,
    version: Seq<char>,
    behind: Seq<(Seq<char>, DocModel)>,
    lock_fields: Seq<(Seq<char>, DocModel)>,
    lock_name: Seq<char>,
)
    requires
        !text::contains(name, "node_modules/"@),
        is_tree_dir(dir),
        stays_inside(tree_key(dir, name)),
        is_registry_entry(fields, version),
        doc::lookup(lock_fields, "packages"@) == Some(
            DocModel::Table(
                before + seq![(tree_key(dir, name), DocModel::Table(fields))] + behind,
            ),
        ),
    ensures
        ({
            let packages = before + seq![(tree_key(dir, name), DocModel::Table(fields))] + behind;
            let first = parser::lock_entries(before, packages, lock_name);
            let last = parser::lock_entries(behind, packages, lock_name);
            match parser::package_lock_deps(DocModel::Table(lock_fields), lock_name) {
                Ok(deps) => {
                    &&& first is Ok && last is Ok
                    &&& deps.len() == first->Ok_0.len() + 1 + last->Ok_0.len()
                    &&& deps.take(first->Ok_0.len() as int) == first->Ok_0
                    &&& deps.skip(first->Ok_0.len() as int + 1) == last->Ok_0
                    &&& {
                        let d = deps[first->Ok_0.len() as int];
                        &&& d.name == name
                        &&& d.version == version
                        &&& d.local is None
                        &&& d.resolved == field_text(fields, "resolved"@)
                        &&& d.integrity == field_text(fields, "integrity"@)
                        &&& d.optional == (doc::lookup(fields, "optional"@) == Some(
                            DocModel::Bool(true),
                        ))
                    }
                },
                Err(_) => first is Err || last is Err,
            }
        }),
{
    let key = tree_key(dir, name);
    let value = DocModel::Table(fields);
    let one = seq![(key, value)];
    let packages = before + one + behind;
    name_is_leaf(name);
    leaf_of_tree_key(dir, name);
    tree_key_is_in_tree(dir, name);
    entries_add_up(before, one, packages, lock_name);
    entries_add_up(before + one, behind, packages, lock_name);
    single_entry(key, value, packages, lock_name);
    let d = parser::registry_dep(name, version, value);
    assert(parser::lock_entry(key, value, packages, lock_name) == Ok::<
        Option<NodeDepModel>,
        NodeErrorModel,
    >(Some(d)));
    if let Ok(x) = parser::lock_entries(before, packages, lock_name) {
        if let Ok(y) = parser::lock_entries(behind, packages, lock_name) {
            let all = x + seq![d] + y;
            assert(all.take(x.len() as int) =~= x);
            assert(all.skip(x.len() as int + 1) =~= y);
        }
    }
}

/// An entry whose `os`, `cpu` and `libc` are lists of texts constrains its dependency
/// to those, in their order.
pub proof fn constraints_are_lists(
    name: Seq<char>,
    version: Seq<char>,
    fields: Seq<(Seq<char>, DocModel)>,
    os: Seq<Seq<char>>,
    cpu: Seq<Seq<char>>,
    libc: Seq<Seq<char>>,
)
    requires
        doc::lookup(fields, "os"@) == Some(
            DocModel::List(Seq::new(os.len(), |i: int| DocModel::Text(os[i]))),
        ),
        doc::lookup(fields, "cpu"@) == Some(
            DocModel::List(Seq::new(cpu.len(), |i: int| DocModel::Text(cpu[i]))),
        ),
        doc::lookup(fields, "libc"@) == Some(
            DocModel::List(Seq::new(libc.len(), |i: int| DocModel::Text(libc[i]))),
        ),
    ensures
        ({
            let d = parser::registry_dep(name, version, DocModel::Table(fields));
            d.os == os && d.cpu == cpu && d.libc == libc
        }),
{
    list_of_texts(os);
    list_of_texts(cpu);
    list_of_texts(libc);
}

proof fn list_of_texts(s: Seq<Seq<char>>)
    ensures
        parser::texts_among(Seq::new(s.len(), |i: int| DocModel::Text(s[i]))) == s,
    decreases s.len(),
{
    let items = Seq::new(s.len(), |i: int| DocModel::Text(s[i]));
    if s.len() == 0 {
        assert(s =~= Seq::empty());
    } else {
        let front = s.drop_last();
        list_of_texts(front);
        assert(items.drop_last() =~= Seq::new(front.len(), |i: int| DocModel::Text(front[i])));
        assert(front.push(s.last()) =~= s);
    }
}

/// The entry of the project itself, and entries outside the tree that are no links,
/// add nothing; nor does an entry in the tree without a version.
pub proof fn other_entries_add_nothing(
    key: Seq<char>,
    fields: Seq<(Seq<char>, DocModel)>,
    packages: Seq<(Seq<char>, DocModel)>,
    lock_name: Seq<char>,
)
    requires
        ({
            ||| key.len() == 0
            ||| doc::lookup(fields, "link"@) != Some(DocModel::Bool(true)) && !text::contains(
                key,
                "node_modules/"@,
            )
            ||| doc::lookup(fields, "link"@) != Some(DocModel::Bool(true)) && doc::lookup(
                fields,
                "version"@,
            ) is None && doc::lookup(fields, "resolved"@) is None
        }),
    ensures
        parser::lock_entries(seq![(key, DocModel::Table(fields))], packages, lock_name) == Ok::<
            Seq<NodeDepModel>,
            NodeErrorModel,
        >(Seq::empty()),
{
    single_entry(key, DocModel::Table(fields), packages, lock_name);
    if !text::contains(key, "node_modules/"@) {
        text_laws::find_is_first(key, "node_modules/"@);
        text_laws::find_is_first(key, "/node_modules/"@);
        reveal_strlit("node_modules/");
        reveal_strlit("/node_modules/");
        if "node_modules/"@.is_prefix_of(key) {
            assert(key.subrange(0, 0 + 13int) == "node_modules/"@);
        }
        if text::contains(key, "/node_modules/"@) {
            let j = text::find(key, "/node_modules/"@)->0;
            let sub = key.subrange(j, j + 14);
            assert(key.subrange(j + 1, j + 1 + 13) =~= sub.skip(1));
            assert("/node_modules/"@.skip(1) =~= "node_modules/"@);
            assert(false);
        }
    }
}

/// A link at the top of the tree to a directory outside any `node_modules` is one local
/// package: with the name of the link, the directory that it points to and the version
/// of the entry that describes the directory, or `0.0.0` where none does.
pub proof fn link_is_one_local_dep(
    name: Seq<char>,
    fields: Seq<(Seq<char>, DocModel)>,
    dir: Seq<char>,
    packages: Seq<(Seq<char>, DocModel)>,
    lock_name: Seq<char>,
)
    requires
        !text::contains(name, "node_modules/"@),
        doc::lookup(fields, "link"@) == Some(DocModel::Bool(true)),
        doc::lookup(fields, "resolved"@) == Some(DocModel::Text(dir)),
        !text::contains(paths::slashed(dir), "node_modules/"@),
    ensures
        ({
            let key = "node_modules/"@ + name;
            match parser::lock_entries(
                seq![(key, DocModel::Table(fields))],
                packages,
                lock_name,
            ) {
                Ok(deps) => {
                    &&& deps.len() == 1
                    &&& deps[0].name == name
                    &&& deps[0].local is Some
                    &&& deps[0].local->0.path == paths::slashed(dir)
                    &&& deps[0].os.len() == 0 && deps[0].cpu.len() == 0 && deps[0].libc.len() == 0
                    &&& deps[0].version == match doc::lookup(packages, dir) {
                        Some(DocModel::Table(target)) => match doc::lookup(target, "version"@) {
                            Some(DocModel::Text(v)) => v,
                            _ => "0.0.0"@,
                        },
                        _ => "0.0.0"@,
                    }
                    &&& deps[0].optional == (doc::lookup(fields, "optional"@) == Some(
                        DocModel::Bool(true),
                    ))
                },
                Err(_) => false,
            }
        }),
{
    let key = "node_modules/"@ + name;
    let none = Seq::<char>::empty();
    single_entry(key, DocModel::Table(fields), packages, lock_name);
    assert(tree_key(none, name) =~= key);
    name_is_leaf(name);
    leaf_of_tree_key(none, name);
    reveal_strlit("node_modules/");
    reveal_strlit("/node_modules/");
    assert(key.subrange(0, 13) =~= "node_modules/"@);
    assert(key.skip(13) =~= name);
    without_longer(name);
    without_longer(paths::slashed(dir));
    text_laws::find_is_first(paths::slashed(dir), "node_modules/"@);
    if "node_modules/"@.is_prefix_of(paths::slashed(dir)) {
        assert(paths::slashed(dir).subrange(0, 0 + 13int) == "node_modules/"@);
    }
}

proof fn without_longer(s: Seq<char>)
    requires
        !text::contains(s, "node_modules/"@),
    ensures
        !text::contains(s, "/node_modules/"@),
{
    reveal_strlit("node_modules/");
    reveal_strlit("/node_modules/");
    text_laws::find_is_first(s, "node_modules/"@);
    text_laws::find_is_first(s, "/node_modules/"@);
    if text::contains(s, "/node_modules/"@) {
        let j = text::find(s, "/node_modules/"@)->0;
        let sub = s.subrange(j, j + 14);
        assert(s.subrange(j + 1, j + 1 + 13) =~= sub.skip(1));
        assert("/node_modules/"@.skip(1) =~= "node_modules/"@);
    }
}

/// An entry in the tree that comes from a file is a local package where the file is a
/// directory, and refused where it is a packed one, by each of the endings that those
/// have, in capital letters too.
pub proof fn file_entry_is_local_or_refused(
    dir: Seq<char>,
    name: Seq<char>,
    fields: Seq<(Seq<char>, DocModel)>,
    path: Seq<char>,
    packages: Seq<(Seq<char>, DocModel)>,
    lock_name: Seq<char>,
)
    requires
        !text::contains(name, "node_modules/"@),
        is_tree_dir(dir),
        stays_inside(tree_key(dir, name)),
        doc::lookup(fields, "link"@) != Some(DocModel::Bool(true)),
        doc::lookup(fields, "resolved"@) == Some(DocModel::Text("file:"@ + path)),
    ensures
        ({
            let packed = ".tgz"@.is_suffix_of(text::ascii_lower(path)) || ".tar.gz"@.is_suffix_of(
                text::ascii_lower(path),
            ) || ".tar"@.is_suffix_of(text::ascii_lower(path));
            match parser::lock_entries(
                seq![(tree_key(dir, name), DocModel::Table(fields))],
                packages,
                lock_name,
            ) {
                Ok(deps) => {
                    &&& !packed
                    &&& deps.len() == 1
                    &&& deps[0].name == name
                    &&& deps[0].local is Some
                    &&& deps[0].local->0.path == paths::slashed(path)
                    &&& deps[0].version == match doc::lookup(fields, "version"@) {
                        Some(DocModel::Text(v)) => v,
                        _ => "0.0.0"@,
                    }
                },
                Err(e) => packed && e == (NodeErrorModel::LockTarball {
                    lock_name,
                    key: tree_key(dir, name),
                    resolved: "file:"@ + path,
                }),
            }
        }),
{
    let key = tree_key(dir, name);
    single_entry(key, DocModel::Table(fields), packages, lock_name);
    name_is_leaf(name);
    leaf_of_tree_key(dir, name);
    tree_key_is_in_tree(dir, name);
    let from = "file:"@ + path;
    reveal_strlit("file:");
    assert(from.subrange(0, 5) =~= "file:"@);
    assert(from.skip(5) =~= path);
}

// ── Old lock files ──────────────────────────────────────────────────────────
/// In a lock file without `packages`, each entry of `dependencies` with a version is a
/// dependency with that name and version, followed by those that are nested in it, and
/// the entries stand in their order.
pub proof fn nested_entries_are_deps(
    before: Seq<(Seq<char>, DocModel)>,
    name: Seq<char>,
    fields: Seq<(Seq<char>, DocModel)>,
    version: Seq<char>,
    nested: Seq<(Seq<char>, DocModel)>,
    lock_fields: Seq<(Seq<char>, DocModel)>,
    lock_name: Seq<char>,
)
    requires
        doc::lookup(lock_fields, "packages"@) is None,
        doc::lookup(lock_fields, "dependencies"@) == Some(
            DocModel::Table(before.push((name, DocModel::Table(fields)))),
        ),
        doc::lookup(fields, "version"@) == Some(DocModel::Text(version)),
        version.len() > 0,
        !"file:"@.is_prefix_of(version),
        !"link:"@.is_prefix_of(version),
        doc::lookup(fields, "dependencies"@) == Some(DocModel::Table(nested)),
    ensures
        match parser::package_lock_deps(DocModel::Table(lock_fields), lock_name) {
            Ok(deps) => {
                let first = parser::v1_entries(before);
                let inner = parser::v1_entries(nested);
                &&& deps.len() == first.len() + 1 + inner.len()
                &&& deps.take(first.len() as int) == first
                &&& deps.skip(first.len() as int + 1) == inner
                &&& deps[first.len() as int].name == name
                &&& deps[first.len() as int].version == version
                &&& deps[first.len() as int].local is None
                &&& deps[first.len() as int].integrity == field_text(fields, "integrity"@)
                &&& deps[first.len() as int].resolved == field_text(fields, "resolved"@)
            },
            Err(_) => false,
        },
{
    let value = DocModel::Table(fields);
    let all = before.push((name, value));
    assert(all.drop_last() =~= before);
    assert(all.last() == (name, value));
    let first = parser::v1_entries(before);
    let inner = parser::v1_entries(nested);
    let d = parser::registry_dep(name, version, value);
    assert(parser::v1_entry(name, value) == seq![d] + inner);
    let deps = first + (seq![d] + inner);
    assert(parser::v1_entries(all) == deps);
    assert(deps.take(first.len() as int) =~= first);
    assert(deps.skip(first.len() as int + 1) =~= inner);
}

// ── Manifests ───────────────────────────────────────────────────────────────
/// A manifest with one section.
pub open spec fn only(section: Seq<char>, entries: Seq<(Seq<char>, DocModel)>) -> DocModel {
    DocModel::Table(seq![(section, DocModel::Table(entries))])
}

proof fn section_of_only(section: Seq<char>, entries: Seq<(Seq<char>, DocModel)>, other: Seq<char>)
    ensures
        doc::get(only(section, entries), section) == Some(DocModel::Table(entries)),
        other != section ==> doc::get(only(section, entries), other) is None,
{
    let one = seq![(section, DocModel::Table(entries))];
    assert(one.skip(1) =~= Seq::<(Seq<char>, DocModel)>::empty());
    assert(doc::lookup(one.skip(1), other) is None);
    if other != section {
        assert(doc::lookup(one, other) == doc::lookup(one.skip(1), other));
    }
}

proof fn section_behind(
    front: Result<Seq<NodeDepModel>, NodeErrorModel>,
    path: Seq<char>,
    section: Seq<char>,
    entries: Seq<(Seq<char>, DocModel)>,
)
    ensures
        parser::manifest_entries(front, path, section, entries) == one_then_other(
            front,
            parser::manifest_entries(Ok(Seq::empty()), path, section, entries),
        ),
    decreases entries.len(),
{
    let none = Ok::<Seq<NodeDepModel>, NodeErrorModel>(Seq::empty());
    if entries.len() == 0 {
        if let Ok(x) = front {
            assert(x + Seq::<NodeDepModel>::empty() =~= x);
        }
    } else {
        section_behind(front, path, section, entries.drop_last());
        let next = parser::manifest_entry(path, section, entries.last().0, entries.last().1);
        if let Ok(x) = front {
            if let Ok(y) = parser::manifest_entries(none, path, section, entries.drop_last()) {
                if let Ok(Some(d)) = next {
                    assert((x + y).push(d) =~= x + y.push(d));
                }
            }
        }
    }
}

/// A manifest gives the dependencies of `dependencies` and then those of
/// `devDependencies`, each section as it would by itself, and no other section gives
/// any.
pub proof fn both_sections_are_read(
    fields: Seq<(Seq<char>, DocModel)>,
    deps: Seq<(Seq<char>, DocModel)>,
    dev: Seq<(Seq<char>, DocModel)>,
    path: Seq<char>,
)
    requires
        doc::lookup(fields, "dependencies"@) == Some(DocModel::Table(deps)),
        doc::lookup(fields, "devDependencies"@) == Some(DocModel::Table(dev)),
    ensures
        parser::package_json_deps(DocModel::Table(fields), path) == one_then_other(
            parser::package_json_deps(only("dependencies"@, deps), path),
            parser::package_json_deps(only("devDependencies"@, dev), path),
        ),
{
    reveal_strlit("dependencies");
    reveal_strlit("devDependencies");
    assert("dependencies"@.len() != "devDependencies"@.len());
    section_of_only("dependencies"@, deps, "devDependencies"@);
    section_of_only("devDependencies"@, dev, "dependencies"@);
    let none = Ok::<Seq<NodeDepModel>, NodeErrorModel>(Seq::empty());
    let first = parser::manifest_entries(none, path, "dependencies"@, deps);
    section_behind(first, path, "devDependencies"@, dev);
}

/// A manifest without one of the sections gives what the other one gives.
pub proof fn one_section_is_read(
    fields: Seq<(Seq<char>, DocModel)>,
    entries: Seq<(Seq<char>, DocModel)>,
    path: Seq<char>,
)
    ensures
        doc::lookup(fields, "dependencies"@) == Some(DocModel::Table(entries)) && doc::lookup(
            fields,
            "devDependencies"@,
        ) is None ==> parser::package_json_deps(DocModel::Table(fields), path)
            == parser::package_json_deps(only("dependencies"@, entries), path),
        doc::lookup(fields, "devDependencies"@) == Some(DocModel::Table(entries)) && doc::lookup(
            fields,
            "dependencies"@,
        ) is None ==> parser::package_json_deps(DocModel::Table(fields), path)
            == parser::package_json_deps(only("devDependencies"@, entries), path),
        doc::lookup(fields, "devDependencies"@) is None && doc::lookup(fields, "dependencies"@)
            is None ==> parser::package_json_deps(DocModel::Table(fields), path) == Ok::<
            Seq<NodeDepModel>,
            NodeErrorModel,
        >(Seq::empty()),
{
    reveal_strlit("dependencies");
    reveal_strlit("devDependencies");
    assert("dependencies"@.len() != "devDependencies"@.len());
    section_of_only("dependencies"@, entries, "devDependencies"@);
    section_of_only("devDependencies"@, entries, "dependencies"@);
}

/// The signs that a range in a manifest may start with.
pub open spec fn is_range_sign(sign: Seq<char>) -> bool {
    sign == ""@ || sign == "^"@ || sign == "~"@ || sign == ">="@
}

proof fn bare_is_version(sign: Seq<char>, version: Seq<char>)
    requires
        is_range_sign(sign),
        version.len() > 0,
        '0' <= version[0] <= '9',
    ensures
        parser::bare_version(sign + version) == version,
        !"file:"@.is_prefix_of(sign + version),
        !"link:"@.is_prefix_of(sign + version),
{
    reveal_strlit("");
    reveal_strlit("^");
    reveal_strlit("~");
    reveal_strlit(">=");
    reveal_strlit("file:");
    reveal_strlit("link:");
    let s = sign + version;
    if "file:"@.is_prefix_of(s) {
        assert(s.subrange(0, 5)[0] == s[0]);
    }
    if "link:"@.is_prefix_of(s) {
        assert(s.subrange(0, 5)[0] == s[0]);
    }
    assert(text::trim_start_set(version, "^"@) == version);
    assert(text::trim_start_set(version, "~"@) == version);
    assert(text::trim_start_text(version, ">="@) == version) by {
        if ">="@.is_prefix_of(version) {
            assert(version.subrange(0, 2)[0] == version[0]);
        }
    }
    assert("^"@[0] == '^' && "~"@[0] == '~' && ">="@[0] == '>');
    if sign == "^"@ {
        assert(s.skip(1) =~= version);
        assert("^"@.contains(s[0]));
        assert(text::trim_start_set(s, "^"@) == version);
    } else if sign == "~"@ {
        assert(s.skip(1) =~= version);
        assert("~"@.contains(s[0]));
        assert(text::trim_start_set(s, "^"@) == s);
        assert(text::trim_start_set(s, "~"@) == version);
    } else if sign == ">="@ {
        assert(s.skip(2) =~= version);
        assert(s.subrange(0, 2) =~= ">="@);
        assert(text::trim_start_set(s, "^"@) == s);
        assert(text::trim_start_set(s, "~"@) == s);
        assert(text::trim_start_text(s, ">="@) == version);
    } else {
        assert(s =~= version);
    }
}

/// Each entry of a section whose range is a version, with `^`, `~` or `>=` before it or
/// nothing, is one dependency with its name and that version, behind those of the
/// entries before it.
pub proof fn range_is_one_dep(
    before: Seq<(Seq<char>, DocModel)>,
    name: Seq<char>,
    sign: Seq<char>,
    version: Seq<char>,
    section: Seq<char>,
    path: Seq<char>,
)
    requires
        section == "dependencies"@ || section == "devDependencies"@,
        is_range_sign(sign),
        version.len() > 0,
        '0' <= version[0] <= '9',
        parser::package_json_deps(only(section, before), path) is Ok,
    ensures
        ({
            let first = parser::package_json_deps(only(section, before), path)->Ok_0;
            match parser::package_json_deps(
                only(section, before.push((name, DocModel::Text(sign + version)))),
                path,
            ) {
                Ok(deps) => {
                    &&& deps.len() == first.len() + 1
                    &&& deps.drop_last() == first
                    &&& deps.last().name == name
                    &&& deps.last().version == version
                    &&& deps.last().local is None
                    &&& !deps.last().optional
                    &&& deps.last().os.len() == 0 && deps.last().cpu.len() == 0
                        && deps.last().libc.len() == 0
                },
                Err(_) => false,
            }
        }),
{
    reveal_strlit("dependencies");
    reveal_strlit("devDependencies");
    assert("dependencies"@.len() != "devDependencies"@.len());
    let entry = (name, DocModel::Text(sign + version));
    let all = before.push(entry);
    section_of_only(section, before, "dependencies"@);
    section_of_only(section, before, "devDependencies"@);
    section_of_only(section, all, "dependencies"@);
    section_of_only(section, all, "devDependencies"@);
    assert(all.drop_last() =~= before);
    assert(all.last() == entry);
    bare_is_version(sign, version);
    let none = Ok::<Seq<NodeDepModel>, NodeErrorModel>(Seq::empty());
    let first = parser::manifest_entries(none, path, section, before)->Ok_0;
    let next = parser::manifest_entry(path, section, name, entry.1);
    assert(next is Ok && next->Ok_0 is Some);
    assert(first.push(next->Ok_0->0).drop_last() =~= first);
}

/// A range that names a path is a local package where that is a directory, and refused
/// where it is a packed one.
pub proof fn path_is_local_or_refused(
    name: Seq<char>,
    scheme: Seq<char>,
    dir: Seq<char>,
    section: Seq<char>,
    path: Seq<char>,
)
    requires
        section == "dependencies"@ || section == "devDependencies"@,
        scheme == "file:"@ || scheme == "link:"@,
    ensures
        ({
            let packed = ".tgz"@.is_suffix_of(text::ascii_lower(dir)) || ".tar.gz"@.is_suffix_of(
                text::ascii_lower(dir),
            ) || ".tar"@.is_suffix_of(text::ascii_lower(dir));
            match parser::package_json_deps(
                only(section, seq![(name, DocModel::Text(scheme + dir))]),
                path,
            ) {
                Ok(deps) => {
                    &&& !packed
                    &&& deps.len() == 1
                    &&& deps[0].name == name
                    &&& deps[0].version == "0.0.0"@
                    &&& deps[0].local is Some
                    &&& deps[0].local->0.path == paths::slashed(dir)
                },
                Err(e) => packed && e == (NodeErrorModel::ManifestTarball {
                    path,
                    section,
                    name,
                    version: scheme + dir,
                }),
            }
        }),
{
    reveal_strlit("dependencies");
    reveal_strlit("devDependencies");
    assert("dependencies"@.len() != "devDependencies"@.len());
    reveal_strlit("file:");
    reveal_strlit("link:");
    let s = scheme + dir;
    assert(s.subrange(0, 5) =~= scheme);
    assert(s.skip(5) =~= dir);
    if scheme == "link:"@ && "file:"@.is_prefix_of(s) {
        assert(s.subrange(0, 5)[0] == 'l');
        assert("file:"@[0] == 'f');
    }
    let entry = (name, DocModel::Text(s));
    let one = seq![entry];
    section_of_only(section, one, "dependencies"@);
    section_of_only(section, one, "devDependencies"@);
    assert(one.drop_last() =~= Seq::<(Seq<char>, DocModel)>::empty());
    let none = Ok::<Seq<NodeDepModel>, NodeErrorModel>(Seq::empty());
    assert(parser::manifest_entries(none, path, section, one.drop_last()) == none);
    if let Ok(Some(d)) = parser::manifest_entry(path, section, name, entry.1) {
        assert(Seq::<NodeDepModel>::empty().push(d) =~= seq![d]);
    }
}

/// Where there is a lock file it alone is read, and the manifest only where there is
/// none; without either there are no dependencies.
pub proof fn lock_file_goes_first(
    dir: Seq<char>,
    lock: Seq<char>,
    manifest: Seq<char>,
    other: Seq<char>,
    host: HostModel,
)
    ensures
        parser::installed_deps(dir, Some(lock), Some(manifest), host) == parser::installed_deps(
            dir,
            Some(lock),
            Some(other),
            host,
        ),
        parser::installed_deps(dir, Some(lock), Some(manifest), host) == parser::installed_deps(
            dir,
            Some(lock),
            None,
            host,
        ),
        parser::installed_deps(dir, None, None, host) == Ok::<Seq<NodeDepModel>, NodeErrorModel>(
            Seq::empty(),
        ),
{
}

// ── Hosts ───────────────────────────────────────────────────────────────────
/// The dependencies for a host are judged one by one.
pub proof fn hosts_judge_one_by_one(a: Seq<NodeDepModel>, b: Seq<NodeDepModel>, host: HostModel)
    ensures
        parser::host_deps(a + b, host) == one_then_other(
            parser::host_deps(a, host),
            parser::host_deps(b, host),
        ),
    decreases b.len(),
{
    if b.len() == 0 {
        assert(a + b =~= a);
        if let Ok(x) = parser::host_deps(a, host) {
            assert(x + Seq::<NodeDepModel>::empty() =~= x);
        }
    } else {
        hosts_judge_one_by_one(a, b.drop_last(), host);
        assert((a + b).drop_last() =~= a + b.drop_last());
        assert((a + b).last() == b.last());
        if let Ok(x) = parser::host_deps(a, host) {
            if let Ok(y) = parser::host_deps(b.drop_last(), host) {
                assert((x + y).push(b.last()) =~= x + y.push(b.last()));
            }
        }
    }
}

/// A dependency stays where its lists allow the host, an optional one that they do not
/// allow is left out, and a required one is an error that says what did not fit. One
/// without lists stays on every host.
pub proof fn host_keeps_or_refuses(d: NodeDepModel, host: HostModel)
    ensures
        ({
            let fits = platform::allows(d.os, host.os) && platform::allows(d.cpu, host.cpu) && (
            host.libc is Some ==> platform::allows(d.libc, host.libc->0));
            &&& fits ==> parser::host_deps(seq![d], host) == Ok::<
                Seq<NodeDepModel>,
                NodeErrorModel,
            >(seq![d])
            &&& !fits && d.optional ==> parser::host_deps(seq![d], host) == Ok::<
                Seq<NodeDepModel>,
                NodeErrorModel,
            >(Seq::empty())
            &&& !fits && !d.optional ==> parser::host_deps(seq![d], host) == Err::<
                Seq<NodeDepModel>,
                NodeErrorModel,
            >(
                NodeErrorModel::BadPlatform {
                    name: d.name,
                    version: d.version,
                    os: d.os,
                    cpu: d.cpu,
                    libc: d.libc,
                    host,
                },
            )
        }),
{
    let one = seq![d];
    assert(one.drop_last() =~= Seq::<NodeDepModel>::empty());
    assert(Seq::<NodeDepModel>::empty().push(d) =~= one);
    if d.os.len() == 0 && d.cpu.len() == 0 && d.libc.len() == 0 {
        assert(platform::allows(d.os, host.os));
        assert(platform::allows(d.cpu, host.cpu));
        if let Some(l) = host.libc {
            assert(platform::allows(d.libc, l));
        }
    }
    assert(parser::host_deps(one.drop_last(), host) == Ok::<Seq<NodeDepModel>, NodeErrorModel>(
        Seq::empty(),
    ));
    assert(one.last() == d);
}

/// A list that names systems allows those alone; a list that rules systems out allows
/// all the others; an empty list allows all. Spaces round an entry play no part.
pub proof fn lists_allow(list: Seq<Seq<char>>, value: Seq<char>)
    requires
        value.len() > 0,
        !text::is_whitespace(value[0]),
        !text::is_whitespace(value.last()),
        value[0] != '!',
    ensures
        platform::allows(Seq::empty(), value),
        (forall|i: int| 0 <= i < list.len() ==> #[trigger] is_name(list[i])) && list.len() > 0
            ==> platform::allows(list, value) == list.contains(value),
        ({
            let barred = Seq::new(list.len(), |i: int| "!"@ + list[i]);
            (forall|i: int| 0 <= i < list.len() ==> #[trigger] is_name(list[i]))
                ==> platform::allows(barred, value) == !list.contains(value)
        }),
{
    reveal_strlit("!");
    if forall|i: int| 0 <= i < list.len() ==> #[trigger] is_name(list[i]) {
        assert forall|i: int| 0 <= i < list.len() implies text::trim(#[trigger] list[i]) == list[i]
            && platform::is_positive(list[i]) && !platform::forbids(list[i], value) by {
            assert(is_name(list[i]));
            name_is_trimmed(list[i]);
        }
        if list.len() > 0 {
            assert(platform::is_positive(list[0]));
            if list.contains(value) {
                let k = choose|k: int| 0 <= k < list.len() && list[k] == value;
                assert(platform::is_positive(list[k]) && text::trim(list[k]) == value);
                assert(platform::allows(list, value));
            } else if platform::allows(list, value) {
                let k = choose|k: int|
                    0 <= k < list.len() && platform::is_positive(#[trigger] list[k]) && text::trim(
                        list[k],
                    ) == value;
                assert(list.contains(list[k]));
            }
        }
        let barred = Seq::new(list.len(), |i: int| "!"@ + list[i]);
        assert forall|i: int| 0 <= i < barred.len() implies !platform::is_positive(
            #[trigger] barred[i],
        ) && (platform::forbids(barred[i], value) == (list[i] == value)) by {
            assert(is_name(list[i]));
            let b = barred[i];
            assert(b == "!"@ + list[i]);
            assert(b.last() == list[i].last());
            assert(is_name_or_barred(b));
            ends_are_trimmed(b);
            assert(b.skip(1) =~= list[i]);
        }
        if list.contains(value) {
            let k = choose|k: int| 0 <= k < list.len() && list[k] == value;
            assert(platform::forbids(barred[k], value));
        } else {
            assert forall|i: int| 0 <= i < barred.len() implies !platform::forbids(
                #[trigger] barred[i],
                value,
            ) by {
                assert(list.contains(list[i]));
            }
        }
    }
}

/// A name of a system: a text that starts and ends with no space, and not with `!`.
pub open spec fn is_name(s: Seq<char>) -> bool {
    s.len() > 0 && !text::is_whitespace(s[0]) && !text::is_whitespace(s.last()) && s[0] != '!'
}

spec fn is_name_or_barred(s: Seq<char>) -> bool {
    s.len() > 0 && !text::is_whitespace(s[0]) && !text::is_whitespace(s.last())
}

proof fn ends_are_trimmed(s: Seq<char>)
    requires
        is_name_or_barred(s),
    ensures
        text::trim(s) == s,
{
    assert(text::trim_start(s) == s);
    assert(text::trim_end(s) == s);
}

proof fn name_is_trimmed(s: Seq<char>)
    requires
        is_name(s),
    ensures
        text::trim(s) == s,
{
    ends_are_trimmed(s);
}

/// The words that npm has for systems and processors.
pub proof fn npm_words()
    ensures
        platform::npm_os("macos"@) == "darwin"@,
        platform::npm_os("windows"@) == "win32"@,
        platform::npm_os("linux"@) == "linux"@,
        platform::npm_os("freebsd"@) == "freebsd"@,
        platform::npm_arch("x86_64"@) == "x64"@,
        platform::npm_arch("aarch64"@) == "arm64"@,
        platform::npm_arch("x86"@) == "ia32"@,
        platform::npm_arch("powerpc64"@) == "ppc64"@,
        platform::npm_arch("arm"@) == "arm"@,
        platform::npm_arch("s390x"@) == "s390x"@,
{
    reveal_strlit("macos");
    reveal_strlit("windows");
    reveal_strlit("linux");
    reveal_strlit("freebsd");
    reveal_strlit("x86_64");
    reveal_strlit("aarch64");
    reveal_strlit("x86");
    reveal_strlit("powerpc64");
    reveal_strlit("arm");
    reveal_strlit("s390x");
    assert("macos"@[0] == 'm' && "windows"@[0] == 'w' && "linux"@[0] == 'l' && "freebsd"@[0]
        == 'f');
    assert("x86_64"@.len() == 6 && "aarch64"@.len() == 7 && "x86"@.len() == 3 && "powerpc64"@.len()
        == 9 && "arm"@.len() == 3 && "s390x"@.len() == 5);
    assert("x86"@[0] == 'x' && "arm"@[0] == 'a');
}

/// A Linux host has the C library musl where its loader is there, and glibc where it is
/// not; other hosts have none.
pub proof fn loader_tells_library(
    before: Seq<Seq<char>>,
    version: Seq<char>,
    behind: Seq<Seq<char>>,
    os: Seq<char>,
)
    ensures
        platform::host_libc("linux"@, before + seq!["ld-musl-"@ + version] + behind) == Some(
            "musl"@,
        ),
        (forall|i: int| 0 <= i < before.len() ==> !"ld-musl-"@.is_prefix_of(#[trigger] before[i]))
            ==> platform::host_libc("linux"@, before) == Some("glibc"@),
        os != "linux"@ ==> platform::host_libc(os, before) is None,
{
    let loader = "ld-musl-"@ + version;
    let all = before + seq![loader] + behind;
    assert(all[before.len() as int] == loader);
    assert(loader.subrange(0, "ld-musl-"@.len() as int) =~= "ld-musl-"@);
    assert("ld-musl-"@.is_prefix_of(all[before.len() as int]));
}

/// A path with the letter of a drive, a colon and a slash of either kind is that of a
/// drive, and no other.
pub proof fn drives_are_letters(c: char, sep: char, rest: Seq<char>, other: Seq<char>)
    requires
        other.len() < 3 || other[1] != ':',
    ensures
        parser::has_drive(seq![c, ':', sep] + rest) == (('a' <= c <= 'z' || 'A' <= c <= 'Z') && (sep
            == '/' || sep == '\\')),
        !parser::has_drive(other),
{
}

/// Where there is no lock file the dependencies are those of the manifest, and without
/// either there are none.
pub proof fn manifest_goes_second(dir: Seq<char>, lock: Seq<char>, manifest: Seq<char>)
    ensures
        parser::project_deps(dir, None, Some(manifest)) == parser::package_json_outcome(
            manifest,
            paths::joined(dir, "package.json"@),
        ),
        parser::project_deps(dir, Some(lock), Some(manifest)) == parser::package_lock_outcome(
            lock,
            paths::joined(dir, "package-lock.json"@),
        ),
        parser::project_deps(dir, None, None) == Ok::<
            Seq<parser::NodeDepModel>,
            parser::NodeErrorModel,
        >(Seq::empty()),
{
}

} // verus!
