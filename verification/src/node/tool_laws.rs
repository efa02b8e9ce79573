//! What holds of the Node runtimes, of the places of packages and of their commands.
use vstd::prelude::*;

use crate::actions::ActionModel;
use crate::config::PackageEntry;
use crate::doc;
use crate::doc::DocModel;
use crate::node::client;
use crate::node::modules;
use crate::node::modules::PackageFacts;
use crate::node::modules::PlaceState;
use crate::node::modules::RootEntry;
use crate::node::modules::StoredLayout;
use crate::node::runtime;
use crate::node::runtime::NodeRelease;
use crate::paths;
use crate::text;
use crate::text_laws;
use crate::unicode;

verus! {

// ── Releases ────────────────────────────────────────────────────────────────
proof fn bare_is_cut(version: Seq<char>)
    requires
        version.len() > 0,
        version[0] != 'v',
    ensures
        runtime::bare(seq!['v'] + version) == version,
        runtime::bare(version) == version,
{
    reveal_strlit("v");
    let s = seq!['v'] + version;
    assert(s[0] == 'v' && s.skip(1) =~= version);
    assert("v"@[0] == 'v');
    assert("v"@.contains('v'));
    assert(!"v"@.contains(version[0]));
    assert(text::trim_start_set(version, "v"@) == version);
}

/// A request of numbers is met by the release of exactly those and by every one that
/// goes on with a point, and not by one whose numbers are others: `20` is met by
/// `v20.1.0` and not by `v200.0.0` or `v18.0.0`.
pub proof fn releases_meet_requests(
    r: NodeRelease,
    request: Seq<char>,
    rest: Seq<char>,
    c: char,
    other: Seq<char>,
)
    requires
        request.len() > 0,
        '0' <= request[0] <= '9',
        '0' <= c <= '9',
        other.len() > 0,
        other[0] != 'v',
        !request.is_prefix_of(other),
    ensures
        r.version@ == seq!['v'] + request ==> runtime::is_for(r, request),
        r.version@ == seq!['v'] + (request + seq!['.'] + rest) ==> runtime::is_for(r, request),
        r.version@ == seq!['v'] + (request + seq![c] + rest) ==> !runtime::is_for(r, request),
        r.version@ == seq!['v'] + other ==> !runtime::is_for(r, request),
{
    reveal_strlit("lts");
    reveal_strlit("latest");
    reveal_strlit(".");
    reveal_strlit("-");
    assert("lts"@[0] == 'l' && "latest"@[0] == 'l');
    let dotted = request + seq!['.'] + rest;
    let longer = request + seq![c] + rest;
    assert(dotted[0] == request[0] && longer[0] == request[0]);
    bare_is_cut(request);
    bare_is_cut(dotted);
    bare_is_cut(longer);
    bare_is_cut(other);
    let n = request.len() as int;
    let point = request + "."@;
    let hyphen = request + "-"@;
    assert(dotted.subrange(0, n + 1) =~= point);
    assert(longer.len() > request.len());
    assert(longer[n] == c && point[n] == '.' && hyphen[n] == '-');
    text_laws::no_prefix(point, longer, n);
    text_laws::no_prefix(hyphen, longer, n);
    if point.is_prefix_of(other) {
        assert(other.subrange(0, n) =~= other.subrange(0, n + 1).subrange(0, n));
        assert(point.subrange(0, n) =~= request);
        assert(request.is_prefix_of(other));
    }
    if hyphen.is_prefix_of(other) {
        assert(other.subrange(0, n) =~= other.subrange(0, n + 1).subrange(0, n));
        assert(hyphen.subrange(0, n) =~= request);
        assert(request.is_prefix_of(other));
    }
    if other == request {
        assert(request.subrange(0, n) =~= request);
        assert(request.is_prefix_of(other));
    }
}

/// Without a request, or with `lts` or `latest`, a release with long-term support is
/// meant, in any case of the letters and with spaces round it.
pub proof fn long_term_support_is_meant(r: NodeRelease, request: Seq<char>)
    ensures
        runtime::is_for(r, Seq::empty()) == r.lts,
        runtime::is_for(r, "lts"@) == r.lts,
        runtime::is_for(r, "latest"@) == r.lts,
        runtime::normalized(Seq::empty()) == Seq::<char>::empty(),
        text::ascii_lower(request) == "lts"@ ==> runtime::normalized(request) == "lts"@,
{
    assert(text::trim(Seq::<char>::empty()) == Seq::<char>::empty());
    assert(unicode::lowercase(Seq::<char>::empty()) =~= Seq::<char>::empty());
    if text::ascii_lower(request) == "lts"@ {
        reveal_strlit("lts");
        let low = text::ascii_lower(request);
        assert(low.len() == request.len());
        assert(low[0] == 'l' && low[1] == 't' && low[2] == 's');
        assert forall|i: int| 0 <= i < request.len() implies (#[trigger] request[i]) as u32 <= 127
            && !text::is_whitespace(request[i]) by {
            assert(low[i] == text::lower_char(request[i]));
        }
        assert(!text::is_whitespace(request[0]) && !text::is_whitespace(request[2]));
        assert(request.last() == request[2]);
        assert(text::trim(request) == request);
    }
}

/// The first release of the list that meets the request is taken.
pub proof fn first_release_is_taken(
    releases: Seq<NodeRelease>,
    request: Seq<char>,
    i: int,
    j: int,
)
    requires
        runtime::is_chosen(releases, request, i),
        0 <= j < releases.len(),
        runtime::is_for(releases[j], request),
    ensures
        i <= j,
        runtime::is_for(releases[i], request),
{
}

/// The files of the releases for the platforms.
pub proof fn release_files(v: Seq<char>, version: Seq<char>, arch: Seq<char>)
    ensures
        runtime::download_address(v, version, "windows"@, arch) == "https://nodejs.org/dist/"@ + v
            + "/node-"@ + v + "-win-x64.zip"@,
        runtime::download_address(v, version, "macos"@, "aarch64"@) == "https://nodejs.org/dist/"@
            + v + "/node-v"@ + version + "-darwin-"@ + "arm64"@ + ".tar.gz"@,
        runtime::download_address(v, version, "macos"@, "x86_64"@) == "https://nodejs.org/dist/"@
            + v + "/node-v"@ + version + "-darwin-"@ + "x64"@ + ".tar.gz"@,
        runtime::download_address(v, version, "linux"@, arch) == "https://nodejs.org/dist/"@ + v
            + "/node-v"@ + version + "-linux-x64.tar.gz"@,
        runtime::runtime_path(version) == "node/runtime/"@ + version,
        runtime::node_candidates(true) == seq!["node.exe"@],
        runtime::node_candidates(false) == seq!["bin/node"@],
        runtime::npm_candidates(true) == seq!["npm.cmd"@, "npm"@],
        runtime::npm_candidates(false) == seq!["bin/npm"@],
{
    reveal_strlit("windows");
    reveal_strlit("macos");
    reveal_strlit("linux");
    reveal_strlit("aarch64");
    reveal_strlit("x86_64");
    assert("windows"@[0] == 'w' && "macos"@[0] == 'm' && "linux"@[0] == 'l');
    assert("aarch64"@[0] == 'a' && "x86_64"@[0] == 'x');
}

// ── Answers of the registry ─────────────────────────────────────────────────
/// The file of a package is the one that the registry names under `dist`.
pub proof fn registry_names_file(
    fields: Seq<(Seq<char>, DocModel)>,
    dist: Seq<(Seq<char>, DocModel)>,
    url: Seq<char>,
    sum: Seq<char>,
)
    requires
        doc::lookup(fields, "dist"@) == Some(DocModel::Table(dist)),
        doc::lookup(dist, "tarball"@) == Some(DocModel::Text(url)),
        doc::lookup(dist, "shasum"@) == Some(DocModel::Text(sum)),
        doc::lookup(dist, "integrity"@) is None || doc::lookup(dist, "integrity"@) == Some(
            DocModel::Text(sum),
        ),
    ensures
        client::described_tarball(Some(DocModel::Table(fields))) == Some(url),
        client::described_tarball(None) is None,
{
}

// ── Places of packages ──────────────────────────────────────────────────────
proof fn payload_of(before: Seq<RootEntry>, e: RootEntry)
    requires
        forall|i: int|
            0 <= i < before.len() ==> ".kong"@.is_prefix_of((#[trigger] before[i]).name@),
        !".kong"@.is_prefix_of(e.name@),
    ensures
        modules::payload(before).len() == 0,
        modules::payload(before.push(e)) == seq![e],
    decreases before.len(),
{
    let keep = |e: RootEntry| !".kong"@.is_prefix_of(e.name@);
    reveal(Seq::filter);
    let all = before.push(e);
    assert(all.drop_last() =~= before && all.last() == e);
    if before.len() > 0 {
        let front = before.drop_last();
        assert forall|i: int| 0 <= i < front.len() implies ".kong"@.is_prefix_of(
            (#[trigger] front[i]).name@,
        ) by {
            assert(front[i] == before[i]);
        }
        payload_of(front, e);
        assert(".kong"@.is_prefix_of(before[before.len() - 1].name@));
        assert(!keep(before.last()));
    }
    assert(before.filter(keep).len() == 0);
    assert(all.filter(keep) == before.filter(keep).push(e));
    assert(before.filter(keep).push(e) =~= seq![e]);
}

/// The content of a package is in its directory `package` where there is one. Where
/// there is none and no manifest, it is in the only directory that there is beside the
/// store's own marks, if that has a manifest. Otherwise it is the directory itself.
pub proof fn content_of_packages(
    src: Seq<char>,
    l: StoredLayout,
    marks: Seq<RootEntry>,
    e: RootEntry,
)
    requires
        forall|i: int| 0 <= i < marks.len() ==> ".kong"@.is_prefix_of((#[trigger] marks[i]).name@),
        !".kong"@.is_prefix_of(e.name@),
    ensures
        l.package_dir ==> modules::content_root(src, l) == paths::joined(src, "package"@),
        !l.package_dir && l.manifest ==> modules::content_root(src, l) == src,
        !l.package_dir && !l.manifest && l.entries@ == marks.push(e) && e.is_dir && e.has_manifest
            ==> modules::content_root(src, l) == paths::joined(src, e.name@),
        !l.package_dir && !l.manifest && l.entries@ == marks.push(e) && !(e.is_dir
            && e.has_manifest) ==> modules::content_root(src, l) == src,
        !l.package_dir && l.entries@ == marks ==> modules::content_root(src, l) == src,
{
    payload_of(marks, e);
}

/// A package that is in the store is linked at its name, behind the directory of its
/// scope where it has one, and in place of a link that is there; what is no link stays,
/// and a package that is not in the store is not linked.
pub proof fn packages_are_linked(
    nm: Seq<char>,
    p: PackageEntry,
    store_root: Seq<char>,
    f: PackageFacts,
)
    ensures
        ({
            let top = paths::joined(nm, p.name@);
            let source = modules::content_root(
                paths::joined(store_root, p.store_path@),
                f.layout,
            );
            let tree = ActionModel::LinkTree(top, source);
            let scope = ActionModel::CreateDir(paths::parent_part(top));
            &&& !f.in_store ==> forall|place: PlaceState| (#[trigger] modules::package_steps(
                nm,
                p,
                store_root,
                f,
                place,
            )).len() == 0
            &&& modules::package_steps(nm, p, store_root, f, PlaceState::Present).len() == 0
            &&& f.in_store && !p.name@.contains('/') ==> modules::package_steps(
                nm,
                p,
                store_root,
                f,
                PlaceState::Missing,
            ) == seq![tree]
            &&& f.in_store && p.name@.contains('/') ==> modules::package_steps(
                nm,
                p,
                store_root,
                f,
                PlaceState::Missing,
            ) == seq![scope, tree]
            &&& f.in_store && !p.name@.contains('/') ==> modules::package_steps(
                nm,
                p,
                store_root,
                f,
                PlaceState::OtherLink,
            ) == seq![ActionModel::RemoveLink(top), tree]
        }),
{
    let top = paths::joined(nm, p.name@);
    let source = modules::content_root(paths::joined(store_root, p.store_path@), f.layout);
    let tree = ActionModel::LinkTree(top, source);
    let scope = ActionModel::CreateDir(paths::parent_part(top));
    let missing = modules::package_steps(nm, p, store_root, f, PlaceState::Missing);
    let other = modules::package_steps(nm, p, store_root, f, PlaceState::OtherLink);
    if f.in_store {
        if p.name@.contains('/') {
            assert(missing =~= seq![scope, tree]);
        } else {
            assert(missing =~= seq![tree]);
            assert(other =~= seq![ActionModel::RemoveLink(top), tree]);
        }
    }
}

// ── Commands of packages ────────────────────────────────────────────────────
/// A package whose `bin` is a text has one command, under the last part of its name;
/// one whose `bin` is a table has those of the table.
pub proof fn commands_of_packages(
    scope: Seq<char>,
    name: Seq<char>,
    fields: Seq<(Seq<char>, DocModel)>,
    file: Seq<char>,
    before: Seq<(Seq<char>, DocModel)>,
    command: Seq<char>,
)
    requires
        !name.contains('/'),
    ensures
        doc::lookup(fields, "bin"@) == Some(DocModel::Text(file)) ==> modules::declared_bins(
            name,
            Some(DocModel::Table(fields)),
        ) == seq![(name, file)] && modules::declared_bins(
            scope + seq!['/'] + name,
            Some(DocModel::Table(fields)),
        ) == seq![(name, file)],
        doc::lookup(fields, "bin"@) == Some(
            DocModel::Table(before.push((command, DocModel::Text(file)))),
        ) ==> modules::declared_bins(name, Some(DocModel::Table(fields)))
            == modules::text_entries(before).push((command, file)),
        doc::lookup(fields, "bin"@) is None ==> modules::declared_bins(
            name,
            Some(DocModel::Table(fields)),
        ).len() == 0,
        modules::declared_bins(name, None).len() == 0,
{
    let all = before.push((command, DocModel::Text(file)));
    assert(all.drop_last() =~= before && all.last() == (command, DocModel::Text(file)));
    text_laws::rfind_is_last(name, '/');
    let s = scope + seq!['/'] + name;
    let n = scope.len() as int;
    text_laws::rfind_is_last(s, '/');
    assert(s[n] == '/');
    assert forall|j: int| n < j < s.len() implies s[j] != '/' by {
        assert(s[j] == name[j - n - 1]);
        assert(name.contains(name[j - n - 1]));
    }
    assert(text::rfind(s, '/') == Some(n));
    assert(s.skip(n + 1) =~= name);
}

/// A command whose file is there and that is not there yet is made: a link to the file,
/// which is made executable, or on Windows a batch file that runs it.
pub proof fn commands_are_made(
    bin: Seq<char>,
    top: Seq<char>,
    name: Seq<char>,
    file: Seq<char>,
    windows: bool,
)
    ensures
        modules::shim_steps(bin, top, name, file, true, true, windows).len() == 0,
        modules::shim_steps(bin, top, name, file, false, false, windows).len() == 0,
        modules::shim_steps(bin, top, name, file, false, true, false) == seq![
            ActionModel::MakeExecutable(paths::joined(top, file)),
            ActionModel::Symlink(paths::joined(bin, name), paths::joined(top, file)),
        ],
        modules::shim_steps(bin, top, name, file, false, true, true) == seq![
            ActionModel::WriteNew(
                paths::joined(bin, name + ".cmd"@),
                "@node \""@ + text::replace_char(paths::joined(top, file), '/', "\\"@)
                    + "\" %*\r\n"@,
                false,
            ),
        ],
{
}

/// Commands are made for the packages of the store first, then for the local ones.
pub proof fn owners_of_commands(node: crate::config::NodeSection, i: int)
    requires
        0 <= i,
    ensures
        modules::command_owners(node).len() == node.packages@.len() + node.local@.len(),
        i < node.packages@.len() ==> modules::command_owners(node)[i] == node.packages@[i].name@,
        i < node.local@.len() ==> modules::command_owners(node)[node.packages@.len() + i]
            == node.local@[i].name@,
{
}

/// The packages of an environment are in its `node_modules`, and the commands in `.bin`
/// in that. Nothing but the local packages is placed where one of those is missing.
pub proof fn modules_are_laid_out(
    env_dir: Seq<char>,
    project_dir: Seq<char>,
    local: Seq<crate::config::LocalPackageEntry>,
    facts: Seq<modules::LocalFacts>,
    packages: Seq<PackageEntry>,
    store_root: Seq<char>,
    package_facts: Seq<PackageFacts>,
)
    ensures
        ({
            let nm = paths::joined(env_dir, "node_modules"@);
            let bin = paths::joined(nm, ".bin"@);
            let steps = modules::modules_steps(
                env_dir,
                project_dir,
                local,
                facts,
                packages,
                store_root,
                package_facts,
            );
            let first = modules::locals_steps(nm, project_dir, local, facts);
            let then = modules::packages_steps(nm, local, packages, store_root, package_facts);
            &&& steps[0] == ActionModel::CreateDir(nm)
            &&& modules::all_there(facts) ==> steps == seq![ActionModel::CreateDir(nm)] + first
                + then + seq![ActionModel::CreateDir(bin)]
            &&& !modules::all_there(facts) ==> steps == seq![ActionModel::CreateDir(nm)] + first
        }),
{
    let nm = paths::joined(env_dir, "node_modules"@);
    let bin = paths::joined(nm, ".bin"@);
    let steps = modules::modules_steps(
        env_dir,
        project_dir,
        local,
        facts,
        packages,
        store_root,
        package_facts,
    );
    let first = modules::locals_steps(nm, project_dir, local, facts);
    let then = modules::packages_steps(nm, local, packages, store_root, package_facts);
    assert(modules::all_there(facts) ==> steps =~= seq![ActionModel::CreateDir(nm)] + first + then
        + seq![ActionModel::CreateDir(bin)]);
    assert(!modules::all_there(facts) ==> steps =~= seq![ActionModel::CreateDir(nm)] + first);
}

/// The packages of the store are placed one behind the other, each as its own place says:
/// one of the same name that is placed before it, or a local package, goes first.
pub proof fn packages_are_placed_in_order(
    nm: Seq<char>,
    local: Seq<crate::config::LocalPackageEntry>,
    before: Seq<PackageEntry>,
    p: PackageEntry,
    store_root: Seq<char>,
    facts: Seq<PackageFacts>,
    k: int,
)
    requires
        facts.len() > before.len(),
        0 <= k < before.len(),
    ensures
        ({
            let f = facts[before.len() as int];
            let all = modules::packages_steps(nm, local, before.push(p), store_root, facts);
            let front = modules::packages_steps(nm, local, before, store_root, facts);
            &&& before[k].name@ == p.name@ && facts[k].in_store ==> all == front
            &&& local.len() == 0 && (forall|j: int|
                0 <= j < before.len() ==> (#[trigger] before[j]).name@ != p.name@) ==> all == front
                + modules::package_steps(nm, p, store_root, f, f.place)
        }),
{
    assert(before.push(p).drop_last() =~= before && before.push(p).last() == p);
    let f = facts[before.len() as int];
    let front = modules::packages_steps(nm, local, before, store_root, facts);
    if before[k].name@ == p.name@ && facts[k].in_store {
        assert(modules::linked_before(before, facts, p.name@));
        packages_are_linked(nm, p, store_root, f);
        assert(front + modules::package_steps(nm, p, store_root, f, PlaceState::Present) =~= front);
    }
    if local.len() == 0 {
        assert(modules::last_of_name(local, p.name@) is None);
    }
}

} // verus!
