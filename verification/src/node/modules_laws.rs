//! What holds of `node_modules` when all the steps that make it are done.
use vstd::prelude::*;

use crate::actions;
use crate::actions::ActionModel;
use crate::config;
use crate::config::LocalPackageEntry;
use crate::config::PackageEntry;
use crate::node::modules;
use crate::node::modules::LocalFacts;
use crate::node::modules::PackageFacts;
use crate::node::modules::PlaceState;
use crate::paths;

verus! {

/// The path lies below the directory.
pub open spec fn is_below(path: Seq<char>, dir: Seq<char>) -> bool {
    (dir + "/"@).is_prefix_of(path)
}

/// The step leaves what is at the path as it is.
pub open spec fn keeps(a: ActionModel, path: Seq<char>) -> bool {
    a is CreateDir || (actions::path_of(a) != path && !is_below(path, actions::path_of(a)))
}

/// The directory that the link at a path leads to when some steps are done, where
/// there is such a link; `start` is where it led before them. Making directories
/// takes no link away, and every other step at the path, or at a directory above
/// it, leaves there what it puts there.
pub open spec fn link_at(
    start: Option<Seq<char>>,
    steps: Seq<ActionModel>,
    path: Seq<char>,
) -> Option<Seq<char>>
    decreases steps.len(),
{
    if steps.len() == 0 {
        start
    } else {
        let a = steps.last();
        if keeps(a, path) {
            link_at(start, steps.drop_last(), path)
        } else {
            match a {
                ActionModel::LinkDir(place, target) => if place == path {
                    Some(target)
                } else {
                    None
                },
                _ => None,
            }
        }
    }
}

/// Where the link at a path leads, among the links that there are.
pub open spec fn link_of(links: Map<Seq<char>, Seq<char>>, path: Seq<char>) -> Option<Seq<char>> {
    if links.contains_key(path) {
        Some(links[path])
    } else {
        None
    }
}

/// What is said of the place of a package is so: a link to its directory, a link
/// to another, or no link.
pub open spec fn place_is_so(place: PlaceState, link: Option<Seq<char>>, dir: Seq<char>) -> bool {
    match place {
        PlaceState::RightLink => link == Some(dir),
        PlaceState::OtherLink => link is Some && link != Some(dir),
        _ => link is None,
    }
}

/// The name is one below a directory: it has no slash at its start.
pub open spec fn is_relative(name: Seq<char>) -> bool {
    name.len() > 0 && name[0] != '/'
}

proof fn places_differ(nm: Seq<char>, a: Seq<char>, b: Seq<char>)
    requires
        is_relative(a),
        is_relative(b),
        paths::joined(nm, a) == paths::joined(nm, b),
    ensures
        a == b,
{
    reveal_strlit("/");
    if nm.len() == 0 {
    } else {
        let front = if nm.last() == '/' {
            nm
        } else {
            nm + "/"@
        };
        assert((front + a).skip(front.len() as int) =~= a);
        assert((front + b).skip(front.len() as int) =~= b);
    }
}

proof fn link_stays(
    start: Option<Seq<char>>,
    a: Seq<ActionModel>,
    b: Seq<ActionModel>,
    path: Seq<char>,
)
    requires
        forall|i: int| 0 <= i < b.len() ==> keeps(#[trigger] b[i], path),
    ensures
        link_at(start, a + b, path) == link_at(start, a, path),
    decreases b.len(),
{
    if b.len() == 0 {
        assert(a + b =~= a);
    } else {
        assert((a + b).last() == b.last());
        assert((a + b).drop_last() =~= a + b.drop_last());
        assert(keeps(b[b.len() - 1], path));
        assert forall|i: int| 0 <= i < b.drop_last().len() implies keeps(
            #[trigger] b.drop_last()[i],
            path,
        ) by {
            assert(keeps(b[i], path));
        }
        link_stays(start, a, b.drop_last(), path);
    }
}

/// Where there was no link and none is made, there is none.
proof fn no_link_appears(start: Option<Seq<char>>, steps: Seq<ActionModel>, path: Seq<char>)
    requires
        start is None,
        forall|i: int|
            0 <= i < steps.len() ==> !((#[trigger] steps[i]) is LinkDir && actions::path_of(
                steps[i],
            ) == path),
    ensures
        link_at(start, steps, path) is None,
    decreases steps.len(),
{
    if steps.len() > 0 {
        assert(!(steps[steps.len() - 1] is LinkDir && actions::path_of(steps[steps.len() - 1])
            == path));
        assert forall|i: int| 0 <= i < steps.drop_last().len() implies !((
        #[trigger] steps.drop_last()[i]) is LinkDir && actions::path_of(steps.drop_last()[i])
            == path) by {
            assert(steps.drop_last()[i] == steps[i]);
        }
        no_link_appears(start, steps.drop_last(), path);
    }
}

/// The steps for local packages work on the places of these, but for the making of
/// directories.
proof fn locals_work_on_places(
    nm: Seq<char>,
    project_dir: Seq<char>,
    local: Seq<LocalPackageEntry>,
    facts: Seq<LocalFacts>,
    i: int,
)
    requires
        0 <= i < modules::locals_steps(nm, project_dir, local, facts).len(),
    ensures
        ({
            let a = modules::locals_steps(nm, project_dir, local, facts)[i];
            a is CreateDir || exists|j: int|
                0 <= j < local.len() && actions::path_of(a) == paths::joined(
                    nm,
                    (#[trigger] local[j]).name@,
                )
        }),
        !(modules::locals_steps(nm, project_dir, local, facts)[i] is LinkTree),
    decreases local.len(),
{
    let all = modules::locals_steps(nm, project_dir, local, facts);
    let rest = local.drop_last();
    let front = modules::locals_steps(nm, project_dir, rest, facts);
    if i < front.len() {
        locals_work_on_places(nm, project_dir, rest, facts, i);
        assert(all[i] == front[i]);
        if !(all[i] is CreateDir) {
            let j = choose|j: int|
                0 <= j < rest.len() && actions::path_of(all[i]) == paths::joined(
                    nm,
                    (#[trigger] rest[j]).name@,
                );
            assert(local[j] == rest[j]);
        }
    } else {
        assert(local[local.len() - 1] == local.last());
    }
}

proof fn packages_work_on_places(
    nm: Seq<char>,
    local: Seq<LocalPackageEntry>,
    packages: Seq<PackageEntry>,
    store_root: Seq<char>,
    facts: Seq<PackageFacts>,
    i: int,
)
    requires
        0 <= i < modules::packages_steps(nm, local, packages, store_root, facts).len(),
    ensures
        ({
            let a = modules::packages_steps(nm, local, packages, store_root, facts)[i];
            a is CreateDir || exists|j: int|
                0 <= j < packages.len() && facts[j].in_store && actions::path_of(a)
                    == paths::joined(nm, (#[trigger] packages[j]).name@)
        }),
        ({
            let a = modules::packages_steps(nm, local, packages, store_root, facts)[i];
            !(a is LinkDir) && !(a is RemoveTree)
        }),
    decreases packages.len(),
{
    let all = modules::packages_steps(nm, local, packages, store_root, facts);
    let rest = packages.drop_last();
    let front = modules::packages_steps(nm, local, rest, store_root, facts);
    if i < front.len() {
        packages_work_on_places(nm, local, rest, store_root, facts, i);
        assert(all[i] == front[i]);
        if !(all[i] is CreateDir) {
            let j = choose|j: int|
                0 <= j < rest.len() && facts[j].in_store && actions::path_of(all[i])
                    == paths::joined(nm, (#[trigger] rest[j]).name@);
            assert(packages[j] == rest[j]);
        }
    } else {
        assert(packages[packages.len() - 1] == packages.last());
    }
}

/// When the first local packages are linked, the place of a name is a link to the
/// directory of the last of them that has it, and is as it was where none has it.
proof fn locals_leave_links(
    nm: Seq<char>,
    project_dir: Seq<char>,
    local: Seq<LocalPackageEntry>,
    facts: Seq<LocalFacts>,
    links: Map<Seq<char>, Seq<char>>,
    name: Seq<char>,
)
    requires
        local.len() <= facts.len(),
        modules::all_there(facts),
        is_relative(name),
        forall|j: int|
            0 <= j < local.len() ==> is_relative((#[trigger] local[j]).name@) && !is_below(
                paths::joined(nm, name),
                paths::joined(nm, local[j].name@),
            ),
        forall|j: int|
            0 <= j < local.len() ==> place_is_so(
                facts[j].place,
                link_of(links, paths::joined(nm, (#[trigger] local[j]).name@)),
                config::local_dir(local[j].path@, project_dir),
            ),
    ensures
        ({
            let path = paths::joined(nm, name);
            link_at(
                link_of(links, path),
                modules::locals_steps(nm, project_dir, local, facts),
                path,
            ) == match modules::last_of_name(local, name) {
                Some(l) => Some(config::local_dir(l.path@, project_dir)),
                None => link_of(links, path),
            }
        }),
    decreases local.len(),
{
    if local.len() > 0 {
        let path = paths::joined(nm, name);
        let start = link_of(links, path);
        let rest = local.drop_last();
        let l = local.last();
        assert(local[local.len() - 1] == l);
        assert forall|j: int| 0 <= j < rest.len() implies (#[trigger] rest[j]) == local[j] by {}
        locals_leave_links(nm, project_dir, rest, facts, links, name);
        let front = modules::locals_steps(nm, project_dir, rest, facts);
        let place = modules::local_place(rest, l, project_dir, facts[local.len() - 1].place);
        let own = modules::local_steps(nm, project_dir, l, place);
        assert(modules::all_there(facts.take(local.len() as int))) by {
            assert forall|i: int| 0 <= i < local.len() implies (#[trigger] facts.take(
                local.len() as int,
            )[i]).target_is_dir by {
                assert(facts[i].target_is_dir);
            }
        }
        assert(modules::locals_steps(nm, project_dir, local, facts) == front + own);
        if l.name@ == name {
            if place is RightLink {
                assert(own =~= seq![ActionModel::CreateDir(paths::parent_part(path))]);
                assert forall|i: int| 0 <= i < own.len() implies keeps(#[trigger] own[i], path) by {}
                link_stays(start, front, own, path);
            } else {
                assert(own.len() > 0);
                assert((front + own).last() == own.last());
            }
        } else {
            if paths::joined(nm, l.name@) == path {
                places_differ(nm, l.name@, name);
            }
            assert forall|i: int| 0 <= i < own.len() implies keeps(#[trigger] own[i], path) by {
                modules::local_target_is_untouched(nm, project_dir, l, place, i);
            }
            link_stays(start, front, own, path);
        }
    }
}

proof fn last_is_found(local: Seq<LocalPackageEntry>, k: int)
    requires
        0 <= k < local.len(),
        forall|j: int| k < j < local.len() ==> (#[trigger] local[j]).name@ != local[k].name@,
    ensures
        modules::last_of_name(local, local[k].name@) == Some(local[k]),
    decreases local.len(),
{
    if k < local.len() - 1 {
        assert(local[local.len() - 1].name@ != local[k].name@);
        assert(local.drop_last()[k] == local[k]);
        last_is_found(local.drop_last(), k);
    }
}

/// When `node_modules` is made, every local package has a link to its directory at
/// its place, whatever was there before; of packages with one name, the last has
/// it.
///
/// A package of the store that has the place of a local package, or one above it,
/// takes it over; those are left out, and so are local packages inside one
/// another.
pub proof fn local_packages_end_as_links(
    env_dir: Seq<char>,
    project_dir: Seq<char>,
    local: Seq<LocalPackageEntry>,
    local_facts: Seq<LocalFacts>,
    packages: Seq<PackageEntry>,
    store_root: Seq<char>,
    package_facts: Seq<PackageFacts>,
    links: Map<Seq<char>, Seq<char>>,
    k: int,
)
    requires
        local_facts.len() == local.len(),
        package_facts.len() == packages.len(),
        modules::all_there(local_facts),
        0 <= k < local.len(),
        forall|j: int| k < j < local.len() ==> (#[trigger] local[j]).name@ != local[k].name@,
        forall|j: int|
            0 <= j < local.len() ==> is_relative((#[trigger] local[j]).name@) && !is_below(
                paths::joined(modules::modules_path(env_dir), local[k].name@),
                paths::joined(modules::modules_path(env_dir), local[j].name@),
            ),
        forall|j: int|
            0 <= j < local.len() ==> place_is_so(
                local_facts[j].place,
                link_of(
                    links,
                    paths::joined(modules::modules_path(env_dir), (#[trigger] local[j]).name@),
                ),
                config::local_dir(local[j].path@, project_dir),
            ),
        forall|j: int|
            0 <= j < packages.len() && package_facts[j].in_store ==> {
                let path = paths::joined(modules::modules_path(env_dir), local[k].name@);
                let other = paths::joined(
                    modules::modules_path(env_dir),
                    (#[trigger] packages[j]).name@,
                );
                path != other && !is_below(path, other)
            },
    ensures
        ({
            let path = paths::joined(modules::modules_path(env_dir), local[k].name@);
            let steps = modules::modules_steps(
                env_dir,
                project_dir,
                local,
                local_facts,
                packages,
                store_root,
                package_facts,
            );
            link_at(link_of(links, path), steps, path) == Some(
                config::local_dir(local[k].path@, project_dir),
            )
        }),
{
    let nm = modules::modules_path(env_dir);
    let name = local[k].name@;
    let path = paths::joined(nm, name);
    let start = link_of(links, path);
    let first = seq![ActionModel::CreateDir(nm)];
    let own = modules::locals_steps(nm, project_dir, local, local_facts);
    let stored = modules::packages_steps(nm, local, packages, store_root, package_facts);
    let end = seq![ActionModel::CreateDir(modules::bin_path(env_dir))];
    assert(is_relative(local[k].name@));
    locals_leave_links(nm, project_dir, local, local_facts, links, name);
    last_is_found(local, k);
    first_directory(start, nm, own, path);
    assert forall|i: int| 0 <= i < (stored + end).len() implies keeps(
        #[trigger] (stored + end)[i],
        path,
    ) by {
        if i < stored.len() {
            packages_work_on_places(nm, local, packages, store_root, package_facts, i);
            assert((stored + end)[i] == stored[i]);
        }
    }
    link_stays(start, first + own, stored + end, path);
}

/// A directory that is made first changes no link.
proof fn first_directory(
    start: Option<Seq<char>>,
    dir: Seq<char>,
    steps: Seq<ActionModel>,
    path: Seq<char>,
)
    ensures
        link_at(start, seq![ActionModel::CreateDir(dir)] + steps, path) == link_at(
            start,
            steps,
            path,
        ),
    decreases steps.len(),
{
    let first = seq![ActionModel::CreateDir(dir)];
    if steps.len() == 0 {
        assert(first + steps =~= first);
        assert(first.drop_last() =~= steps);
    } else {
        assert((first + steps).last() == steps.last());
        assert((first + steps).drop_last() =~= first + steps.drop_last());
        first_directory(start, dir, steps.drop_last(), path);
    }
}

proof fn none_has_name(local: Seq<LocalPackageEntry>, name: Seq<char>)
    requires
        modules::last_of_name(local, name) is None,
    ensures
        forall|j: int| 0 <= j < local.len() ==> (#[trigger] local[j]).name@ != name,
    decreases local.len(),
{
    if local.len() > 0 {
        none_has_name(local.drop_last(), name);
        assert forall|j: int| 0 <= j < local.len() implies (#[trigger] local[j]).name@ != name by {
            if j < local.len() - 1 {
                assert(local.drop_last()[j] == local[j]);
            }
        }
    }
}

/// No link was made at the place of a name that no local package has.
proof fn no_local_link(
    nm: Seq<char>,
    project_dir: Seq<char>,
    local: Seq<LocalPackageEntry>,
    facts: Seq<LocalFacts>,
    name: Seq<char>,
    i: int,
)
    requires
        0 <= i < modules::locals_steps(nm, project_dir, local, facts).len(),
        modules::last_of_name(local, name) is None,
        is_relative(name),
        forall|j: int| 0 <= j < local.len() ==> is_relative((#[trigger] local[j]).name@),
    ensures
        ({
            let a = modules::locals_steps(nm, project_dir, local, facts)[i];
            !(a is LinkDir && actions::path_of(a) == paths::joined(nm, name))
        }),
{
    let a = modules::locals_steps(nm, project_dir, local, facts)[i];
    locals_work_on_places(nm, project_dir, local, facts, i);
    none_has_name(local, name);
    if a is LinkDir && actions::path_of(a) == paths::joined(nm, name) {
        let j = choose|j: int|
            0 <= j < local.len() && actions::path_of(a) == paths::joined(
                nm,
                (#[trigger] local[j]).name@,
            );
        places_differ(nm, local[j].name@, name);
    }
}

/// A tree that makes way for a local package is no link.
proof fn removed_tree_is_no_link(
    nm: Seq<char>,
    project_dir: Seq<char>,
    local: Seq<LocalPackageEntry>,
    facts: Seq<LocalFacts>,
    links: Map<Seq<char>, Seq<char>>,
    i: int,
)
    requires
        local.len() <= facts.len(),
        forall|j: int| 0 <= j < local.len() ==> is_relative((#[trigger] local[j]).name@),
        forall|j: int|
            0 <= j < local.len() ==> place_is_so(
                facts[j].place,
                link_of(links, paths::joined(nm, (#[trigger] local[j]).name@)),
                config::local_dir(local[j].path@, project_dir),
            ),
        0 <= i < modules::locals_steps(nm, project_dir, local, facts).len(),
        modules::locals_steps(nm, project_dir, local, facts)[i] is RemoveTree,
    ensures
        ({
            let steps = modules::locals_steps(nm, project_dir, local, facts);
            let path = actions::path_of(steps[i]);
            link_at(link_of(links, path), steps.take(i), path) is None
        }),
    decreases local.len(),
{
    let steps = modules::locals_steps(nm, project_dir, local, facts);
    let path = actions::path_of(steps[i]);
    let rest = local.drop_last();
    let front = modules::locals_steps(nm, project_dir, rest, facts);
    assert forall|j: int| 0 <= j < rest.len() implies (#[trigger] rest[j]) == local[j] by {}
    if i < front.len() {
        assert(steps[i] == front[i]);
        removed_tree_is_no_link(nm, project_dir, rest, facts, links, i);
        assert(steps.take(i) =~= front.take(i));
    } else {
        let l = local.last();
        assert(local[local.len() - 1] == l);
        let own = modules::local_steps(
            nm,
            project_dir,
            l,
            modules::local_place(rest, l, project_dir, facts[local.len() - 1].place),
        );
        assert(steps == front + own);
        assert(own[i - front.len()] == steps[i]);
        assert(i == front.len() + 1);
        assert(modules::last_of_name(rest, l.name@) is None);
        assert forall|k: int| 0 <= k < steps.take(i).len() implies !((
        #[trigger] steps.take(i)[k]) is LinkDir && actions::path_of(steps.take(i)[k]) == path) by {
            if k < front.len() {
                assert(steps.take(i)[k] == front[k]);
                no_local_link(nm, project_dir, rest, facts, l.name@, k);
            } else {
                assert(steps.take(i)[k] == own[0]);
            }
        }
        no_link_appears(link_of(links, path), steps.take(i), path);
    }
}

/// A package of the store is never linked through a link: one that was at its
/// place is removed first.
proof fn linked_tree_is_no_link(
    nm: Seq<char>,
    before: Seq<ActionModel>,
    local: Seq<LocalPackageEntry>,
    packages: Seq<PackageEntry>,
    store_root: Seq<char>,
    facts: Seq<PackageFacts>,
    links: Map<Seq<char>, Seq<char>>,
    i: int,
)
    requires
        packages.len() <= facts.len(),
        forall|k: int|
            0 <= k < before.len() && (#[trigger] before[k]) is LinkDir ==> exists|j: int|
                0 <= j < local.len() && actions::path_of(before[k]) == paths::joined(
                    nm,
                    (#[trigger] local[j]).name@,
                ),
        forall|j: int| 0 <= j < local.len() ==> is_relative((#[trigger] local[j]).name@),
        forall|j: int| 0 <= j < packages.len() ==> is_relative((#[trigger] packages[j]).name@),
        forall|j: int|
            0 <= j < packages.len() && facts[j].place is Missing ==> link_of(
                links,
                paths::joined(nm, (#[trigger] packages[j]).name@),
            ) is None,
        0 <= i < modules::packages_steps(nm, local, packages, store_root, facts).len(),
        modules::packages_steps(nm, local, packages, store_root, facts)[i] is LinkTree,
    ensures
        ({
            let steps = modules::packages_steps(nm, local, packages, store_root, facts);
            let path = actions::path_of(steps[i]);
            link_at(link_of(links, path), before + steps.take(i), path) is None
        }),
    decreases packages.len(),
{
    let steps = modules::packages_steps(nm, local, packages, store_root, facts);
    let path = actions::path_of(steps[i]);
    let start = link_of(links, path);
    let rest = packages.drop_last();
    let front = modules::packages_steps(nm, local, rest, store_root, facts);
    assert forall|j: int| 0 <= j < rest.len() implies (#[trigger] rest[j]) == packages[j] by {}
    if i < front.len() {
        assert(steps[i] == front[i]);
        linked_tree_is_no_link(nm, before, local, rest, store_root, facts, links, i);
        assert(steps.take(i) =~= front.take(i));
    } else {
        let p = packages.last();
        let f = facts[packages.len() - 1];
        assert(packages[packages.len() - 1] == p);
        let place = modules::package_place(local, rest, facts, p.name@, f.place);
        let own = modules::package_steps(nm, p, store_root, f, place);
        assert(steps == front + own);
        assert(own[i - front.len()] == steps[i]);
        assert(path == paths::joined(nm, p.name@));
        assert(i - front.len() == own.len() - 1);
        let all = before + steps.take(i);
        if place is Missing {
            none_has_name(local, p.name@);
            assert forall|k: int| 0 <= k < all.len() implies !((#[trigger] all[k]) is LinkDir
                && actions::path_of(all[k]) == path) by {
                if k < before.len() {
                    assert(all[k] == before[k]);
                    if before[k] is LinkDir && actions::path_of(before[k]) == path {
                        let j = choose|j: int|
                            0 <= j < local.len() && actions::path_of(before[k]) == paths::joined(
                                nm,
                                (#[trigger] local[j]).name@,
                            );
                        places_differ(nm, local[j].name@, p.name@);
                    }
                } else {
                    assert(all[k] == steps[k - before.len()]);
                    packages_work_on_places(
                        nm,
                        local,
                        packages,
                        store_root,
                        facts,
                        k - before.len(),
                    );
                }
            }
            no_link_appears(start, all, path);
        } else {
            let removed = before + front + seq![own[0]];
            assert(removed.last() == ActionModel::RemoveLink(path));
            let made = own.subrange(1, own.len() - 1);
            assert(all =~= removed + made);
            assert forall|k: int| 0 <= k < made.len() implies keeps(#[trigger] made[k], path) by {}
            link_stays(start, removed, made, path);
        }
    }
}

/// Making `node_modules` touches no directory of a local package. Every step but
/// the making of directories works on the place of a package in `node_modules`;
/// and where a tree is removed or put at such a place, there is no link there at
/// that moment, so nothing is removed or written through a link.
pub proof fn targets_are_untouched(
    env_dir: Seq<char>,
    project_dir: Seq<char>,
    local: Seq<LocalPackageEntry>,
    local_facts: Seq<LocalFacts>,
    packages: Seq<PackageEntry>,
    store_root: Seq<char>,
    package_facts: Seq<PackageFacts>,
    links: Map<Seq<char>, Seq<char>>,
    i: int,
)
    requires
        local_facts.len() == local.len(),
        package_facts.len() == packages.len(),
        forall|j: int| 0 <= j < local.len() ==> is_relative((#[trigger] local[j]).name@),
        forall|j: int| 0 <= j < packages.len() ==> is_relative((#[trigger] packages[j]).name@),
        forall|j: int|
            0 <= j < local.len() ==> place_is_so(
                local_facts[j].place,
                link_of(
                    links,
                    paths::joined(modules::modules_path(env_dir), (#[trigger] local[j]).name@),
                ),
                config::local_dir(local[j].path@, project_dir),
            ),
        forall|j: int|
            0 <= j < packages.len() && package_facts[j].place is Missing ==> link_of(
                links,
                paths::joined(modules::modules_path(env_dir), (#[trigger] packages[j]).name@),
            ) is None,
        0 <= i < modules::modules_steps(
            env_dir,
            project_dir,
            local,
            local_facts,
            packages,
            store_root,
            package_facts,
        ).len(),
    ensures
        ({
            let nm = modules::modules_path(env_dir);
            let steps = modules::modules_steps(
                env_dir,
                project_dir,
                local,
                local_facts,
                packages,
                store_root,
                package_facts,
            );
            let path = actions::path_of(steps[i]);
            &&& {
                ||| steps[i] is CreateDir
                ||| exists|j: int|
                    0 <= j < local.len() && path == paths::joined(nm, (#[trigger] local[j]).name@)
                ||| exists|j: int|
                    0 <= j < packages.len() && path == paths::joined(
                        nm,
                        (#[trigger] packages[j]).name@,
                    )
            }
            &&& steps[i] is RemoveTree || steps[i] is LinkTree ==> link_at(
                link_of(links, path),
                steps.take(i),
                path,
            ) is None
        }),
{
    let nm = modules::modules_path(env_dir);
    let first = seq![ActionModel::CreateDir(nm)];
    let own = modules::locals_steps(nm, project_dir, local, local_facts);
    let stored = modules::packages_steps(nm, local, packages, store_root, package_facts);
    let before = first + own;
    let steps = modules::modules_steps(
        env_dir,
        project_dir,
        local,
        local_facts,
        packages,
        store_root,
        package_facts,
    );
    let path = actions::path_of(steps[i]);
    if 0 < i < before.len() {
        let k = i - 1;
        assert(steps[i] == own[k]);
        locals_work_on_places(nm, project_dir, local, local_facts, k);
        if steps[i] is RemoveTree {
            removed_tree_is_no_link(nm, project_dir, local, local_facts, links, k);
            first_directory(link_of(links, path), nm, own.take(k), path);
            assert(steps.take(i) =~= first + own.take(k));
        }
    } else if before.len() <= i < before.len() + stored.len() {
        let k = i - before.len();
        assert(steps[i] == stored[k]);
        packages_work_on_places(nm, local, packages, store_root, package_facts, k);
        if steps[i] is LinkTree {
            assert forall|n: int|
                0 <= n < before.len() && (#[trigger] before[n]) is LinkDir implies exists|j: int|
                0 <= j < local.len() && actions::path_of(before[n]) == paths::joined(
                    nm,
                    (#[trigger] local[j]).name@,
                ) by {
                assert(before[n] == own[n - 1]);
                locals_work_on_places(nm, project_dir, local, local_facts, n - 1);
            }
            linked_tree_is_no_link(
                nm,
                before,
                local,
                packages,
                store_root,
                package_facts,
                links,
                k,
            );
            assert(steps.take(i) =~= before + stored.take(k));
        }
    } else {
        assert(steps[i] is CreateDir);
    }
}

} // verus!
