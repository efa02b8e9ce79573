//! Which Python packages a project needs: its own dependencies, and from those
//! the dependencies of each package that is installed, breadth first.
use vstd::prelude::*;

use crate::chars;
use crate::config;
use crate::config::PackageEntry;
use crate::config::PlannedPackage;
use crate::download::FileInfo;
use crate::python::client;
use crate::python::client::DepModel;
use crate::python::client::TransitiveDep;
use crate::python::parser;
use crate::python::parser::PythonDep;
use crate::python::parser::PythonDepModel;
use crate::text;
use crate::unicode;

verus! {

/// What a search waits for.
#[derive(Debug)]
pub enum Waiting {
    Nothing,
    /// The version of the first dependency that is not queued yet.
    Version,
    /// That this package is in the store, into which it is downloaded or where it is.
    Install { name: String, version: String, fetch: bool },
}

/// What a search waits for.
pub enum WaitingModel {
    Nothing,
    Version,
    Install(Seq<char>, Seq<char>, bool),
}

/// A search for the packages that a project needs.
#[derive(Debug)]
pub struct Resolver {
    py_tag: String,
    platform: String,
    in_store: Vec<String>,
    force: bool,
    incoming: Vec<TransitiveDep>,
    queue: Vec<(String, String)>,
    seen: Vec<(String, String)>,
    packages: Vec<PackageEntry>,
    waiting: Waiting,
}

/// What a search knows.
pub struct ResolverModel {
    pub py_tag: Seq<char>,
    pub platform: Seq<char>,
    /// The paths that were in the store at the start.
    pub in_store: Seq<Seq<char>>,
    /// Packages are downloaded that are in the store too.
    pub force: bool,
    /// Dependencies that are not queued yet.
    pub incoming: Seq<DepModel>,
    /// Names and versions of the packages to install.
    pub queue: Seq<(Seq<char>, Seq<char>)>,
    /// Keys and versions of the packages whose installation was asked for.
    pub seen: Seq<(Seq<char>, Seq<char>)>,
    /// The packages that are installed.
    pub packages: Seq<PackageEntry>,
    pub waiting: WaitingModel,
}

/// What has to be done next.
#[derive(Debug)]
pub enum Action {
    /// Nothing: every package is installed.
    Finished,
    /// Find the version of a package that satisfies a specifier.
    Resolve { name: String, spec: String },
    /// Bring a package into the store, at this path, where `fetch` says so; otherwise
    /// it is there.
    Install { name: String, version: String, store_path: String, fetch: bool },
}

/// What has to be done next.
pub enum ActionModel {
    Finished,
    Resolve(Seq<char>, Seq<char>),
    Install(Seq<char>, Seq<char>, Seq<char>, bool),
}

impl View for Action {
    type V = ActionModel;

    open spec fn view(&self) -> ActionModel {
        match self {
            Action::Finished => ActionModel::Finished,
            Action::Resolve { name, spec } => ActionModel::Resolve(name@, spec@),
            Action::Install { name, version, store_path, fetch } => ActionModel::Install(
                name@,
                version@,
                store_path@,
                *fetch,
            ),
        }
    }
}

/// The texts of a list of pairs.
pub open spec fn pair_views(v: Seq<(String, String)>) -> Seq<(Seq<char>, Seq<char>)> {
    Seq::new(v.len(), |i: int| (v[i].0@, v[i].1@))
}

impl View for Resolver {
    type V = ResolverModel;

    closed spec fn view(&self) -> ResolverModel {
        ResolverModel {
            py_tag: self.py_tag@,
            platform: self.platform@,
            in_store: text::views(self.in_store@),
            force: self.force,
            incoming: client::dep_views(self.incoming@),
            queue: pair_views(self.queue@),
            seen: pair_views(self.seen@),
            packages: self.packages@,
            waiting: match self.waiting {
                Waiting::Nothing => WaitingModel::Nothing,
                Waiting::Version => WaitingModel::Version,
                Waiting::Install { name, version, fetch } => WaitingModel::Install(
                    name@,
                    version@,
                    fetch,
                ),
            },
        }
    }
}

/// The key of a package: its name in small letters, with `_` for `-`.
pub open spec fn key(name: Seq<char>) -> Seq<char> {
    text::replace_char(unicode::lowercase(name), '-', "_"@)
}

/// The installation of a package of this key, of whatever version, was asked for.
pub open spec fn name_seen(seen: Seq<(Seq<char>, Seq<char>)>, k: Seq<char>) -> bool {
    exists|i: int| 0 <= i < seen.len() && (#[trigger] seen[i]).0 == k
}

/// What a search does next, and what it then waits for. Dependencies are queued
/// in their order: one of a package that was installed already, in whatever
/// version, is dropped, and one without a version needs one first. The first
/// package in the queue that was not installed yet is installed.
pub open spec fn advance(m: ResolverModel) -> (ResolverModel, ActionModel)
    decreases m.incoming.len(), m.queue.len(),
{
    if m.incoming.len() > 0 {
        let d = m.incoming[0];
        let rest = ResolverModel { incoming: m.incoming.skip(1), ..m };
        if name_seen(m.seen, key(d.name)) {
            advance(rest)
        } else if d.version.len() == 0 {
            (
                ResolverModel { waiting: WaitingModel::Version, ..m },
                ActionModel::Resolve(d.name, d.spec),
            )
        } else {
            advance(ResolverModel { queue: m.queue.push((d.name, d.version)), ..rest })
        }
    } else if m.queue.len() > 0 {
        let (name, version) = m.queue[0];
        let rest = ResolverModel { queue: m.queue.skip(1), ..m };
        if m.seen.contains((key(name), version)) {
            advance(rest)
        } else {
            let path = config::python_path(name, version, m.py_tag, m.platform);
            let fetch = config::must_fetch(m.in_store, m.force, m.packages, path);
            (
                ResolverModel {
                    seen: m.seen.push((key(name), version)),
                    waiting: WaitingModel::Install(name, version, fetch),
                    ..rest
                },
                ActionModel::Install(name, version, path, fetch),
            )
        }
    } else {
        (m, ActionModel::Finished)
    }
}

/// The key and version of an installed package are these, and its path in the
/// store is the one for its name.
pub open spec fn is_entry_of(
    e: PackageEntry,
    k: (Seq<char>, Seq<char>),
    py_tag: Seq<char>,
    platform: Seq<char>,
) -> bool {
    &&& (key(e.name@), e.version@) == k
    &&& e.store_path@ == config::python_path(e.name@, e.version@, py_tag, platform)
}

/// What holds of a search throughout.
pub open spec fn well_formed(m: ResolverModel) -> bool {
    &&& m.seen.no_duplicates()
    &&& forall|i: int| 0 <= i < m.packages.len() ==> #[trigger] config::has_right_origin(
            m.packages,
            m.in_store,
            m.force,
            i,
        )
    &&& forall|i: int|
        0 <= i < m.packages.len() ==> is_entry_of(
            #[trigger] m.packages[i],
            m.seen[i],
            m.py_tag,
            m.platform,
        )
    &&& match m.waiting {
        WaitingModel::Nothing => m.packages.len() == m.seen.len(),
        WaitingModel::Version => m.packages.len() == m.seen.len() && m.incoming.len() > 0,
        WaitingModel::Install(name, version, fetch) => {
            &&& m.packages.len() + 1 == m.seen.len()
            &&& m.seen.last() == (key(name), version)
            &&& m.incoming.len() == 0
            &&& fetch == config::must_fetch(
                m.in_store,
                m.force,
                m.packages,
                config::python_path(name, version, m.py_tag, m.platform),
            )
        },
    }
}

/// A step of a search keeps what holds throughout, and forgets no package.
pub proof fn advance_keeps_form(m: ResolverModel)
    requires
        well_formed(m),
        m.waiting is Nothing,
    ensures
        well_formed(advance(m).0),
        advance(m).0.packages == m.packages,
        advance(m).0.py_tag == m.py_tag,
        advance(m).0.platform == m.platform,
        advance(m).0.in_store == m.in_store,
        advance(m).0.force == m.force,
        m.seen.is_prefix_of(advance(m).0.seen),
    decreases m.incoming.len(), m.queue.len(),
{
    if m.incoming.len() > 0 {
        let d = m.incoming[0];
        let rest = ResolverModel { incoming: m.incoming.skip(1), ..m };
        if name_seen(m.seen, key(d.name)) {
            advance_keeps_form(rest);
        } else if d.version.len() > 0 {
            let next = ResolverModel { queue: m.queue.push((d.name, d.version)), ..rest };
            advance_keeps_form(next);
        }
    } else if m.queue.len() > 0 {
        let (name, version) = m.queue[0];
        let rest = ResolverModel { queue: m.queue.skip(1), ..m };
        if m.seen.contains((key(name), version)) {
            advance_keeps_form(rest);
        } else {
            let next = advance(m).0;
            assert forall|i: int| 0 <= i < next.packages.len() implies is_entry_of(
                #[trigger] next.packages[i],
                next.seen[i],
                next.py_tag,
                next.platform,
            ) by {
                assert(next.seen[i] == m.seen[i]);
            }
        }
    }
}

/// Without force, a package that was in the store is not downloaded again, and so
/// has no origin; and no path is downloaded to twice.
pub proof fn stored_packages_are_not_fetched(m: ResolverModel, i: int)
    requires
        well_formed(m),
        !m.force,
        0 <= i < m.packages.len(),
        m.in_store.contains(m.packages[i].store_path@) || config::holds_path(
            m.packages.take(i),
            m.packages[i].store_path@,
        ),
    ensures
        m.packages[i].hash is None,
        m.packages[i].source_url is None,
{
    assert(config::has_right_origin(m.packages, m.in_store, m.force, i));
}

/// What is not in the store is downloaded, and so has an origin.
pub proof fn missing_packages_are_fetched(m: ResolverModel, i: int)
    requires
        well_formed(m),
        0 <= i < m.packages.len(),
        m.force || !(m.in_store.contains(m.packages[i].store_path@) || config::holds_path(
            m.packages.take(i),
            m.packages[i].store_path@,
        )),
    ensures
        m.packages[i].hash is Some,
        m.packages[i].source_url is Some,
{
    assert(config::has_right_origin(m.packages, m.in_store, m.force, i));
}

/// No package is installed twice in one version.
pub proof fn packages_differ(m: ResolverModel, i: int, j: int)
    requires
        well_formed(m),
        0 <= i < j < m.packages.len(),
    ensures
        (key(m.packages[i].name@), m.packages[i].version@) != (
            key(m.packages[j].name@),
            m.packages[j].version@,
        ),
{
    assert(m.seen[i] != m.seen[j]);
}

/// Nothing is left to do only when every dependency was queued and every queued
/// package installed.
pub proof fn finished_is_complete(m: ResolverModel)
    requires
        advance(m).1 is Finished,
    ensures
        advance(m).0.incoming.len() == 0,
        advance(m).0.queue.len() == 0,
        forall|i: int|
            0 <= i < m.queue.len() ==> m.seen.contains(
                (key((#[trigger] m.queue[i]).0), m.queue[i].1),
            ),
        forall|i: int|
            0 <= i < m.incoming.len() ==> name_seen(m.seen, key((#[trigger] m.incoming[i]).name)),
    decreases m.incoming.len(), m.queue.len(),
{
    if m.incoming.len() > 0 {
        let d = m.incoming[0];
        let rest = ResolverModel { incoming: m.incoming.skip(1), ..m };
        if name_seen(m.seen, key(d.name)) {
            finished_is_complete(rest);
        } else {
            let queued = ResolverModel { queue: m.queue.push((d.name, d.version)), ..rest };
            finished_is_complete(queued);
            assert(queued.queue[m.queue.len() as int] == (d.name, d.version));
            let i = choose|i: int|
                0 <= i < m.seen.len() && m.seen[i] == (key(d.name), d.version);
            assert(m.seen[i].0 == key(d.name));
            assert forall|j: int| 0 <= j < m.queue.len() implies m.seen.contains(
                (key((#[trigger] m.queue[j]).0), m.queue[j].1),
            ) by {
                assert(queued.queue[j] == m.queue[j]);
            }
        }
        assert forall|j: int| 0 <= j < m.incoming.len() implies name_seen(
            m.seen,
            key((#[trigger] m.incoming[j]).name),
        ) by {
            if j > 0 {
                assert(m.incoming.skip(1)[j - 1] == m.incoming[j]);
            }
        }
    } else if m.queue.len() > 0 {
        let (name, version) = m.queue[0];
        if m.seen.contains((key(name), version)) {
            finished_is_complete(ResolverModel { queue: m.queue.skip(1), ..m });
            assert forall|j: int| 0 <= j < m.queue.len() implies m.seen.contains(
                (key((#[trigger] m.queue[j]).0), m.queue[j].1),
            ) by {
                if j > 0 {
                    assert(m.queue.skip(1)[j - 1] == m.queue[j]);
                }
            }
        }
    }
}

/// A package of this name, of whatever version, was installed or will be.
pub open spec fn is_needed(m: ResolverModel, name: Seq<char>) -> bool {
    ||| name_seen(m.seen, key(name))
    ||| exists|i: int| 0 <= i < m.queue.len() && key((#[trigger] m.queue[i]).0) == key(name)
    ||| exists|i: int| 0 <= i < m.incoming.len() && key((#[trigger] m.incoming[i]).name) == key(name)
}

/// No package that is needed is lost on the way, and when nothing is left to do,
/// its installation was asked for.
pub proof fn needed_package_is_installed(m: ResolverModel, name: Seq<char>)
    requires
        is_needed(m, name),
    ensures
        is_needed(advance(m).0, name),
        advance(m).1 is Finished ==> name_seen(m.seen, key(name)),
    decreases m.incoming.len(), m.queue.len(),
{
    if m.incoming.len() > 0 {
        let d = m.incoming[0];
        let rest = ResolverModel { incoming: m.incoming.skip(1), ..m };
        if name_seen(m.seen, key(d.name)) {
            incoming_is_taken(m, rest, name);
            needed_package_is_installed(rest, name);
        } else if d.version.len() != 0 {
            let next = ResolverModel { queue: m.queue.push((d.name, d.version)), ..rest };
            resolved_package_is_needed(m, next, d.version, name);
            needed_package_is_installed(next, name);
        } else {
            let next = ResolverModel { waiting: WaitingModel::Version, ..m };
            assert(next.queue == m.queue && next.incoming == m.incoming && next.seen == m.seen);
            assert(is_needed(next, name));
            assert(is_needed(advance(m).0, name));
        }
    } else if m.queue.len() > 0 {
        let (first, version) = m.queue[0];
        let rest = ResolverModel { queue: m.queue.skip(1), ..m };
        let next = if m.seen.contains((key(first), version)) {
            rest
        } else {
            ResolverModel {
                seen: m.seen.push((key(first), version)),
                waiting: WaitingModel::Install(
                    first,
                    version,
                    config::must_fetch(
                        m.in_store,
                        m.force,
                        m.packages,
                        config::python_path(first, version, m.py_tag, m.platform),
                    ),
                ),
                ..rest
            }
        };
        assert(is_needed(next, name)) by {
            if name_seen(m.seen, key(name)) {
                let i = choose|i: int| 0 <= i < m.seen.len() && (#[trigger] m.seen[i]).0 == key(name);
                assert(next.seen[i].0 == key(name));
            } else {
                let i = choose|i: int|
                    0 <= i < m.queue.len() && key((#[trigger] m.queue[i]).0) == key(name);
                if i == 0 {
                    if m.seen.contains((key(first), version)) {
                        let j = choose|j: int|
                            0 <= j < m.seen.len() && m.seen[j] == (key(first), version);
                        assert(m.seen[j].0 == key(name));
                    } else {
                        assert(next.seen[m.seen.len() as int].0 == key(name));
                    }
                } else {
                    assert(next.queue[i - 1] == m.queue[i]);
                }
            }
        }
        if m.seen.contains((key(first), version)) {
            needed_package_is_installed(rest, name);
        } else {
            assert(advance(m).0 == next);
            assert(is_needed(advance(m).0, name));
        }
    } else {
        assert(advance(m).0 == m);
    }
}

/// The first dependency that is not queued yet may be taken from the others where
/// its package was installed.
proof fn incoming_is_taken(m: ResolverModel, rest: ResolverModel, name: Seq<char>)
    requires
        is_needed(m, name),
        m.incoming.len() > 0,
        name_seen(m.seen, key(m.incoming[0].name)),
        rest.seen == m.seen,
        rest.queue == m.queue,
        rest.incoming == m.incoming.skip(1),
    ensures
        is_needed(rest, name),
{
    if !name_seen(m.seen, key(name)) && !(exists|i: int|
        0 <= i < m.queue.len() && key((#[trigger] m.queue[i]).0) == key(name)) {
        let i = choose|i: int|
            0 <= i < m.incoming.len() && key((#[trigger] m.incoming[i]).name) == key(name);
        assert(i > 0);
        assert(rest.incoming[i - 1] == m.incoming[i]);
    }
}

/// A package stays needed when the first dependency that is not queued yet gets a
/// version, with which it is queued.
pub proof fn resolved_package_is_needed(
    before: ResolverModel,
    after: ResolverModel,
    version: Seq<char>,
    name: Seq<char>,
)
    requires
        is_needed(before, name),
        before.incoming.len() > 0,
        after.seen == before.seen,
        after.queue == before.queue.push((before.incoming[0].name, version)),
        after.incoming == before.incoming.skip(1),
    ensures
        is_needed(after, name),
{
    if !name_seen(before.seen, key(name)) {
        if exists|i: int| 0 <= i < before.queue.len() && key((#[trigger] before.queue[i]).0) == key(name) {
            let i = choose|i: int|
                0 <= i < before.queue.len() && key((#[trigger] before.queue[i]).0) == key(name);
            assert(after.queue[i] == before.queue[i]);
        } else {
            let i = choose|i: int|
                0 <= i < before.incoming.len() && key((#[trigger] before.incoming[i]).name) == key(
                    name,
                );
            if i == 0 {
                assert(key(after.queue[before.queue.len() as int].0) == key(name));
            } else {
                assert(after.incoming[i - 1] == before.incoming[i]);
            }
        }
    }
}

/// When a package is installed, what was needed stays needed, and what the package
/// depends on is needed with it.
pub proof fn dependencies_are_needed(
    before: ResolverModel,
    after: ResolverModel,
    transitive: Seq<DepModel>,
    name: Seq<char>,
)
    requires
        well_formed(before),
        before.waiting is Install,
        after.seen == before.seen,
        after.queue == before.queue,
        after.incoming == transitive,
    ensures
        is_needed(before, name) ==> is_needed(after, name),
        forall|i: int| 0 <= i < transitive.len() ==> is_needed(after, (#[trigger] transitive[i]).name),
{
    assert forall|i: int| 0 <= i < transitive.len() implies is_needed(
        after,
        (#[trigger] transitive[i]).name,
    ) by {
        assert(key(after.incoming[i].name) == key(transitive[i].name));
    }
}

/// A dependency of the project itself has no version.
#[derive(Debug)]
pub struct Unresolved {
    pub name: String,
}

fn key_of(name: &str) -> (r: String)
    ensures
        r@ == key(name@),
{
    let lower = unicode::str_to_lowercase(name);
    let whole = chars::of(lower.as_str());
    chars::to_string(&chars::replace_char(&whole, '-', "_"))
}

/// The dependency that a project declares, as a dependency of a package.
pub open spec fn as_declared(d: PythonDepModel) -> DepModel {
    DepModel { name: d.name, version: d.version, spec: d.spec }
}

impl Resolver {
    /// A search that starts from the dependencies of a project, for an interpreter
    /// and a platform. `in_store` lists the paths that are in the store; `force` says
    /// that packages are downloaded that are there too.
    pub fn new(
        deps: &Vec<PythonDep>,
        py_tag: String,
        platform: String,
        in_store: Vec<String>,
        force: bool,
    ) -> (r: Resolver)
        ensures
            r@.py_tag == py_tag@,
            r@.platform == platform@,
            r@.in_store == text::views(in_store@),
            r@.force == force,
            r@.incoming == parser::dep_views(deps@).map_values(|d: PythonDepModel| as_declared(d)),
            r@.queue.len() == 0,
            r@.seen.len() == 0,
            r@.packages.len() == 0,
            r@.waiting is Nothing,
            well_formed(r@),
    {
        let ghost all = deps@;
        let mut incoming: Vec<TransitiveDep> = Vec::new();
        let mut i: usize = 0;
        while i < deps.len()
            invariant
                i <= deps.len(),
                all == deps@,
                incoming@.len() == i,
                forall|k: int|
                    0 <= k < i ==> (#[trigger] incoming@[k])@ == as_declared(all[k]@),
            decreases deps.len() - i,
        {
            let d = &deps[i];
            incoming.push(
                TransitiveDep {
                    name: d.name.clone(),
                    version: d.version.clone(),
                    spec: d.spec.clone(),
                },
            );
            i = i + 1;
        }
        assert(client::dep_views(incoming@) =~= parser::dep_views(all).map_values(
            |d: PythonDepModel| as_declared(d),
        ));
        Resolver {
            py_tag,
            platform,
            in_store,
            force,
            incoming,
            queue: Vec::new(),
            seen: Vec::new(),
            packages: Vec::new(),
            waiting: Waiting::Nothing,
        }
    }

    fn has_name(&self, k: &str) -> (r: bool)
        ensures
            r == name_seen(self@.seen, k@),
    {
        let mut i: usize = 0;
        while i < self.seen.len()
            invariant
                i <= self.seen.len(),
                forall|j: int| 0 <= j < i ==> (#[trigger] self@.seen[j]).0 != k@,
            decreases self.seen.len() - i,
        {
            assert(self@.seen[i as int].0 == self.seen@[i as int].0@);
            if chars::str_same(self.seen[i].0.as_str(), k) {
                return true;
            }
            i = i + 1;
        }
        false
    }

    fn has_package(&self, k: &str, version: &str) -> (r: bool)
        ensures
            r == self@.seen.contains((k@, version@)),
    {
        let mut i: usize = 0;
        while i < self.seen.len()
            invariant
                i <= self.seen.len(),
                forall|j: int| 0 <= j < i ==> (#[trigger] self@.seen[j]) != (k@, version@),
            decreases self.seen.len() - i,
        {
            assert(self@.seen[i as int] == (self.seen@[i as int].0@, self.seen@[i as int].1@));
            if chars::str_same(self.seen[i].0.as_str(), k) && chars::str_same(
                self.seen[i].1.as_str(),
                version,
            ) {
                return true;
            }
            i = i + 1;
        }
        false
    }

    /// Goes on until something has to be done.
    pub fn next(&mut self) -> (r: Action)
        requires
            well_formed(old(self)@),
            old(self)@.waiting is Nothing,
        ensures
            (final(self)@, r@) == advance(old(self)@),
            well_formed(final(self)@),
    {
        proof {
            advance_keeps_form(self@);
        }
        let ghost start = self@;
        while self.incoming.len() > 0
            invariant
                start == old(self)@,
                advance(self@) == advance(start),
                well_formed(advance(start).0),
                self@.waiting is Nothing,
            decreases self.incoming.len(),
        {
            let ghost before = *self;
            assert(self@.incoming[0] == self.incoming@[0]@);
            let k = key_of(self.incoming[0].name.as_str());
            let known = self.has_name(k.as_str());
            if !known && self.incoming[0].version.as_str().is_empty() {
                let action = Action::Resolve {
                    name: self.incoming[0].name.clone(),
                    spec: self.incoming[0].spec.clone(),
                };
                self.waiting = Waiting::Version;
                return action;
            }
            let d = self.incoming.remove(0);
            assert(client::dep_views(self.incoming@) =~= before@.incoming.skip(1));
            if !known {
                self.queue.push((d.name, d.version));
                assert(pair_views(self.queue@) =~= before@.queue.push((d.name@, d.version@)));
            }
        }
        while self.queue.len() > 0
            invariant
                start == old(self)@,
                advance(self@) == advance(start),
                well_formed(advance(start).0),
                self@.waiting is Nothing,
                self@.incoming.len() == 0,
            decreases self.queue.len(),
        {
            let ghost before = *self;
            assert(self@.queue[0] == (self.queue@[0].0@, self.queue@[0].1@));
            let (name, version) = self.queue.remove(0);
            assert(pair_views(self.queue@) =~= before@.queue.skip(1));
            let k = key_of(name.as_str());
            if !self.has_package(k.as_str(), version.as_str()) {
                let store_path = config::python_package_path(
                    name.as_str(),
                    version.as_str(),
                    self.py_tag.as_str(),
                    self.platform.as_str(),
                );
                let fetch = config::needs_fetch(
                    &self.in_store,
                    self.force,
                    &self.packages,
                    store_path.as_str(),
                );
                let action = Action::Install {
                    name: name.clone(),
                    version: version.clone(),
                    store_path,
                    fetch,
                };
                self.seen.push((k, version.clone()));
                assert(pair_views(self.seen@) =~= before@.seen.push((key(name@), version@)));
                self.waiting = Waiting::Install { name, version, fetch };
                return action;
            }
        }
        Action::Finished
    }

    /// Goes on with the version that was found for the dependency that needed one.
    /// Where none was found the dependency is dropped, unless the project itself
    /// declares it: then the search fails.
    pub fn resolved(&mut self, version: Option<String>) -> (r: Result<(), Unresolved>)
        requires
            well_formed(old(self)@),
            old(self)@.waiting is Version,
        ensures
            well_formed(final(self)@),
            ({
                let m = old(self)@;
                let rest = ResolverModel {
                    incoming: m.incoming.skip(1),
                    waiting: WaitingModel::Nothing,
                    ..m
                };
                match version {
                    Some(v) => r is Ok && final(self)@ == (ResolverModel {
                        queue: m.queue.push((m.incoming[0].name, v@)),
                        ..rest
                    }),
                    None => if m.seen.len() > 0 {
                        r is Ok && final(self)@ == rest
                    } else {
                        &&& r matches Err(u)
                        &&& u.name@ == m.incoming[0].name
                        &&& final(self)@ == m
                    },
                }
            }),
    {
        let ghost before = *self;
        assert(self@.incoming[0] == self.incoming@[0]@);
        match version {
            Some(v) => {
                let d = self.incoming.remove(0);
                assert(client::dep_views(self.incoming@) =~= before@.incoming.skip(1));
                self.queue.push((d.name, v));
                assert(pair_views(self.queue@) =~= before@.queue.push((d.name@, v@)));
                self.waiting = Waiting::Nothing;
                Ok(())
            },
            None => {
                if self.seen.len() == 0 {
                    return Err(Unresolved { name: self.incoming[0].name.clone() });
                }
                let _dropped = self.incoming.remove(0);
                assert(client::dep_views(self.incoming@) =~= before@.incoming.skip(1));
                self.waiting = Waiting::Nothing;
                Ok(())
            },
        }
    }

    /// Goes on with the package that was installed: where it was downloaded from,
    /// if it had to be, and what it depends on.
    pub fn installed(&mut self, fetched: Option<FileInfo>, transitive: Vec<TransitiveDep>)
        requires
            well_formed(old(self)@),
            old(self)@.waiting matches WaitingModel::Install(_, _, fetch) && fetch == (
            fetched is Some),
        ensures
            well_formed(final(self)@),
            ({
                let m = old(self)@;
                let e = final(self)@.packages.last();
                &&& final(self)@ == (ResolverModel {
                    incoming: client::dep_views(transitive@),
                    packages: m.packages.push(e),
                    waiting: WaitingModel::Nothing,
                    ..m
                })
                &&& WaitingModel::Install(e.name@, e.version@, fetched is Some) == m.waiting
                &&& e.store_path@ == config::python_path(e.name@, e.version@, m.py_tag, m.platform)
                &&& match fetched {
                    Some(f) => e.hash == Some(f.hash) && e.source_url == Some(f.url),
                    None => e.hash is None && e.source_url is None,
                }
            }),
    {
        let ghost before = *self;
        if let Waiting::Install { name, version, fetch: _ } = &self.waiting {
            let store_path = config::python_package_path(
                name.as_str(),
                version.as_str(),
                self.py_tag.as_str(),
                self.platform.as_str(),
            );
            let planned = PlannedPackage {
                name: name.clone(),
                version: version.clone(),
                store_path,
                fetch: fetched.is_some(),
            };
            self.packages.push(config::package_entry(planned, fetched));
            self.incoming = transitive;
            self.waiting = Waiting::Nothing;
            assert(self@.packages.drop_last() =~= before@.packages);
            assert forall|i: int|
                0 <= i < self@.packages.len() implies #[trigger] config::has_right_origin(
                self@.packages,
                self@.in_store,
                self@.force,
                i,
            ) by {
                if i < before@.packages.len() {
                    assert(config::has_right_origin(
                        before@.packages,
                        before@.in_store,
                        before@.force,
                        i,
                    ));
                    assert(self@.packages[i] == before@.packages[i]);
                    assert(self@.packages.take(i) =~= before@.packages.take(i));
                } else {
                    assert(self@.packages.take(i) =~= before@.packages);
                }
            }
            assert forall|i: int| 0 <= i < self@.packages.len() implies is_entry_of(
                #[trigger] self@.packages[i],
                self@.seen[i],
                self@.py_tag,
                self@.platform,
            ) by {
                if i < before@.packages.len() {
                    assert(self@.packages[i] == before@.packages[i]);
                }
            }
        }
    }

    /// The packages that are installed, in the order of their installation.
    pub fn into_packages(self) -> (r: Vec<PackageEntry>)
        ensures
            r@ == self@.packages,
    {
        self.packages
    }
}

} // verus!
