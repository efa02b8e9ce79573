//! Which bottles a project needs: the formulae of its `Brewfile`, and from those
//! what each depends on, breadth first.
use vstd::prelude::*;

use crate::brew::client::FormulaInfo;
use crate::brew::parser::BrewDep;
use crate::brew::parser::BrewDepKind;
use crate::config;
use crate::config::PackageEntry;
use crate::paths;
use crate::text;

verus! {

/// The path of a bottle in the store.
pub open spec fn bottle_path(name: Seq<char>, version: Seq<char>) -> Seq<char> {
    "brew/"@ + name + "-"@ + version
}

/// The path of a bottle in the store.
pub fn bottle_store_path(name: &str, version: &str) -> (r: String)
    ensures
        r@ == bottle_path(name@, version@),
{
    let mut path = String::from_str("brew/");
    path.append(name);
    path.append("-");
    path.append(version);
    path
}

/// A search for the bottles that a project needs.
#[derive(Debug)]
pub struct BottleSearch {
    queue: Vec<String>,
    seen: Vec<String>,
    packages: Vec<PackageEntry>,
    in_store: Vec<String>,
    force: bool,
}

/// What a search knows.
pub struct SearchModel {
    /// The names of the formulae that are still to be looked at.
    pub queue: Seq<Seq<char>>,
    /// Those that were looked at.
    pub seen: Seq<Seq<char>>,
    /// The bottles that were found.
    pub packages: Seq<PackageEntry>,
    /// The paths that were in the store at the start.
    pub in_store: Seq<Seq<char>>,
    /// Bottles are downloaded that are in the store too.
    pub force: bool,
}

impl View for BottleSearch {
    type V = SearchModel;

    closed spec fn view(&self) -> SearchModel {
        SearchModel {
            queue: text::views(self.queue@),
            seen: text::views(self.seen@),
            packages: self.packages@,
            in_store: text::views(self.in_store@),
            force: self.force,
        }
    }
}

/// The formulae among dependencies.
pub open spec fn formulae(deps: Seq<BrewDep>) -> Seq<Seq<char>>
    decreases deps.len(),
{
    if deps.len() == 0 {
        Seq::empty()
    } else {
        let front = formulae(deps.drop_last());
        if deps.last().kind is Formula {
            front.push(deps.last().name@)
        } else {
            front
        }
    }
}

/// The first formula in the queue that was not looked at, and what is left then.
pub open spec fn advance(m: SearchModel) -> (SearchModel, Option<Seq<char>>)
    decreases m.queue.len(),
{
    if m.queue.len() == 0 {
        (m, None)
    } else {
        let rest = SearchModel { queue: m.queue.skip(1), ..m };
        if m.seen.contains(m.queue[0]) {
            advance(rest)
        } else {
            (SearchModel { seen: m.seen.push(m.queue[0]), ..rest }, Some(m.queue[0]))
        }
    }
}

/// No formula is looked at twice.
pub proof fn formulae_are_resolved_once(m: SearchModel)
    requires
        m.seen.no_duplicates(),
    ensures
        advance(m).0.seen.no_duplicates(),
        advance(m).0.packages == m.packages,
        advance(m).0.in_store == m.in_store,
        advance(m).0.force == m.force,
        advance(m).1 matches Some(name) ==> !m.seen.contains(name),
        advance(m).1 is None ==> forall|i: int|
            0 <= i < m.queue.len() ==> m.seen.contains(#[trigger] m.queue[i]),
    decreases m.queue.len(),
{
    if m.queue.len() > 0 {
        let rest = SearchModel { queue: m.queue.skip(1), ..m };
        if m.seen.contains(m.queue[0]) {
            formulae_are_resolved_once(rest);
            if advance(m).1 is None {
                assert forall|i: int| 0 <= i < m.queue.len() implies m.seen.contains(
                    #[trigger] m.queue[i],
                ) by {
                    if i > 0 {
                        assert(m.queue.skip(1)[i - 1] == m.queue[i]);
                    }
                }
            }
        }
    }
}

/// Each of the names was looked at or will be.
pub open spec fn covers(m: SearchModel, names: Seq<Seq<char>>) -> bool {
    forall|i: int|
        0 <= i < names.len() ==> m.seen.contains(#[trigger] names[i]) || m.queue.contains(
            names[i],
        )
}

/// No formula that is needed is lost on the way, and when nothing is left to look
/// at, each of them was looked at.
pub proof fn nothing_needed_is_missed(m: SearchModel, needed: Seq<Seq<char>>)
    requires
        covers(m, needed),
    ensures
        covers(advance(m).0, needed),
        advance(m).1 is None ==> forall|i: int|
            0 <= i < needed.len() ==> m.seen.contains(#[trigger] needed[i]),
    decreases m.queue.len(),
{
    if m.queue.len() > 0 {
        let first = m.queue[0];
        let rest = SearchModel { queue: m.queue.skip(1), ..m };
        let next = if m.seen.contains(first) {
            rest
        } else {
            SearchModel { seen: m.seen.push(first), ..rest }
        };
        assert forall|i: int| 0 <= i < needed.len() implies next.seen.contains(
            #[trigger] needed[i],
        ) || next.queue.contains(needed[i]) by {
            if m.seen.contains(needed[i]) {
                let k = choose|k: int| 0 <= k < m.seen.len() && m.seen[k] == needed[i];
                assert(next.seen[k] == needed[i]);
            } else {
                let k = choose|k: int| 0 <= k < m.queue.len() && m.queue[k] == needed[i];
                if k == 0 {
                    assert(m.seen.push(first)[m.seen.len() as int] == needed[i]);
                } else {
                    assert(m.queue.skip(1)[k - 1] == needed[i]);
                }
            }
        }
        if m.seen.contains(first) {
            nothing_needed_is_missed(rest, needed);
        }
    }
}

/// What a formula depends on is needed with it: behind its resolution, `before` and
/// `after`, the search covers what it covered and the dependencies.
pub proof fn dependencies_are_needed(
    before: SearchModel,
    after: SearchModel,
    needed: Seq<Seq<char>>,
    dependencies: Seq<Seq<char>>,
)
    requires
        covers(before, needed),
        after.seen == before.seen,
        after.queue == before.queue + dependencies,
    ensures
        covers(after, needed + dependencies),
{
    let all = needed + dependencies;
    assert forall|i: int| 0 <= i < all.len() implies after.seen.contains(#[trigger] all[i])
        || after.queue.contains(all[i]) by {
        if i < needed.len() {
            assert(all[i] == needed[i]);
            if !before.seen.contains(needed[i]) {
                let k = choose|k: int| 0 <= k < before.queue.len() && before.queue[k] == needed[i];
                assert(after.queue[k] == all[i]);
            }
        } else {
            let k = before.queue.len() + i - needed.len();
            assert(after.queue[k] == all[i]);
        }
    }
}

/// Every bottle has an origin exactly where it had to be downloaded.
pub open spec fn well_formed(m: SearchModel) -> bool {
    forall|i: int|
        0 <= i < m.packages.len() ==> #[trigger] config::has_right_origin(
            m.packages,
            m.in_store,
            m.force,
            i,
        )
}

/// Without force, a bottle that was in the store is not downloaded again, and so has
/// no origin.
pub proof fn stored_bottles_are_not_fetched(m: SearchModel, i: int)
    requires
        well_formed(m),
        !m.force,
        0 <= i < m.packages.len(),
        m.in_store.contains(m.packages[i].store_path@),
    ensures
        m.packages[i].hash is None,
        m.packages[i].source_url is None,
{
    assert(config::has_right_origin(m.packages, m.in_store, m.force, i));
}

/// The bottle of a formula has to be downloaded.
pub open spec fn is_wanted(m: SearchModel, formula: FormulaInfo) -> bool {
    config::must_fetch(
        m.in_store,
        m.force,
        m.packages,
        bottle_path(formula.name@, formula.version@),
    )
}

impl BottleSearch {
    /// A search that starts from the formulae of a `Brewfile`. `in_store` lists the
    /// paths that are in the store; `force` says that bottles are downloaded that are
    /// there too.
    pub fn new(deps: &Vec<BrewDep>, in_store: Vec<String>, force: bool) -> (r: BottleSearch)
        ensures
            r@.queue == formulae(deps@),
            r@.seen.len() == 0,
            r@.packages.len() == 0,
            r@.in_store == text::views(in_store@),
            r@.force == force,
            well_formed(r@),
    {
        let mut queue: Vec<String> = Vec::new();
        let mut i: usize = 0;
        assert(text::views(queue@) =~= formulae(deps@.take(0)));
        while i < deps.len()
            invariant
                i <= deps.len(),
                text::views(queue@) == formulae(deps@.take(i as int)),
            decreases deps.len() - i,
        {
            let ghost before = queue@;
            proof {
                assert(deps@.take(i + 1).drop_last() =~= deps@.take(i as int));
                assert(deps@.take(i + 1).last() == deps@[i as int]);
            }
            if deps[i].kind == BrewDepKind::Formula {
                queue.push(deps[i].name.clone());
                assert(text::views(queue@) =~= text::views(before).push(deps@[i as int].name@));
            }
            i = i + 1;
        }
        assert(deps@.take(i as int) =~= deps@);
        BottleSearch { queue, seen: Vec::new(), packages: Vec::new(), in_store, force }
    }

    /// The next formula to resolve, or nothing where all are.
    pub fn next(&mut self) -> (r: Option<String>)
        ensures
            (final(self)@, text::opt_view(r)) == advance(old(self)@),
            well_formed(old(self)@) ==> well_formed(final(self)@),
    {
        let ghost start = self@;
        while self.queue.len() > 0
            invariant
                start == old(self)@,
                advance(self@) == advance(start),
                self@.packages == start.packages,
                self@.in_store == start.in_store,
                self@.force == start.force,
            decreases self.queue.len(),
        {
            let ghost before = self@;
            assert(self@.queue[0] == self.queue@[0]@);
            let name = self.queue.remove(0);
            assert(text::views(self.queue@) =~= before.queue.skip(1));
            if !paths::listed(&self.seen, name.as_str()) {
                self.seen.push(name.clone());
                assert(text::views(self.seen@) =~= before.seen.push(name@));
                return Some(name);
            }
        }
        None
    }

    /// Has the bottle of a formula to be downloaded?
    pub fn needs_bottle(&self, formula: &FormulaInfo) -> (r: bool)
        ensures
            r == is_wanted(self@, *formula),
    {
        let store_path = bottle_store_path(formula.name.as_str(), formula.version.as_str());
        config::needs_fetch(&self.in_store, self.force, &self.packages, store_path.as_str())
    }

    /// Goes on with a formula that was resolved and whose bottle is in the store: the
    /// bottle is needed, and so is what the formula depends on.
    pub fn resolved(&mut self, formula: FormulaInfo)
        requires
            well_formed(old(self)@),
        ensures
            well_formed(final(self)@),
            ({
                let m = old(self)@;
                let e = final(self)@.packages.last();
                &&& final(self)@ == (SearchModel {
                    queue: m.queue + text::views(formula.dependencies@),
                    packages: m.packages.push(e),
                    ..m
                })
                &&& e.name == formula.name
                &&& e.version == formula.version
                &&& e.store_path@ == bottle_path(formula.name@, formula.version@)
                &&& if is_wanted(m, formula) {
                    e.hash == Some(formula.bottle_sha256) && e.source_url == Some(
                        formula.bottle_url,
                    )
                } else {
                    e.hash is None && e.source_url is None
                }
            }),
    {
        let fetched = self.needs_bottle(&formula);
        let ghost before = *self;
        let ghost deps = formula.dependencies@;
        let store_path = bottle_store_path(formula.name.as_str(), formula.version.as_str());
        let (hash, source_url) = if fetched {
            (Some(formula.bottle_sha256), Some(formula.bottle_url))
        } else {
            (None, None)
        };
        self.packages.push(
            PackageEntry {
                name: formula.name,
                version: formula.version,
                hash,
                store_path,
                source_url,
            },
        );
        let mut dependencies = formula.dependencies;
        self.queue.append(&mut dependencies);
        assert(text::views(self.queue@) =~= text::views(before.queue@) + text::views(deps));
        assert(self.packages@ =~= before.packages@.push(self.packages@.last()));
        assert forall|i: int|
            0 <= i < self@.packages.len() implies #[trigger] config::has_right_origin(
            self@.packages,
            self@.in_store,
            self@.force,
            i,
        ) by {
            if i < before@.packages.len() {
                assert(config::has_right_origin(
                    before@.packages,
                    before@.in_store,
                    before@.force,
                    i,
                ));
                assert(self@.packages[i] == before@.packages[i]);
                assert(self@.packages.take(i) =~= before@.packages.take(i));
            } else {
                assert(self@.packages.take(i) =~= before@.packages);
            }
        }
    }

    /// The bottles that were found, in the order in which they were.
    pub fn into_packages(self) -> (r: Vec<PackageEntry>)
        ensures
            r@ == self@.packages,
    {
        self.packages
    }
}

} // verus!
