//! The crates that a Rust project has locked.
use vstd::prelude::*;

use crate::chars;
use crate::doc;
use crate::doc::Doc;
use crate::doc::DocModel;
use crate::text;

verus! {

/// A crate that `Cargo.lock` names.
#[derive(Debug)]
pub struct RustDep {
    pub name: String,
    pub version: String,
    pub _checksum: Option<String>,
}

/// A package of `Cargo.lock`.
#[derive(Debug)]
pub struct LockedCrate {
    pub name: String,
    pub version: String,
    /// Where it comes from; the project's own packages come from nowhere.
    pub source: Option<String>,
    pub checksum: Option<String>,
}

/// What a package of `Cargo.lock` holds.
pub struct LockedModel {
    pub name: Seq<char>,
    pub version: Seq<char>,
    pub source: Option<Seq<char>>,
    pub checksum: Option<Seq<char>>,
}

impl View for LockedCrate {
    type V = LockedModel;

    open spec fn view(&self) -> LockedModel {
        LockedModel {
            name: self.name@,
            version: self.version@,
            source: text::opt_view(self.source),
            checksum: text::opt_view(self.checksum),
        }
    }
}

/// What a crate dependency holds.
pub struct RustDepModel {
    pub name: Seq<char>,
    pub version: Seq<char>,
    pub checksum: Option<Seq<char>>,
}

impl View for RustDep {
    type V = RustDepModel;

    open spec fn view(&self) -> RustDepModel {
        RustDepModel {
            name: self.name@,
            version: self.version@,
            checksum: text::opt_view(self._checksum),
        }
    }
}

/// What the packages of a lock file hold.
pub open spec fn locked_views(v: Seq<LockedCrate>) -> Seq<LockedModel> {
    Seq::new(v.len(), |i: int| v[i]@)
}

/// What a list of crates holds.
pub open spec fn dep_views(v: Seq<RustDep>) -> Seq<RustDepModel> {
    Seq::new(v.len(), |i: int| v[i]@)
}

// ── Checksums ────────────────────────────────────────────────
/// The number of bytes of a character in UTF-8.
pub open spec fn utf8_size(c: char) -> nat {
    if (c as u32) < 0x80 {
        1
    } else if (c as u32) < 0x800 {
        2
    } else if (c as u32) < 0x1_0000 {
        3
    } else {
        4
    }
}

/// The number of bytes of a text in UTF-8.
pub open spec fn utf8_len(s: Seq<char>) -> nat
    decreases s.len(),
{
    if s.len() == 0 {
        0
    } else {
        utf8_len(s.drop_last()) + utf8_size(s.last())
    }
}

/// The hexadecimal digits.
pub open spec fn is_hex(c: char) -> bool {
    text::is_digit(c) || 'a' <= c <= 'f' || 'A' <= c <= 'F'
}

/// Read two bytes at a time, as long as these are hexadecimal numbers, the text is cut
/// inside a character.
pub open spec fn cuts_character(s: Seq<char>) -> bool
    decreases s.len(),
{
    if s.len() == 0 || utf8_size(s[0]) == 2 {
        false
    } else if utf8_size(s[0]) > 2 {
        true
    } else if s.len() == 1 {
        false
    } else if utf8_size(s[1]) > 1 {
        true
    } else {
        (is_hex(s[0]) || s[0] == '+') && is_hex(s[1]) && cuts_character(s.skip(2))
    }
}

/// A text of the length of a checksum that is cut inside a character when it is read
/// as one.
pub open spec fn is_cut(s: Seq<char>) -> bool {
    utf8_len(s) == 64 && cuts_character(s)
}

/// The checksum of a package: under its name in a table, in the fourth place of a
/// list.
pub open spec fn checksum_of(package: DocModel) -> Option<Seq<char>> {
    match package {
        DocModel::List(items) => if items.len() > 3 {
            doc::as_text(Some(items[3]))
        } else {
            None
        },
        _ => doc::as_text(doc::get(package, "checksum"@)),
    }
}

/// The package has a checksum that is cut.
pub open spec fn package_is_cut(package: DocModel) -> bool {
    checksum_of(package) matches Some(s) && is_cut(s)
}

/// The entry of the metadata is a checksum that is cut.
pub open spec fn entry_is_cut(key: Seq<char>, value: DocModel) -> bool {
    "checksum "@.is_prefix_of(key) && (doc::as_text(Some(value)) matches Some(s) && is_cut(s))
}

/// One of the packages has a checksum that is cut.
pub open spec fn packages_are_cut(packages: Seq<DocModel>) -> bool {
    exists|i: int| 0 <= i < packages.len() && package_is_cut(#[trigger] packages[i])
}

/// One of the entries of the metadata is a checksum that is cut.
pub open spec fn entries_are_cut(entries: Seq<(Seq<char>, DocModel)>) -> bool {
    exists|i: int|
        0 <= i < entries.len() && entry_is_cut((#[trigger] entries[i]).0, entries[i].1)
}

/// One of the checksums of a lock file is cut: that of a package, that of the root
/// package, or one in the metadata.
pub open spec fn has_cut_checksum(lock: DocModel) -> bool {
    ||| (doc::as_list(doc::get(lock, "package"@)) matches Some(packages) && packages_are_cut(
        packages,
    ))
    ||| (doc::get(lock, "root"@) matches Some(root) && package_is_cut(root))
    ||| (doc::as_table(doc::get(lock, "metadata"@)) matches Some(entries) && entries_are_cut(
        entries,
    ))
}

fn is_checksum_length(s: &[char]) -> (r: bool)
    ensures
        r == (utf8_len(s@) == 64),
{
    let mut size: usize = 0;
    let mut i: usize = 0;
    assert(s@.take(0) =~= Seq::empty());
    while i < s.len()
        invariant
            i <= s.len(),
            size < 69,
            size < 65 ==> size == utf8_len(s@.take(i as int)),
            size >= 65 ==> utf8_len(s@.take(i as int)) >= 65,
        decreases s.len() - i,
    {
        let c = s[i];
        proof {
            assert(s@.take(i + 1).drop_last() =~= s@.take(i as int));
            assert(s@.take(i + 1).last() == c);
        }
        if size < 65 {
            size = size + char_size(c);
        }
        i = i + 1;
    }
    assert(s@.take(i as int) =~= s@);
    size == 64
}

fn char_size(c: char) -> (r: usize)
    ensures
        r == utf8_size(c),
{
    let code: u32 = c as u32;
    if code < 0x80 {
        1
    } else if code < 0x800 {
        2
    } else if code < 0x1_0000 {
        3
    } else {
        4
    }
}

fn hex_digit(c: char) -> (r: bool)
    ensures
        r == is_hex(c),
{
    chars::is_digit(c) || ('a' <= c && c <= 'f') || ('A' <= c && c <= 'F')
}

fn text_is_cut(s: &str) -> (r: bool)
    ensures
        r == is_cut(s@),
{
    let whole = chars::of(s);
    if !is_checksum_length(&whole) {
        return false;
    }
    let mut i: usize = 0;
    assert(whole@.skip(0) =~= whole@);
    while i < whole.len()
        invariant
            i <= whole.len(),
            whole@ == s@,
            utf8_len(s@) == 64,
            cuts_character(s@) == cuts_character(whole@.skip(i as int)),
        decreases whole.len() - i,
    {
        let ghost rest = whole@.skip(i as int);
        assert(rest[0] == whole@[i as int]);
        let first = char_size(whole[i]);
        if first > 1 {
            return first > 2;
        }
        if i + 1 == whole.len() {
            return false;
        }
        assert(rest[1] == whole@[i + 1]);
        if char_size(whole[i + 1]) > 1 {
            return true;
        }
        if !(hex_digit(whole[i]) || whole[i] == '+') || !hex_digit(whole[i + 1]) {
            return false;
        }
        assert(rest.skip(2) =~= whole@.skip(i + 2));
        i = i + 2;
    }
    false
}

fn value_is_cut(value: Option<&Doc>) -> (r: bool)
    ensures
        r == (doc::as_text(doc::opt_doc(value)) matches Some(s) && is_cut(s)),
{
    match doc::text_of(value) {
        Some(s) => text_is_cut(s.as_str()),
        None => false,
    }
}

fn has_cut(package: &Doc) -> (r: bool)
    ensures
        r == package_is_cut(package@),
{
    match package.as_list() {
        Some(items) => {
            if items.len() > 3 {
                assert(doc::item_models(items@)[3] == items@[3]@);
                value_is_cut(Some(&items[3]))
            } else {
                false
            }
        },
        None => value_is_cut(package.get("checksum")),
    }
}

fn any_package_is_cut(packages: &Vec<Doc>) -> (r: bool)
    ensures
        r == packages_are_cut(doc::item_models(packages@)),
{
    let ghost models = doc::item_models(packages@);
    let mut i: usize = 0;
    while i < packages.len()
        invariant
            i <= packages.len(),
            models == doc::item_models(packages@),
            forall|k: int| 0 <= k < i ==> !package_is_cut(#[trigger] models[k]),
        decreases packages.len() - i,
    {
        assert(models[i as int] == packages@[i as int]@);
        if has_cut(&packages[i]) {
            return true;
        }
        i = i + 1;
    }
    false
}

fn any_entry_is_cut(entries: &Vec<(String, Doc)>) -> (r: bool)
    ensures
        r == entries_are_cut(doc::entry_models(entries@)),
{
    let ghost models = doc::entry_models(entries@);
    let mut i: usize = 0;
    while i < entries.len()
        invariant
            i <= entries.len(),
            models == doc::entry_models(entries@),
            forall|k: int|
                0 <= k < i ==> !entry_is_cut((#[trigger] models[k]).0, models[k].1),
        decreases entries.len() - i,
    {
        assert(models[i as int] == (entries@[i as int].0@, entries@[i as int].1@));
        let key = chars::of(entries[i].0.as_str());
        if chars::starts_with(&key, "checksum ") && value_is_cut(Some(&entries[i].1)) {
            return true;
        }
        i = i + 1;
    }
    false
}

fn any_checksum_is_cut(lock: &Doc) -> (r: bool)
    ensures
        r == has_cut_checksum(lock@),
{
    if let Some(packages) = doc::list_of(lock.get("package")) {
        if any_package_is_cut(packages) {
            return true;
        }
    }
    if let Some(root) = lock.get("root") {
        if has_cut(root) {
            return true;
        }
    }
    if let Some(entries) = doc::table_of(lock.get("metadata")) {
        if any_entry_is_cut(entries) {
            return true;
        }
    }
    false
}

// ── Lock files ──────────────────────────────────────────────────────────────
/// The packages of a `Cargo.lock`, if its text is one.
pub uninterp spec fn lock_packages(content: Seq<char>) -> Option<Seq<LockedModel>>;

/// Parses a text as `cargo_lock::Lockfile` and writes out its packages: which
/// texts are lock files, and the name, version, source and checksum of each
/// package in them, depends on the text alone.
///
/// It parses the text with `toml::from_str`, as [`doc::parse_toml`] does, and reads a
/// checksum of 64 bytes two bytes at a time, which fails inside a character of more
/// than one byte. So the text has to be a document without such a checksum.
#[verifier::external_body]
fn read_lockfile(content: &str) -> (r: Option<Vec<LockedCrate>>)
    requires
        doc::toml_document(content@) matches Some(d) && !has_cut_checksum(d),
    ensures
        match r {
            Some(v) => lock_packages(content@) == Some(locked_views(v@)),
            None => lock_packages(content@) is None,
        },
{
    let lockfile = content.parse::<cargo_lock::Lockfile>().ok()?;
    Some(lockfile.packages.iter().map(|p| LockedCrate {
        name: p.name.as_str().to_string(),
        version: p.version.to_string(),
        source: p.source.as_ref().map(|s| s.to_string()),
        checksum: p.checksum.as_ref().map(|c| c.to_string()),
    }).collect())
}

/// The crates among locked packages: those that come from somewhere else than the
/// project itself.
pub open spec fn outside_crates(packages: Seq<LockedModel>) -> Seq<RustDepModel>
    decreases packages.len(),
{
    if packages.len() == 0 {
        Seq::empty()
    } else {
        let front = outside_crates(packages.drop_last());
        let p = packages.last();
        if p.source is Some {
            front.push(
                RustDepModel { name: p.name, version: p.version, checksum: p.checksum },
            )
        } else {
            front
        }
    }
}

/// The crates among locked packages.
pub fn crates_of(packages: Vec<LockedCrate>) -> (r: Vec<RustDep>)
    ensures
        dep_views(r@) == outside_crates(locked_views(packages@)),
{
    let ghost models = locked_views(packages@);
    let mut deps: Vec<RustDep> = Vec::new();
    let mut i: usize = 0;
    assert(dep_views(deps@) =~= outside_crates(models.take(0)));
    while i < packages.len()
        invariant
            i <= packages.len(),
            models == locked_views(packages@),
            dep_views(deps@) == outside_crates(models.take(i as int)),
        decreases packages.len() - i,
    {
        let ghost before = deps@;
        let p = &packages[i];
        proof {
            assert(models.take(i + 1).drop_last() =~= models.take(i as int));
            assert(models.take(i + 1).last() == p@);
        }
        if p.source.is_some() {
            let d = RustDep {
                name: p.name.clone(),
                version: p.version.clone(),
                _checksum: match &p.checksum {
                    Some(c) => Some(c.clone()),
                    None => None,
                },
            };
            let ghost model = d@;
            deps.push(d);
            assert(dep_views(deps@) =~= dep_views(before).push(model));
        }
        i = i + 1;
    }
    assert(models.take(i as int) =~= models);
    deps
}

/// A `Cargo.lock` that is not one.
#[derive(Debug, Clone, Copy, PartialEq, Eq, Structural)]
pub struct LockError;

/// The crates that a `Cargo.lock` names, if its text is one whose checksums can be
/// read.
pub open spec fn locked_crates(content: Seq<char>) -> Option<Seq<RustDepModel>> {
    match doc::toml_document(content) {
        Some(d) => if has_cut_checksum(d) {
            None
        } else {
            match lock_packages(content) {
                Some(packages) => Some(outside_crates(packages)),
                None => None,
            }
        },
        None => None,
    }
}

/// The crates that a `Cargo.lock` names.
pub fn parse_cargo_lock(content: &str) -> (r: Result<Vec<RustDep>, LockError>)
    ensures
        match r {
            Ok(v) => locked_crates(content@) == Some(dep_views(v@)),
            Err(_) => locked_crates(content@) is None,
        },
{
    match doc::parse_toml(content) {
        Some(lock) => {
            if any_checksum_is_cut(&lock) {
                return Err(LockError);
            }
        },
        None => {
            return Err(LockError);
        },
    }
    match read_lockfile(content) {
        Some(packages) => Ok(crates_of(packages)),
        None => Err(LockError),
    }
}

/// The crates of a project, by the content of its `Cargo.lock` where it has one.
pub fn detect_and_parse(cargo_lock: Option<&str>) -> (r: Result<Vec<RustDep>, LockError>)
    ensures
        match cargo_lock {
            None => r matches Ok(v) && v@.len() == 0,
            Some(content) => match r {
                Ok(v) => locked_crates(content@) == Some(dep_views(v@)),
                Err(_) => locked_crates(content@) is None,
            },
        },
{
    match cargo_lock {
        Some(content) => parse_cargo_lock(content),
        None => Ok(Vec::new()),
    }
}

} // verus!
