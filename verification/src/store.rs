//! The global store: where it is, where packages are in it, and what a diagnosis
//! says of it.
use vstd::prelude::*;

use crate::actions;
use crate::actions::ActionModel;
use crate::actions::FsAction;
use crate::chars;
use crate::paths;
use crate::text;

verus! {

/// The directory in which everything is kept by default: it needs a home directory
/// but on Windows.
pub open spec fn default_home(os: Seq<char>, home: Option<Seq<char>>) -> Option<Seq<char>> {
    if os == "windows"@ {
        Some("C:\\kong"@)
    } else {
        match home {
            Some(dir) => if os == "macos"@ {
                Some(paths::joined(dir, "Library/Application Support/kong"@))
            } else {
                Some(paths::joined(dir, ".kong"@))
            },
            None => None,
        }
    }
}

/// The root of the store: the one that was set, or the default of the platform.
pub open spec fn root_of(set: Option<Seq<char>>, os: Seq<char>, home: Option<Seq<char>>) -> Option<
    Seq<char>,
> {
    match set {
        Some(path) => Some(path),
        None => match default_home(os, home) {
            Some(dir) => if os == "windows"@ {
                Some(dir + "\\store"@)
            } else if os == "macos"@ {
                Some(paths::joined(dir, "store"@))
            } else {
                Some(dir)
            },
            None => None,
        },
    }
}

/// The directory of the environments of a project.
pub open spec fn env_dir_of(
    set: Option<Seq<char>>,
    os: Seq<char>,
    home: Option<Seq<char>>,
    project: Seq<char>,
) -> Option<Seq<char>> {
    match set {
        Some(path) => Some(paths::joined(paths::joined(path, "RULEZ"@), project)),
        None => match default_home(os, home) {
            Some(dir) => if os == "windows"@ {
                Some(dir + "\\RULEZ\\"@ + project)
            } else {
                Some(paths::joined(paths::joined(dir, "RULEZ"@), project))
            },
            None => None,
        },
    }
}

fn kong_home(os: &str, home: Option<&str>) -> (r: Option<String>)
    ensures
        text::opt_view(r) == default_home(os@, text::opt_str_view(home)),
{
    if chars::str_same(os, "windows") {
        return Some(String::from_str("C:\\kong"));
    }
    match home {
        Some(dir) => if chars::str_same(os, "macos") {
            Some(paths::join(dir, "Library/Application Support/kong"))
        } else {
            Some(paths::join(dir, ".kong"))
        },
        None => None,
    }
}

/// The root of the store. `set` is the value of `KONG_STORE`, where it has one, and
/// `home` the home directory, where it is known.
pub fn store_root(set: Option<&str>, os: &str, home: Option<&str>) -> (r: Option<String>)
    ensures
        text::opt_view(r) == root_of(text::opt_str_view(set), os@, text::opt_str_view(home)),
{
    if let Some(path) = set {
        return Some(String::from_str(path));
    }
    match kong_home(os, home) {
        Some(dir) => if chars::str_same(os, "windows") {
            let mut out = dir;
            out.append("\\store");
            Some(out)
        } else if chars::str_same(os, "macos") {
            Some(paths::join(dir.as_str(), "store"))
        } else {
            Some(dir)
        },
        None => None,
    }
}

/// The directory of the environments of a project.
pub fn rulez_dir(set: Option<&str>, os: &str, home: Option<&str>, project: &str) -> (r: Option<
    String,
>)
    ensures
        text::opt_view(r) == env_dir_of(
            text::opt_str_view(set),
            os@,
            text::opt_str_view(home),
            project@,
        ),
{
    if let Some(path) = set {
        return Some(paths::join(paths::join(path, "RULEZ").as_str(), project));
    }
    match kong_home(os, home) {
        Some(dir) => if chars::str_same(os, "windows") {
            let mut out = dir;
            out.append("\\RULEZ\\");
            out.append(project);
            Some(out)
        } else {
            Some(paths::join(paths::join(dir.as_str(), "RULEZ").as_str(), project))
        },
        None => None,
    }
}

// ── Paths ───────────────────────────────────────────────────────────────────
/// The place of a Python package in the store.
pub fn python_store_path(
    store_root: &str,
    name: &str,
    version: &str,
    python_tag: &str,
    platform_tag: &str,
) -> (r: String)
    ensures
        r@ == paths::joined(
            paths::joined(paths::joined(store_root@, "python"@), "libs"@),
            name@ + "-"@ + version@ + "-"@ + python_tag@ + "-"@ + platform_tag@,
        ),
{
    let mut leaf = String::from_str(name);
    leaf.append("-");
    leaf.append(version);
    leaf.append("-");
    leaf.append(python_tag);
    leaf.append("-");
    leaf.append(platform_tag);
    let libs = paths::join(paths::join(store_root, "python").as_str(), "libs");
    paths::join(libs.as_str(), leaf.as_str())
}

/// The place of a Node.js package in the store.
pub fn node_store_path(store_root: &str, name: &str, version: &str) -> (r: String)
    ensures
        r@ == paths::joined(
            paths::joined(paths::joined(store_root@, "node"@), "libs"@),
            name@ + "-"@ + version@,
        ),
{
    let mut leaf = String::from_str(name);
    leaf.append("-");
    leaf.append(version);
    let libs = paths::join(paths::join(store_root, "node").as_str(), "libs");
    paths::join(libs.as_str(), leaf.as_str())
}

/// The place of a crate in the store.
pub fn rust_store_path(store_root: &str, name: &str, version: &str) -> (r: String)
    ensures
        r@ == paths::joined(
            paths::joined(paths::joined(store_root@, "rust"@), "crates"@),
            name@ + "-"@ + version@,
        ),
{
    let mut leaf = String::from_str(name);
    leaf.append("-");
    leaf.append(version);
    let crates = paths::join(paths::join(store_root, "rust").as_str(), "crates");
    paths::join(crates.as_str(), leaf.as_str())
}

// ── The mark of a verified package ──────────────────────────────────────────
/// The file that marks a package whose content was checked.
pub const VERIFIED_MARKER: &'static str = ".kong-verified";

/// The names in the directory of a package have the mark among them.
pub fn is_verified(names: &[String]) -> (r: bool)
    ensures
        r == text::views(names@).contains(VERIFIED_MARKER@),
{
    paths::listed(names, VERIFIED_MARKER)
}

/// The content of the mark of a package with a digest, at a time.
pub open spec fn marker_text(hash: Seq<char>, now: Seq<char>) -> Seq<char> {
    "hash="@ + hash + "\nverified="@ + now + "\n"@
}

/// The step that marks a package with the digest of its archive, at a time.
pub fn write_verified_marker(store_path: &str, hash: &str, now: &str) -> (r: FsAction)
    ensures
        r@ == ActionModel::Write(
            paths::joined(store_path@, VERIFIED_MARKER@),
            marker_text(hash@, now@),
        ),
{
    let mut content = String::from_str("hash=");
    content.append(hash);
    content.append("\nverified=");
    content.append(now);
    content.append("\n");
    FsAction::Write { path: paths::join(store_path, VERIFIED_MARKER), content }
}

proof fn no_slash_behind(s: Seq<char>, m: int, i: int)
    requires
        0 <= m <= i <= s.len(),
        forall|k: int| m <= k < i ==> s[k] != '/',
    ensures
        text::rfind_before(s, '/', i) == text::rfind_before(s, '/', m),
    decreases i,
{
    if i > m {
        no_slash_behind(s, m, i - 1);
    }
}

/// The mark that is written is the one that is looked for: the step that marks a
/// package puts it directly into the package's directory, under the name that
/// [`is_verified`] looks for there, so a package is verified once its directory
/// lists what the step wrote.
pub proof fn written_mark_is_found(
    step: ActionModel,
    store_path: Seq<char>,
    hash: Seq<char>,
    now: Seq<char>,
    names: Seq<Seq<char>>,
)
    requires
        step == ActionModel::Write(
            paths::joined(store_path, VERIFIED_MARKER@),
            marker_text(hash, now),
        ),
        names.contains(paths::last_part(actions::path_of(step))),
    ensures
        paths::last_part(actions::path_of(step)) == VERIFIED_MARKER@,
        store_path.len() > 0 && store_path.last() != '/' ==> paths::parent_part(
            actions::path_of(step),
        ) == store_path,
        names.contains(VERIFIED_MARKER@),
{
    reveal_strlit(".kong-verified");
    reveal_strlit("/");
    let mark = VERIFIED_MARKER@;
    let path = paths::joined(store_path, mark);
    let m = path.len() - mark.len();
    assert forall|k: int| m <= k < path.len() implies path[k] != '/' by {
        assert(path[k] == mark[k - m]);
    }
    no_slash_behind(path, m, path.len() as int);
    if store_path.len() == 0 {
        assert(paths::last_part(path) =~= mark);
    } else {
        assert(path[m - 1] == '/');
        assert(path.skip(m) =~= mark);
        if store_path.last() != '/' {
            assert(path.take(m - 1) =~= store_path);
        }
    }
}

// ── Diagnosis ───────────────────────────────────────────────────────────────
/// An entry of a directory of packages.
#[derive(Debug)]
pub struct StoreItem {
    pub path: String,
    pub is_dir: bool,
    /// It has the mark of a verified package.
    pub verified: bool,
}

/// The directories of packages of a store; one that is missing is empty.
#[derive(Debug)]
pub struct StoreListing {
    pub python: Vec<StoreItem>,
    pub node: Vec<StoreItem>,
    pub rust: Vec<StoreItem>,
}

/// What a diagnosis says of the store.
#[derive(Debug)]
pub struct DoctorReport {
    pub store_path: String,
    pub store_exists: bool,
    pub python_count: usize,
    pub node_count: usize,
    pub rust_count: usize,
    pub issues: Vec<String>,
}

/// The number of packages among the entries.
pub open spec fn package_count(items: Seq<StoreItem>) -> nat
    decreases items.len(),
{
    if items.len() == 0 {
        0
    } else {
        package_count(items.drop_last()) + if items.last().is_dir {
            1nat
        } else {
            0nat
        }
    }
}

/// What is wrong with the packages among the entries: those without the mark.
pub open spec fn unverified(items: Seq<StoreItem>) -> Seq<Seq<char>>
    decreases items.len(),
{
    if items.len() == 0 {
        Seq::empty()
    } else {
        let front = unverified(items.drop_last());
        if items.last().is_dir && !items.last().verified {
            front.push("Unverified package: "@ + items.last().path@)
        } else {
            front
        }
    }
}

fn count_subdirs(items: &Vec<StoreItem>) -> (r: usize)
    ensures
        r == package_count(items@),
{
    let mut count: usize = 0;
    let mut i: usize = 0;
    while i < items.len()
        invariant
            i <= items.len(),
            count <= i,
            count == package_count(items@.take(i as int)),
        decreases items.len() - i,
    {
        proof {
            assert(items@.take(i + 1).drop_last() =~= items@.take(i as int));
            assert(items@.take(i + 1).last() == items@[i as int]);
        }
        if items[i].is_dir {
            count = count + 1;
        }
        i = i + 1;
    }
    assert(items@.take(i as int) =~= items@);
    count
}

fn check_verified(items: &Vec<StoreItem>, issues: &mut Vec<String>)
    ensures
        text::views(final(issues)@) == text::views(old(issues)@) + unverified(items@),
{
    let ghost start = text::views(issues@);
    let mut i: usize = 0;
    assert(start =~= start + unverified(items@.take(0)));
    while i < items.len()
        invariant
            i <= items.len(),
            start == text::views(old(issues)@),
            text::views(issues@) == start + unverified(items@.take(i as int)),
        decreases items.len() - i,
    {
        let ghost before = issues@;
        proof {
            assert(items@.take(i + 1).drop_last() =~= items@.take(i as int));
            assert(items@.take(i + 1).last() == items@[i as int]);
        }
        if items[i].is_dir && !items[i].verified {
            let mut issue = String::from_str("Unverified package: ");
            issue.append(items[i].path.as_str());
            let ghost model = issue@;
            issues.push(issue);
            assert(text::views(issues@) =~= text::views(before).push(model));
            assert(text::views(issues@) =~= start + unverified(items@.take(i + 1)));
        }
        i = i + 1;
    }
    assert(items@.take(i as int) =~= items@);
}

/// What a diagnosis says of the store at `root`, with its directories of packages
/// where it exists.
pub fn doctor(root: &str, listing: Option<&StoreListing>) -> (r: DoctorReport)
    ensures
        r.store_path@ == root@,
        match listing {
            Some(l) => {
                &&& r.store_exists
                &&& r.python_count == package_count(l.python@)
                &&& r.node_count == package_count(l.node@)
                &&& r.rust_count == package_count(l.rust@)
                &&& text::views(r.issues@) == unverified(l.python@) + unverified(l.node@)
                    + unverified(l.rust@)
            },
            None => {
                &&& !r.store_exists
                &&& r.python_count == 0
                &&& r.node_count == 0
                &&& r.rust_count == 0
                &&& text::views(r.issues@)
                    == seq!["Store directory does not exist. Run 'kong rules' to initialize."@]
            },
        },
{
    let mut issues: Vec<String> = Vec::new();
    let mut python_count: usize = 0;
    let mut node_count: usize = 0;
    let mut rust_count: usize = 0;
    if let Some(l) = listing {
        python_count = count_subdirs(&l.python);
        node_count = count_subdirs(&l.node);
        rust_count = count_subdirs(&l.rust);
        check_verified(&l.python, &mut issues);
        check_verified(&l.node, &mut issues);
        check_verified(&l.rust, &mut issues);
        assert(text::views(issues@) =~= unverified(l.python@) + unverified(l.node@) + unverified(
            l.rust@,
        ));
    } else {
        issues.push(
            String::from_str("Store directory does not exist. Run 'kong rules' to initialize."),
        );
        assert(text::views(issues@)
            =~= seq!["Store directory does not exist. Run 'kong rules' to initialize."@]);
    }
    DoctorReport {
        store_path: String::from_str(root),
        store_exists: listing.is_some(),
        python_count,
        node_count,
        rust_count,
        issues,
    }
}

/// The first line of a report.
pub open spec fn store_line(r: DoctorReport) -> Seq<char> {
    if r.store_exists {
        "  ✓ Store: "@ + r.store_path@ + " ("@ + text::decimal(r.python_count as nat)
            + " Python, "@ + text::decimal(r.node_count as nat) + " Node, "@ + text::decimal(
            r.rust_count as nat,
        ) + " Rust packages)"@
    } else {
        "  ✗ Store: "@ + r.store_path@ + " (not found)"@
    }
}

/// The lines of a report behind the first.
pub open spec fn issue_lines(issues: Seq<String>) -> Seq<Seq<char>> {
    if issues.len() == 0 {
        seq!["  ✓ No issues found"@]
    } else {
        Seq::new(issues.len(), |i: int| "  ✗ "@ + issues[i]@)
    }
}

fn append_number(out: &mut String, n: usize)
    ensures
        final(out)@ == old(out)@ + text::decimal(n as nat),
{
    let digits = chars::to_string(&chars::decimal(n as u128));
    out.append(digits.as_str());
}

impl DoctorReport {
    /// The lines that are printed of a report.
    pub fn lines(&self) -> (r: Vec<String>)
        ensures
            text::views(r@) == seq![store_line(*self)] + issue_lines(self.issues@),
    {
        let mut out: Vec<String> = Vec::new();
        let mut first = String::new();
        if self.store_exists {
            first.append("  ✓ Store: ");
            first.append(self.store_path.as_str());
            first.append(" (");
            append_number(&mut first, self.python_count);
            first.append(" Python, ");
            append_number(&mut first, self.node_count);
            first.append(" Node, ");
            append_number(&mut first, self.rust_count);
            first.append(" Rust packages)");
        } else {
            first.append("  ✗ Store: ");
            first.append(self.store_path.as_str());
            first.append(" (not found)");
        }
        assert(first@ =~= store_line(*self));
        out.push(first);
        let ghost start = text::views(out@);
        assert(start =~= seq![store_line(*self)]);
        if self.issues.len() == 0 {
            out.push(String::from_str("  ✓ No issues found"));
            assert(text::views(out@) =~= start + issue_lines(self.issues@));
            return out;
        }
        let ghost all = issue_lines(self.issues@);
        let mut i: usize = 0;
        assert(start =~= start + all.take(0));
        while i < self.issues.len()
            invariant
                i <= self.issues.len(),
                self.issues.len() > 0,
                all == issue_lines(self.issues@),
                text::views(out@) == start + all.take(i as int),
            decreases self.issues.len() - i,
        {
            let ghost before = out@;
            let mut line = String::from_str("  ✗ ");
            line.append(self.issues[i].as_str());
            let ghost model = line@;
            assert(model == all[i as int]);
            out.push(line);
            i = i + 1;
            assert(text::views(out@) =~= text::views(before).push(model));
            assert(text::views(out@) =~= start + all.take(i as int));
        }
        assert(all.take(i as int) =~= all);
        out
    }
}

/// Every package without the mark is an issue.
pub proof fn unverified_package_is_an_issue(items: Seq<StoreItem>, i: int)
    requires
        0 <= i < items.len(),
        items[i].is_dir,
        !items[i].verified,
    ensures
        unverified(items).contains("Unverified package: "@ + items[i].path@),
    decreases items.len(),
{
    let issue = "Unverified package: "@ + items[i].path@;
    let front = unverified(items.drop_last());
    if i == items.len() - 1 {
        assert(unverified(items).last() == issue);
    } else {
        assert(items.drop_last()[i] == items[i]);
        unverified_package_is_an_issue(items.drop_last(), i);
        let k = choose|k: int| 0 <= k < front.len() && front[k] == issue;
        assert(unverified(items)[k] == issue);
    }
}

} // verus!
