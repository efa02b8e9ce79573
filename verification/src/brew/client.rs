//! Homebrew bottles: which one is taken for a machine, how it is asked for, and how
//! the paths in its binaries are changed.
use vstd::prelude::*;

use crate::chars;
use crate::config::BrewSection;
use crate::config::PackageEntry;
use crate::doc;
use crate::doc::Doc;
use crate::doc::DocModel;
use crate::download;
use crate::download::FileInfo;
use crate::download::HashMismatch;
use crate::extract;
use crate::paths;
use crate::text;

verus! {

/// What is known of a formula.
#[derive(Debug)]
pub struct FormulaInfo {
    pub name: String,
    pub version: String,
    pub keg_only: bool,
    pub dependencies: Vec<String>,
    pub bottle_url: String,
    pub bottle_sha256: String,
}

// ── Platforms ───────────────────────────────────────────────────────────────
/// The name of a release of macOS, by its major version; the newest known one of
/// wide use stands for one that is not known.
pub open spec fn macos_name(major: u32) -> Seq<char> {
    if major == 26 {
        "tahoe"@
    } else if major == 15 {
        "sequoia"@
    } else if major == 14 {
        "sonoma"@
    } else if major == 13 {
        "ventura"@
    } else if major == 12 {
        "monterey"@
    } else if major == 11 {
        "big_sur"@
    } else {
        "sequoia"@
    }
}

/// The name of a release of macOS, by its major version.
pub fn macos_version_name(major: u32) -> (r: &'static str)
    ensures
        r@ == macos_name(major),
{
    if major == 26 {
        "tahoe"
    } else if major == 15 {
        "sequoia"
    } else if major == 14 {
        "sonoma"
    } else if major == 13 {
        "ventura"
    } else if major == 12 {
        "monterey"
    } else if major == 11 {
        "big_sur"
    } else {
        "sequoia"
    }
}

/// The major version in what `sw_vers -productVersion` prints.
pub open spec fn major_in(output: Seq<char>) -> Option<nat> {
    text::parse_unsigned(text::before(text::trim(output), '.'), u32::MAX as nat)
}

/// The major version of macOS, by what `sw_vers -productVersion` prints.
pub fn macos_major(output: &str) -> (r: Option<u32>)
    ensures
        match r {
            Some(n) => major_in(output@) == Some(n as nat),
            None => major_in(output@) is None,
        },
{
    let whole = chars::of(output);
    chars::parse_u32(chars::before(chars::trim(&whole), '.'))
}

/// The tag of the bottles for a machine. On macOS it names the release, with the
/// architecture before it unless that is Intel's.
pub open spec fn platform_tag(os: Seq<char>, arch: Seq<char>, macos: u32) -> Option<Seq<char>> {
    if os == "macos"@ {
        if arch == "aarch64"@ {
            Some("arm64_"@ + macos_name(macos))
        } else {
            Some(macos_name(macos))
        }
    } else if os == "linux"@ {
        if arch == "aarch64"@ {
            Some("arm64_linux"@)
        } else {
            Some("x86_64_linux"@)
        }
    } else {
        None
    }
}

/// The tag of the bottles for a machine, by its operating system and architecture,
/// and on macOS by the major version; nothing where there are no bottles.
pub fn bottle_platform_tag(os: &str, arch: &str, macos: u32) -> (r: Option<String>)
    ensures
        text::opt_view(r) == platform_tag(os@, arch@, macos),
{
    let arm = chars::str_same(arch, "aarch64");
    if chars::str_same(os, "macos") {
        let name = macos_version_name(macos);
        if arm {
            let mut tag = String::from_str("arm64_");
            tag.append(name);
            Some(tag)
        } else {
            Some(String::from_str(name))
        }
    } else if chars::str_same(os, "linux") {
        if arm {
            Some(String::from_str("arm64_linux"))
        } else {
            Some(String::from_str("x86_64_linux"))
        }
    } else {
        None
    }
}

/// The directories around the files in the archive of a bottle: the name of the
/// formula and its version.
pub const BOTTLE_STRIP: usize = 2;

// ── Bottles ─────────────────────────────────────────────────────────────────
/// The address and the digest in the entry of a bottle.
pub open spec fn bottle_entry(entry: DocModel) -> Option<(Seq<char>, Seq<char>)> {
    match (doc::text_at(entry, "url"@), doc::text_at(entry, "sha256"@)) {
        (Some(url), Some(sha256)) => Some((url, sha256)),
        _ => None,
    }
}

/// The tags of the releases of macOS, the newest first.
pub open spec fn chain(arm: bool) -> Seq<Seq<char>> {
    if arm {
        seq![
            "arm64_tahoe"@,
            "arm64_sequoia"@,
            "arm64_sonoma"@,
            "arm64_ventura"@,
            "arm64_monterey"@,
            "arm64_big_sur"@,
        ]
    } else {
        seq!["tahoe"@, "sequoia"@, "sonoma"@, "ventura"@, "monterey"@, "big_sur"@]
    }
}

/// The tags from the preferred one on, or all of them where it is not among them.
pub open spec fn from_tag(tags: Seq<Seq<char>>, preferred: Seq<char>) -> Seq<Seq<char>> {
    if tags.contains(preferred) {
        tags.skip(tags.index_of_first(preferred)->0)
    } else {
        tags
    }
}

/// The bottle of the first of the tags that has an entry.
pub open spec fn first_entry(files: Option<DocModel>, tags: Seq<Seq<char>>) -> Option<
    (Seq<char>, Seq<char>),
>
    decreases tags.len(),
{
    if tags.len() == 0 {
        None
    } else {
        match doc::get_opt(files, tags[0]) {
            Some(entry) => bottle_entry(entry),
            None => first_entry(files, tags.skip(1)),
        }
    }
}

/// The bottle for a tag: its own, or on macOS that of the next older release that
/// has one.
pub open spec fn chosen_bottle(files: Option<DocModel>, preferred: Seq<char>) -> Option<
    (Seq<char>, Seq<char>),
> {
    match doc::get_opt(files, preferred) {
        Some(entry) => bottle_entry(entry),
        None => if text::contains(preferred, "linux"@) {
            None
        } else if "arm64_"@.is_prefix_of(preferred) {
            first_entry(files, from_tag(chain(true), preferred))
        } else {
            first_entry(files, from_tag(chain(false), preferred))
        },
    }
}

fn extract_bottle_entry(entry: &Doc) -> (r: Option<(String, String)>)
    ensures
        match r {
            Some((url, sha256)) => bottle_entry(entry@) == Some((url@, sha256@)),
            None => bottle_entry(entry@) is None,
        },
{
    match doc::text_of(entry.get("url")) {
        Some(url) => match doc::text_of(entry.get("sha256")) {
            Some(sha256) => Some((url.clone(), sha256.clone())),
            None => None,
        },
        None => None,
    }
}

fn older_bottle(files: Option<&Doc>, tags: &[&str], preferred: &str) -> (r: Option<
    (String, String),
>)
    ensures
        match r {
            Some((url, sha256)) => first_entry(
                doc::opt_doc(files),
                from_tag(paths::str_views(tags@), preferred@),
            ) == Some((url@, sha256@)),
            None => first_entry(
                doc::opt_doc(files),
                from_tag(paths::str_views(tags@), preferred@),
            ) is None,
        },
{
    let ghost texts = paths::str_views(tags@);
    let mut start: usize = 0;
    while start < tags.len() && !chars::str_same(tags[start], preferred)
        invariant
            start <= tags.len(),
            texts == paths::str_views(tags@),
            forall|j: int| 0 <= j < start ==> #[trigger] texts[j] != preferred@,
        decreases tags.len() - start,
    {
        assert(texts[start as int] == tags@[start as int]@);
        start = start + 1;
    }
    if start == tags.len() {
        assert(!texts.contains(preferred@));
        start = 0;
        assert(texts.skip(0) =~= texts);
    } else {
        proof {
            assert(texts[start as int] == tags@[start as int]@);
            assert(texts.contains(preferred@));
            texts.index_of_first_ensures(preferred@);
            let k = texts.index_of_first(preferred@)->0;
            assert(texts[k] == preferred@);
            assert(k == start);
        }
    }
    assert(from_tag(texts, preferred@) == texts.skip(start as int));
    let mut i: usize = start;
    while i < tags.len()
        invariant
            i <= tags.len(),
            texts == paths::str_views(tags@),
            first_entry(doc::opt_doc(files), from_tag(texts, preferred@)) == first_entry(
                doc::opt_doc(files),
                texts.skip(i as int),
            ),
        decreases tags.len() - i,
    {
        assert(texts.skip(i as int)[0] == tags@[i as int]@);
        if let Some(entry) = doc::get_in(files, tags[i]) {
            return extract_bottle_entry(entry);
        }
        assert(texts.skip(i as int).skip(1) =~= texts.skip(i + 1));
        i = i + 1;
    }
    None
}

/// The address and the digest of the bottle for a tag.
pub fn pick_bottle(files: Option<&Doc>, preferred: &str) -> (r: Option<(String, String)>)
    ensures
        match r {
            Some((url, sha256)) => chosen_bottle(doc::opt_doc(files), preferred@) == Some(
                (url@, sha256@),
            ),
            None => chosen_bottle(doc::opt_doc(files), preferred@) is None,
        },
{
    if let Some(entry) = doc::get_in(files, preferred) {
        return extract_bottle_entry(entry);
    }
    let whole = chars::of(preferred);
    if chars::contains(&whole, "linux") {
        None
    } else if chars::starts_with(&whole, "arm64_") {
        let tags: [&str; 6] = [
            "arm64_tahoe",
            "arm64_sequoia",
            "arm64_sonoma",
            "arm64_ventura",
            "arm64_monterey",
            "arm64_big_sur",
        ];
        let slice = tags.as_slice();
        assert(paths::str_views(slice@) =~= chain(true));
        older_bottle(files, slice, preferred)
    } else {
        let tags: [&str; 6] = ["tahoe", "sequoia", "sonoma", "ventura", "monterey", "big_sur"];
        let slice = tags.as_slice();
        assert(paths::str_views(slice@) =~= chain(false));
        older_bottle(files, slice, preferred)
    }
}

/// A bottle of its own is taken before any other.
pub proof fn own_bottle_is_preferred(files: Option<DocModel>, preferred: Seq<char>)
    requires
        doc::get_opt(files, preferred) is Some,
    ensures
        chosen_bottle(files, preferred) == bottle_entry(doc::get_opt(files, preferred)->0),
{
}

/// A bottle that is taken is that of one of the tags, and the tags before it have
/// none.
pub proof fn taken_bottle_is_the_newest(
    files: Option<DocModel>,
    tags: Seq<Seq<char>>,
    i: int,
)
    requires
        0 <= i < tags.len(),
        doc::get_opt(files, tags[i]) is Some,
        forall|j: int| 0 <= j < i ==> doc::get_opt(files, #[trigger] tags[j]) is None,
    ensures
        first_entry(files, tags) == bottle_entry(doc::get_opt(files, tags[i])->0),
    decreases i,
{
    if i > 0 {
        let rest = tags.skip(1);
        assert(rest[i - 1] == tags[i]);
        assert forall|j: int| 0 <= j < i - 1 implies doc::get_opt(files, #[trigger] rest[j]) is None
            by {
            assert(rest[j] == tags[j + 1]);
        }
        assert(doc::get_opt(files, tags[0]) is None);
        taken_bottle_is_the_newest(files, rest, i - 1);
    }
}

// ── Formulae ────────────────────────────────────────────────────────────────
/// Why a formula cannot be resolved.
#[derive(Debug)]
pub enum FormulaError {
    /// Its description cannot be parsed.
    NotJson { name: String },
    /// Its description names no stable version.
    NoStableVersion,
    /// There is no bottle for the tag.
    NoBottle { name: String, tag: String },
}

impl FormulaError {
    /// What is said of it.
    pub fn message(&self) -> (r: String)
        ensures
            r@ == match self {
                FormulaError::NotJson { name } => "failed to parse formula JSON for '"@ + name@
                    + "'"@,
                FormulaError::NoStableVersion => "missing versions.stable"@,
                FormulaError::NoBottle { name, tag } => "no suitable bottle found for '"@ + name@
                    + "' (looking for tag '"@ + tag@ + "')"@,
            },
    {
        match self {
            FormulaError::NotJson { name } => {
                let mut out = String::from_str("failed to parse formula JSON for '");
                out.append(name.as_str());
                out.append("'");
                out
            },
            FormulaError::NoStableVersion => String::from_str("missing versions.stable"),
            FormulaError::NoBottle { name, tag } => {
                let mut out = String::from_str("no suitable bottle found for '");
                out.append(name.as_str());
                out.append("' (looking for tag '");
                out.append(tag.as_str());
                out.append("')");
                out
            },
        }
    }
}

/// The texts among the items of a list.
pub open spec fn text_items(items: Seq<DocModel>) -> Seq<Seq<char>>
    decreases items.len(),
{
    if items.len() == 0 {
        Seq::empty()
    } else {
        let front = text_items(items.drop_last());
        match items.last() {
            DocModel::Text(s) => front.push(s),
            _ => front,
        }
    }
}

/// The dependencies that a description names.
pub open spec fn described_deps(d: DocModel) -> Seq<Seq<char>> {
    match doc::as_list(doc::get(d, "dependencies"@)) {
        Some(items) => text_items(items),
        None => Seq::empty(),
    }
}

/// The stable version that a description names.
pub open spec fn stable_version(d: DocModel) -> Option<Seq<char>> {
    doc::as_text(doc::get_opt(doc::get(d, "versions"@), "stable"@))
}

/// The bottles that a description lists.
pub open spec fn bottle_files(d: DocModel) -> Option<DocModel> {
    doc::get_opt(doc::get_opt(doc::get(d, "bottle"@), "stable"@), "files"@)
}

/// A formula by its description, or what that lacks.
pub open spec fn describes(
    d: DocModel,
    name: Seq<char>,
    tag: Seq<char>,
    r: Result<FormulaInfo, FormulaError>,
) -> bool {
    match stable_version(d) {
        None => r == Err::<FormulaInfo, FormulaError>(FormulaError::NoStableVersion),
        Some(version) => match chosen_bottle(bottle_files(d), tag) {
            None => r matches Err(FormulaError::NoBottle { name: n, tag: t }) && n@ == name && t@
                == tag,
            Some((url, sha256)) => {
                &&& r matches Ok(f)
                &&& f.name@ == name
                &&& f.version@ == version
                &&& f.keg_only == doc::is_true(doc::get(d, "keg_only"@))
                &&& text::views(f.dependencies@) == described_deps(d)
                &&& f.bottle_url@ == url
                &&& f.bottle_sha256@ == sha256
            },
        },
    }
}

fn read_deps(d: &Doc) -> (r: Vec<String>)
    ensures
        text::views(r@) == described_deps(d@),
{
    let mut out: Vec<String> = Vec::new();
    assert(text::views(out@) =~= Seq::empty());
    if let Some(items) = doc::list_of(d.get("dependencies")) {
        let ghost models = doc::item_models(items@);
        let mut i: usize = 0;
        assert(text::views(out@) =~= text_items(models.take(0)));
        while i < items.len()
            invariant
                i <= items.len(),
                models == doc::item_models(items@),
                text::views(out@) == text_items(models.take(i as int)),
            decreases items.len() - i,
        {
            let ghost before = out@;
            proof {
                assert(models.take(i + 1).drop_last() =~= models.take(i as int));
                assert(models.take(i + 1).last() == items@[i as int]@);
            }
            if let Some(s) = items[i].as_str() {
                out.push(s.clone());
                assert(text::views(out@) =~= text::views(before).push(s@));
            }
            i = i + 1;
        }
        assert(models.take(i as int) =~= models);
    }
    out
}

/// A formula by its description, with the bottle for a tag.
pub fn read_formula(d: &Doc, name: &str, tag: &str) -> (r: Result<FormulaInfo, FormulaError>)
    ensures
        describes(d@, name@, tag@, r),
{
    let version = match doc::text_of(doc::get_in(d.get("versions"), "stable")) {
        Some(v) => v.clone(),
        None => {
            return Err(FormulaError::NoStableVersion);
        },
    };
    let files = doc::get_in(doc::get_in(d.get("bottle"), "stable"), "files");
    match pick_bottle(files, tag) {
        Some((bottle_url, bottle_sha256)) => Ok(
            FormulaInfo {
                name: String::from_str(name),
                version,
                keg_only: doc::flag_of(d.get("keg_only")),
                dependencies: read_deps(d),
                bottle_url,
                bottle_sha256,
            },
        ),
        None => Err(
            FormulaError::NoBottle { name: String::from_str(name), tag: String::from_str(tag) },
        ),
    }
}

/// A formula by the text of its description, with the bottle for a tag.
pub fn resolve_formula(name: &str, answer: &str, tag: &str) -> (r: Result<
    FormulaInfo,
    FormulaError,
>)
    ensures
        match doc::json_document(answer@) {
            Some(d) => describes(d, name@, tag@, r),
            None => r matches Err(FormulaError::NotJson { name: n }) && n@ == name@,
        },
{
    match doc::parse_json(answer) {
        Some(d) => read_formula(&d, name, tag),
        None => Err(FormulaError::NotJson { name: String::from_str(name) }),
    }
}

/// The address of the description of a formula.
pub fn formula_url(name: &str) -> (r: String)
    ensures
        r@ == "https://formulae.brew.sh/api/formula/"@ + name@ + ".json"@,
{
    let mut url = String::from_str("https://formulae.brew.sh/api/formula/");
    url.append(name);
    url.append(".json");
    url
}

// ── Downloading ─────────────────────────────────────────────────────────────
/// The scope for which a token is asked to download the bottle of a formula. The
/// registry writes a versioned formula with a slash.
pub fn token_scope(formula: &str) -> (r: String)
    ensures
        r@ == "repository:homebrew/core/"@ + text::replace_char(formula@, '@', "/"@) + ":pull"@,
{
    let whole = chars::of(formula);
    let repo = chars::to_string(&chars::replace_char(&whole, '@', "/"));
    let mut scope = String::from_str("repository:homebrew/core/");
    scope.append(repo.as_str());
    scope.append(":pull");
    scope
}

/// The token in the answer of the registry, where it has one.
pub fn ghcr_token(answer: &str) -> (r: Option<String>)
    ensures
        text::opt_view(r) == match doc::json_document(answer@) {
            Some(d) => doc::text_at(d, "token"@),
            None => None,
        },
{
    match doc::parse_json(answer) {
        Some(d) => match doc::text_of(d.get("token")) {
            Some(t) => Some(t.clone()),
            None => None,
        },
        None => None,
    }
}

/// Where a bottle came from, if its bytes are those that its formula promises. The
/// first two components of the paths in it are then stripped.
pub fn download_bottle(formula: &FormulaInfo, bytes: &[u8]) -> (r: Result<FileInfo, HashMismatch>)
    ensures
        match r {
            Ok(f) => {
                &&& formula.bottle_sha256@ == download::digest_text(bytes@)
                &&& f.hash@ == download::digest_text(bytes@)
                &&& f.url == formula.bottle_url
            },
            Err(m) => {
                &&& formula.bottle_sha256@ != download::digest_text(bytes@)
                &&& m.expected@ == formula.bottle_sha256@
                &&& m.got@ == download::digest_text(bytes@)
            },
        },
{
    match download::verify_hash(bytes, Some(formula.bottle_sha256.as_str())) {
        Ok(hash) => Ok(FileInfo { hash, url: formula.bottle_url.clone() }),
        Err(m) => Err(m),
    }
}

/// What a bottle with other bytes is answered with.
pub fn mismatch_message(name: &str, m: &HashMismatch) -> (r: String)
    ensures
        r@ == "bottle hash mismatch for '"@ + name@ + "': expected "@ + m.expected@ + ", got "@
            + m.got@,
{
    let mut out = String::from_str("bottle hash mismatch for '");
    out.append(name);
    out.append("': expected ");
    out.append(m.expected.as_str());
    out.append(", got ");
    out.append(m.got.as_str());
    out
}

/// One of the packages goes to this path in the store.
pub open spec fn brings_path(packages: Seq<PackageEntry>, store_path: Seq<char>) -> bool {
    exists|k: int| 0 <= k < packages.len() && (#[trigger] packages[k]).store_path@ == store_path
}

/// The packages that are not in the store, and will not be by one before them.
pub open spec fn missing(packages: Seq<PackageEntry>, in_store: Seq<Seq<char>>) -> Seq<Seq<char>>
    decreases packages.len(),
{
    if packages.len() == 0 {
        Seq::empty()
    } else {
        let front = missing(packages.drop_last(), in_store);
        let store_path = packages.last().store_path@;
        if in_store.contains(store_path) || brings_path(packages.drop_last(), store_path) {
            front
        } else {
            front.push(packages.last().name@)
        }
    }
}

fn is_brought(packages: &Vec<PackageEntry>, n: usize, store_path: &str) -> (r: bool)
    requires
        n <= packages@.len(),
    ensures
        r == brings_path(packages@.take(n as int), store_path@),
{
    let mut i: usize = 0;
    while i < n
        invariant
            i <= n <= packages@.len(),
            forall|k: int|
                0 <= k < i ==> (#[trigger] packages@.take(n as int)[k]).store_path@ != store_path@,
        decreases n - i,
    {
        if chars::str_same(packages[i].store_path.as_str(), store_path) {
            assert(packages@.take(n as int)[i as int].store_path@ == store_path@);
            return true;
        }
        i = i + 1;
    }
    false
}

/// The bottles that have to be downloaded, by name: those that are not in the
/// store. There are none to be had but on macOS and Linux.
pub fn ensure_bottles_in_store(brew: &BrewSection, os: &str, in_store: &[String]) -> (r: Vec<
    String,
>)
    ensures
        text::views(r@) == if os@ == "macos"@ || os@ == "linux"@ {
            missing(brew.packages@, text::views(in_store@))
        } else {
            Seq::empty()
        },
{
    let mut out: Vec<String> = Vec::new();
    assert(text::views(out@) =~= Seq::empty());
    if !chars::str_same(os, "macos") && !chars::str_same(os, "linux") {
        return out;
    }
    let packages = &brew.packages;
    let mut i: usize = 0;
    assert(text::views(out@) =~= missing(packages@.take(0), text::views(in_store@)));
    while i < packages.len()
        invariant
            i <= packages.len(),
            text::views(out@) == missing(packages@.take(i as int), text::views(in_store@)),
        decreases packages.len() - i,
    {
        let ghost before = out@;
        proof {
            assert(packages@.take(i + 1).drop_last() =~= packages@.take(i as int));
            assert(packages@.take(i + 1).last() == packages@[i as int]);
        }
        let store_path = packages[i].store_path.as_str();
        if !paths::listed(in_store, store_path) && !is_brought(packages, i, store_path) {
            out.push(packages[i].name.clone());
            assert(text::views(out@) =~= text::views(before).push(packages@[i as int].name@));
        }
        i = i + 1;
    }
    assert(packages@.take(i as int) =~= packages@);
    out
}

// ── Paths in binaries ───────────────────────────────────────────────────────
/// A file that may be a binary or a shared library, by its name.
pub fn is_macho_name(name: &str) -> (r: bool)
    ensures
        r == (text::contains(name@, ".dylib"@) || !name@.contains('.')),
{
    let whole = chars::of(name);
    chars::contains(&whole, ".dylib") || !chars::member(&whole, '.')
}

/// A path that has to be changed.
pub open spec fn is_placeholder(path: Seq<char>) -> bool {
    "@@HOMEBREW"@.is_prefix_of(path)
}

/// The path in a line that `otool -L` printed, if it has to be changed.
pub open spec fn dep_in_line(line: Seq<char>) -> Option<Seq<char>> {
    let trimmed = text::trim(line);
    if is_placeholder(trimmed) {
        Some(
            text::trim(
                match text::find(trimmed, " (compatibility"@) {
                    Some(i) => trimmed.take(i),
                    None => trimmed,
                },
            ),
        )
    } else {
        None
    }
}

/// The paths in lines that `otool -L` printed, from the second on.
pub open spec fn deps_in_lines(lines: Seq<Seq<char>>) -> Seq<Seq<char>>
    decreases lines.len(),
{
    if lines.len() <= 1 {
        Seq::empty()
    } else {
        let front = deps_in_lines(lines.drop_last());
        match dep_in_line(lines.last()) {
            Some(p) => front.push(p),
            None => front,
        }
    }
}

/// The paths of shared libraries in what `otool -L` printed that have to be
/// changed.
pub fn read_otool_deps(output: &str) -> (r: Vec<String>)
    ensures
        text::views(r@) == deps_in_lines(text::lines(output@)),
{
    let whole = chars::of(output);
    let lines = chars::lines(&whole);
    let ghost texts = chars::slice_views(lines@);
    let mut out: Vec<String> = Vec::new();
    assert(text::views(out@) =~= Seq::empty());
    if lines.len() == 0 {
        return out;
    }
    let mut i: usize = 1;
    let cut = chars::of(" (compatibility");
    while i < lines.len()
        invariant
            1 <= i <= lines.len(),
            cut@ == " (compatibility"@,
            texts == chars::slice_views(lines@),
            text::views(out@) == deps_in_lines(texts.take(i as int)),
        decreases lines.len() - i,
    {
        let ghost before = out@;
        proof {
            assert(texts.take(i + 1).drop_last() =~= texts.take(i as int));
            assert(texts.take(i + 1).last() == lines@[i as int]@);
        }
        let trimmed = chars::trim(lines[i]);
        if chars::starts_with(trimmed, "@@HOMEBREW") {
            let path = match chars::find(trimmed, &cut) {
                Some(k) => chars::take(trimmed, k),
                None => trimmed,
            };
            let path = chars::to_string(chars::trim(path));
            let ghost model = path@;
            out.push(path);
            assert(text::views(out@) =~= text::views(before).push(model));
        }
        i = i + 1;
    }
    assert(texts.take(i as int) =~= texts);
    out
}

/// The name of a shared library in what `otool -D` printed, if it has to be
/// changed.
pub open spec fn id_in(output: Seq<char>) -> Option<Seq<char>> {
    let lines = text::lines(output);
    if lines.len() > 1 && is_placeholder(text::trim(lines[1])) {
        Some(text::trim(lines[1]))
    } else {
        None
    }
}

/// The name of a shared library in what `otool -D` printed, if it has to be
/// changed.
pub fn read_otool_id(output: &str) -> (r: Option<String>)
    ensures
        text::opt_view(r) == id_in(output@),
{
    let whole = chars::of(output);
    let lines = chars::lines(&whole);
    if lines.len() <= 1 {
        return None;
    }
    assert(chars::slice_views(lines@)[1] == lines@[1]@);
    let id = chars::trim(lines[1]);
    if chars::starts_with(id, "@@HOMEBREW") {
        Some(chars::to_string(id))
    } else {
        None
    }
}

/// The first of some directories of a formula, by what stands behind the name and a
/// hyphen; where `numbered`, only what starts with a digit counts.
pub open spec fn first_version(dirs: Seq<Seq<char>>, name: Seq<char>, numbered: bool) -> Option<
    Seq<char>,
>
    decreases dirs.len(),
{
    if dirs.len() == 0 {
        None
    } else {
        match text::strip_prefix(dirs[0], name + "-"@) {
            Some(version) if !numbered || (version.len() > 0 && text::is_digit(version[0])) => Some(
                version,
            ),
            _ => first_version(dirs.skip(1), name, numbered),
        }
    }
}

/// The version of a formula in the store: that of the first directory whose version
/// starts with a digit, and where none does, that of the first directory of its name.
pub open spec fn store_version(dirs: Seq<Seq<char>>, name: Seq<char>) -> Option<Seq<char>> {
    match first_version(dirs, name, true) {
        Some(version) => Some(version),
        None => first_version(dirs, name, false),
    }
}

fn find_first_version(dirs: &[String], name: &str, numbered: bool) -> (r: Option<String>)
    ensures
        text::opt_view(r) == first_version(text::views(dirs@), name@, numbered),
{
    let ghost texts = text::views(dirs@);
    let mut prefix = String::from_str(name);
    prefix.append("-");
    let mut i: usize = 0;
    assert(texts.skip(0) =~= texts);
    while i < dirs.len()
        invariant
            i <= dirs.len(),
            texts == text::views(dirs@),
            prefix@ == name@ + "-"@,
            first_version(texts, name@, numbered) == first_version(
                texts.skip(i as int),
                name@,
                numbered,
            ),
        decreases dirs.len() - i,
    {
        assert(texts.skip(i as int)[0] == dirs@[i as int]@);
        let dir = chars::of(dirs[i].as_str());
        if let Some(version) = chars::strip_prefix(&dir, prefix.as_str()) {
            if !numbered || (version.len() > 0 && chars::is_digit(version[0])) {
                return Some(chars::to_string(version));
            }
        }
        assert(texts.skip(i as int).skip(1) =~= texts.skip(i + 1));
        i = i + 1;
    }
    None
}

/// The version of a formula in the store, by the names of the directories there.
pub fn find_store_version(dirs: &[String], name: &str) -> (r: Option<String>)
    ensures
        text::opt_view(r) == store_version(text::views(dirs@), name@),
{
    match find_first_version(dirs, name, true) {
        Some(version) => Some(version),
        None => find_first_version(dirs, name, false),
    }
}

/// A path in a version of a formula in the store.
pub open spec fn store_file(
    store_root: Seq<char>,
    name: Seq<char>,
    version: Seq<char>,
    rest: Seq<char>,
) -> Seq<char> {
    let dir = paths::joined(store_root, name + "-"@ + version);
    if rest.len() == 0 {
        dir
    } else {
        paths::joined(dir, rest)
    }
}

/// The path in the store for a path that has to be changed. One in the cellar names
/// the formula and its version; one in the prefix names the formula, and the store
/// has its version.
pub open spec fn resolved_path(path: Seq<char>, store_root: Seq<char>, dirs: Seq<Seq<char>>) -> Option<
    Seq<char>,
> {
    match text::strip_prefix(path, "@@HOMEBREW_CELLAR@@/"@) {
        Some(rest) => match text::split_once(rest, seq!['/']) {
            Some((name, more)) => match text::split_once(more, seq!['/']) {
                Some((version, file)) => Some(store_file(store_root, name, version, file)),
                None => Some(store_file(store_root, name, more, Seq::empty())),
            },
            None => None,
        },
        None => match text::strip_prefix(path, "@@HOMEBREW_PREFIX@@/opt/"@) {
            Some(rest) => {
                let (name, file) = match text::split_once(rest, seq!['/']) {
                    Some((name, file)) => (name, file),
                    None => (rest, Seq::empty()),
                };
                match store_version(dirs, name) {
                    Some(version) => Some(store_file(store_root, name, version, file)),
                    None => None,
                }
            },
            None => None,
        },
    }
}

fn file_in_store(store_root: &str, name: &[char], version: &[char], rest: &[char]) -> (r: String)
    ensures
        r@ == store_file(store_root@, name@, version@, rest@),
{
    let mut leaf = chars::to_string(name);
    leaf.append("-");
    leaf.append(chars::to_string(version).as_str());
    let dir = paths::join(store_root, leaf.as_str());
    if rest.len() == 0 {
        dir
    } else {
        paths::join(dir.as_str(), chars::to_string(rest).as_str())
    }
}

fn split_slash<'a>(s: &'a [char]) -> (r: Option<(&'a [char], &'a [char])>)
    ensures
        match r {
            Some((a, b)) => text::split_once(s@, seq!['/']) == Some((a@, b@)),
            None => text::split_once(s@, seq!['/']) is None,
        },
{
    match chars::find_char(s, '/') {
        Some(i) => Some((chars::take(s, i), chars::skip(s, i + 1))),
        None => None,
    }
}

/// The path in the store for a path that has to be changed, by the names of the
/// directories there.
pub fn resolve_placeholder(path: &str, store_root: &str, dirs: &[String]) -> (r: Option<String>)
    ensures
        text::opt_view(r) == resolved_path(path@, store_root@, text::views(dirs@)),
{
    let whole = chars::of(path);
    if let Some(rest) = chars::strip_prefix(&whole, "@@HOMEBREW_CELLAR@@/") {
        return match split_slash(rest) {
            Some((name, more)) => match split_slash(more) {
                Some((version, file)) => Some(file_in_store(store_root, name, version, file)),
                None => {
                    let none = chars::take(more, 0);
                    assert(none@ =~= Seq::empty());
                    Some(file_in_store(store_root, name, more, none))
                },
            },
            None => None,
        };
    }
    if let Some(rest) = chars::strip_prefix(&whole, "@@HOMEBREW_PREFIX@@/opt/") {
        let (name, file) = match split_slash(rest) {
            Some((name, file)) => (name, file),
            None => {
                let none = chars::take(rest, 0);
                assert(none@ =~= Seq::empty());
                (rest, none)
            },
        };
        return match find_store_version(dirs, chars::to_string(name).as_str()) {
            Some(version) => {
                let version = chars::of(version.as_str());
                Some(file_in_store(store_root, name, &version, file))
            },
            None => None,
        };
    }
    None
}

/// The arguments that change paths: each with its path in the store.
pub open spec fn change_args(deps: Seq<Seq<char>>, store_root: Seq<char>, dirs: Seq<Seq<char>>) -> Seq<
    Seq<char>,
>
    decreases deps.len(),
{
    if deps.len() == 0 {
        Seq::empty()
    } else {
        let front = change_args(deps.drop_last(), store_root, dirs);
        match resolved_path(deps.last(), store_root, dirs) {
            Some(path) => front + seq!["-change"@, deps.last(), path],
            None => front,
        }
    }
}

/// The arguments of `install_name_tool` for a file: the paths of shared libraries
/// are changed, and for a shared library its name too. Where no path is changed,
/// nothing is.
pub open spec fn fixup_args(
    file: Seq<char>,
    deps: Seq<Seq<char>>,
    id: Option<Seq<char>>,
    store_root: Seq<char>,
    dirs: Seq<Seq<char>>,
) -> Option<Seq<Seq<char>>> {
    let changes = change_args(deps, store_root, dirs);
    if changes.len() == 0 {
        None
    } else {
        let name = match id {
            Some(i) => match resolved_path(i, store_root, dirs) {
                Some(path) if extract::extension(file) == Some("dylib"@) => seq!["-id"@, path],
                _ => Seq::empty(),
            },
            None => Seq::empty(),
        };
        Some(changes + name + seq![file])
    }
}

/// The arguments of `install_name_tool` for a file, by what `otool -L` and `otool
/// -D` printed of it.
pub fn fixup_macho_placeholders(
    file: &str,
    deps_output: &str,
    id_output: &str,
    store_root: &str,
    dirs: &[String],
) -> (r: Option<Vec<String>>)
    ensures
        match r {
            Some(args) => fixup_args(
                file@,
                deps_in_lines(text::lines(deps_output@)),
                id_in(id_output@),
                store_root@,
                text::views(dirs@),
            ) == Some(text::views(args@)),
            None => fixup_args(
                file@,
                deps_in_lines(text::lines(deps_output@)),
                id_in(id_output@),
                store_root@,
                text::views(dirs@),
            ) is None,
        },
{
    let deps = read_otool_deps(deps_output);
    let ghost texts = text::views(deps@);
    let ghost names = text::views(dirs@);
    let mut args: Vec<String> = Vec::new();
    let mut i: usize = 0;
    assert(text::views(args@) =~= change_args(texts.take(0), store_root@, names));
    while i < deps.len()
        invariant
            i <= deps.len(),
            texts == text::views(deps@),
            names == text::views(dirs@),
            text::views(args@) == change_args(texts.take(i as int), store_root@, names),
        decreases deps.len() - i,
    {
        let ghost before = args@;
        proof {
            assert(texts.take(i + 1).drop_last() =~= texts.take(i as int));
            assert(texts.take(i + 1).last() == deps@[i as int]@);
        }
        if let Some(path) = resolve_placeholder(deps[i].as_str(), store_root, dirs) {
            let ghost model = path@;
            args.push(String::from_str("-change"));
            args.push(deps[i].clone());
            args.push(path);
            assert(text::views(args@) =~= text::views(before) + seq![
                "-change"@,
                texts[i as int],
                model,
            ]);
        }
        i = i + 1;
    }
    assert(texts.take(i as int) =~= texts);
    if args.len() == 0 {
        assert(text::views(args@).len() == 0);
        return None;
    }
    let ghost changes = text::views(args@);
    let library = match extract::extension_of(file) {
        Some(e) => chars::str_same(e.as_str(), "dylib"),
        None => false,
    };
    let ghost mut id_args: Seq<Seq<char>> = Seq::empty();
    if library {
        if let Some(id) = read_otool_id(id_output) {
            if let Some(path) = resolve_placeholder(id.as_str(), store_root, dirs) {
                proof {
                    id_args = seq!["-id"@, path@];
                }
                args.push(String::from_str("-id"));
                args.push(path);
            }
        }
    }
    assert(text::views(args@) =~= changes + id_args);
    args.push(String::from_str(file));
    assert(text::views(args@) =~= changes + id_args + seq![file@]);
    Some(args)
}

} // verus!
