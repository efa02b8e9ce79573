//! The Python runtimes of the store: which build of the interpreter is taken for a
//! request, and where its executable is.
use vstd::prelude::*;

use crate::chars;
use crate::paths;
use crate::python::version_request;
use crate::text;

verus! {

/// A file of a release.
#[derive(Debug)]
pub struct GhAsset {
    pub name: String,
    pub browser_download_url: String,
}

/// A release, the newest first in a list.
#[derive(Debug)]
pub struct GhRelease {
    pub assets: Vec<GhAsset>,
}

/// The files of releases.
pub open spec fn all_assets(releases: Seq<GhRelease>) -> Seq<GhAsset>
    decreases releases.len(),
{
    if releases.len() == 0 {
        Seq::empty()
    } else {
        all_assets(releases.drop_last()) + releases.last().assets@
    }
}

/// A file is an installation for a platform.
pub open spec fn is_for(name: Seq<char>, platform: Seq<char>) -> bool {
    &&& ".tar.gz"@.is_suffix_of(name)
    &&& text::contains(name, "install_only"@)
    &&& text::contains(name, platform)
}

/// The files that are installations for a platform.
pub open spec fn matching(assets: Seq<GhAsset>, platform: Seq<char>) -> Seq<GhAsset>
    decreases assets.len(),
{
    if assets.len() == 0 {
        Seq::empty()
    } else {
        let front = matching(assets.drop_last(), platform);
        if is_for(assets.last().name@, platform) {
            front.push(assets.last())
        } else {
            front
        }
    }
}

/// The version in the name of a file, such as `cpython-3.12.9+20250101-…`.
pub open spec fn asset_version(name: Seq<char>) -> Option<Seq<char>> {
    match text::strip_prefix(name, "cpython-"@) {
        Some(rest) => Some(text::before(rest, '+')),
        None => None,
    }
}

/// Any version will do.
pub open spec fn wants_latest(requested: Seq<char>) -> bool {
    requested.len() == 0 || requested == "latest"@
}

/// The numbers of the version that is requested.
pub open spec fn wanted(requested: Seq<char>) -> Option<Seq<u32>> {
    version_request::parts_of(text::trim(text::trim_start_text(requested, "python"@)))
}

/// The numbers of the version of a file.
pub open spec fn numbers(a: GhAsset) -> Option<Seq<u32>> {
    match asset_version(a.name@) {
        Some(v) => version_request::parts_of(v),
        None => None,
    }
}

/// The patch number of a version.
pub open spec fn patch(parts: Seq<u32>) -> u32 {
    if parts.len() > 2 {
        parts[2]
    } else {
        0
    }
}

/// A version is in the minor version that is wanted.
pub open spec fn fits(parts: Seq<u32>, want: Seq<u32>) -> bool {
    parts[0] == want[0] && parts[1] == want[1]
}

/// The file is one of the minor version that is wanted.
pub open spec fn is_candidate(assets: Seq<GhAsset>, want: Seq<u32>, i: int) -> bool {
    &&& 0 <= i < assets.len()
    &&& numbers(assets[i]) matches Some(parts)
    &&& fits(parts, want)
}

/// The file is of exactly the version that is wanted.
pub open spec fn is_exact(assets: Seq<GhAsset>, want: Seq<u32>, i: int) -> bool {
    is_candidate(assets, want, i) && want.len() > 2 && patch(numbers(assets[i])->0) == want[2]
}

/// The file is a better choice: one of exactly the version that is wanted comes
/// before all others, then the higher patch counts, then the earlier file.
pub open spec fn is_better(assets: Seq<GhAsset>, want: Seq<u32>, i: int, j: int) -> bool {
    let a = patch(numbers(assets[i])->0);
    let b = patch(numbers(assets[j])->0);
    if is_exact(assets, want, i) != is_exact(assets, want, j) {
        is_exact(assets, want, i)
    } else {
        a > b || (a == b && i <= j)
    }
}

/// The file that is taken for a version.
pub open spec fn is_best(assets: Seq<GhAsset>, want: Seq<u32>, i: int) -> bool {
    &&& is_candidate(assets, want, i)
    &&& forall|j: int| #[trigger] is_candidate(assets, want, j) ==> is_better(assets, want, i, j)
}

/// The versions of files, each once.
pub open spec fn versions(assets: Seq<GhAsset>) -> Seq<Seq<char>>
    decreases assets.len(),
{
    if assets.len() == 0 {
        Seq::empty()
    } else {
        let front = versions(assets.drop_last());
        match asset_version(assets.last().name@) {
            Some(v) => if front.contains(v) {
                front
            } else {
                front.push(v)
            },
            None => front,
        }
    }
}

/// Why there is no runtime for a request.
#[derive(Debug)]
pub enum AssetError {
    /// The name of a file has another form.
    UnexpectedName { name: String },
    /// The request is no version.
    InvalidRequest { requested: String },
    /// No file is for the platform and of the version.
    NotFound { requested: String, platform: String, available: Vec<String> },
}

impl AssetError {
    /// What is said of it.
    pub fn message(&self) -> (r: String)
        ensures
            r@ == match self {
                AssetError::UnexpectedName { name } => "unexpected asset filename format: "@
                    + name@,
                AssetError::InvalidRequest { requested } => "Invalid Python version '"@
                    + requested@ + "': expected major.minor or major.minor.patch"@,
                AssetError::NotFound { requested, platform, available } => {
                    "No suitable Python runtime found for platform '"@ + platform@
                        + "' (requested: '"@ + requested@
                        + "'); available versions in scanned releases: "@ + (
                    if available@.len() == 0 {
                        "none"@
                    } else {
                        text::join(text::views(available@), ", "@)
                    })
                        + ". Check https://github.com/indygreg/python-build-standalone/releases"@
                },
            },
    {
        match self {
            AssetError::UnexpectedName { name } => {
                let mut out = String::from_str("unexpected asset filename format: ");
                out.append(name.as_str());
                out
            },
            AssetError::InvalidRequest { requested } => {
                let mut out = String::from_str("Invalid Python version '");
                out.append(requested.as_str());
                out.append("': expected major.minor or major.minor.patch");
                out
            },
            AssetError::NotFound { requested, platform, available } => {
                let mut out = String::from_str("No suitable Python runtime found for platform '");
                out.append(platform.as_str());
                out.append("' (requested: '");
                out.append(requested.as_str());
                out.append("'); available versions in scanned releases: ");
                if available.len() == 0 {
                    out.append("none");
                } else {
                    out.append(chars::join(available, ", ").as_str());
                }
                out.append(". Check https://github.com/indygreg/python-build-standalone/releases");
                out
            },
        }
    }
}

/// The files behind references.
pub open spec fn deref(v: Seq<&GhAsset>) -> Seq<GhAsset> {
    Seq::new(v.len(), |i: int| *v[i])
}

fn matching_assets<'a>(releases: &'a [GhRelease], platform: &str) -> (r: Vec<&'a GhAsset>)
    ensures
        deref(r@) == matching(all_assets(releases@), platform@),
{
    let mut out: Vec<&'a GhAsset> = Vec::new();
    let mut i: usize = 0;
    assert(deref(out@) =~= matching(all_assets(releases@.take(0)), platform@));
    while i < releases.len()
        invariant
            i <= releases.len(),
            deref(out@) == matching(all_assets(releases@.take(i as int)), platform@),
        decreases releases.len() - i,
    {
        let assets = &releases[i].assets;
        let ghost earlier = all_assets(releases@.take(i as int));
        let mut j: usize = 0;
        assert(earlier + assets@.take(0) =~= earlier);
        while j < assets.len()
            invariant
                j <= assets.len(),
                deref(out@) == matching(earlier + assets@.take(j as int), platform@),
            decreases assets.len() - j,
        {
            let ghost before = out@;
            proof {
                let all = earlier + assets@.take(j + 1);
                assert(all.drop_last() =~= earlier + assets@.take(j as int));
                assert(all.last() == assets@[j as int]);
            }
            let name = chars::of(assets[j].name.as_str());
            if chars::ends_with(&name, ".tar.gz") && chars::contains(&name, "install_only")
                && chars::contains(&name, platform) {
                out.push(&assets[j]);
                assert(deref(out@) =~= deref(before).push(assets@[j as int]));
            }
            j = j + 1;
        }
        proof {
            assert(assets@.take(j as int) =~= assets@);
            assert(releases@.take(i + 1).drop_last() =~= releases@.take(i as int));
            assert(releases@.take(i + 1).last() == releases@[i as int]);
        }
        i = i + 1;
    }
    assert(releases@.take(i as int) =~= releases@);
    out
}

fn extract_version(name: &str) -> (r: Option<String>)
    ensures
        text::opt_view(r) == asset_version(name@),
{
    let whole = chars::of(name);
    match chars::strip_prefix(&whole, "cpython-") {
        Some(rest) => Some(chars::to_string(chars::before(rest, '+'))),
        None => None,
    }
}

fn distinct_versions(assets: &Vec<&GhAsset>) -> (r: Vec<String>)
    ensures
        text::views(r@) == versions(deref(assets@)),
{
    let ghost models = deref(assets@);
    let mut out: Vec<String> = Vec::new();
    let mut i: usize = 0;
    assert(text::views(out@) =~= versions(models.take(0)));
    while i < assets.len()
        invariant
            i <= assets.len(),
            models == deref(assets@),
            text::views(out@) == versions(models.take(i as int)),
        decreases assets.len() - i,
    {
        let ghost before = out@;
        proof {
            assert(models.take(i + 1).drop_last() =~= models.take(i as int));
            assert(models.take(i + 1).last() == *assets@[i as int]);
        }
        if let Some(v) = extract_version(assets[i].name.as_str()) {
            if !paths::listed(&out, v.as_str()) {
                let ghost model = v@;
                out.push(v);
                assert(text::views(out@) =~= text::views(before).push(model));
            }
        }
        i = i + 1;
    }
    assert(models.take(i as int) =~= models);
    out
}

fn patch_of(parts: &Vec<u32>) -> (r: u32)
    ensures
        r == patch(parts@),
{
    if parts.len() > 2 {
        parts[2]
    } else {
        0
    }
}

/// The position of the best file of a list in which every name has its form.
fn best_asset(assets: &Vec<&GhAsset>, want: &Vec<u32>) -> (r: Option<usize>)
    requires
        2 <= want@.len() <= 3,
    ensures
        match r {
            Some(i) => is_best(deref(assets@), want@, i as int),
            None => forall|i: int| !#[trigger] is_candidate(deref(assets@), want@, i),
        },
{
    let ghost models = deref(assets@);
    let mut best: Option<(usize, u32, bool)> = None;
    let mut i: usize = 0;
    while i < assets.len()
        invariant
            i <= assets.len(),
            2 <= want@.len() <= 3,
            models == deref(assets@),
            match best {
                Some((k, p, exact)) => {
                    &&& k < i
                    &&& is_candidate(models, want@, k as int)
                    &&& p == patch(numbers(models[k as int])->0)
                    &&& exact == is_exact(models, want@, k as int)
                    &&& forall|j: int|
                        j < i && #[trigger] is_candidate(models, want@, j) ==> is_better(
                            models,
                            want@,
                            k as int,
                            j,
                        )
                },
                None => forall|j: int| j < i ==> !#[trigger] is_candidate(models, want@, j),
            },
        decreases assets.len() - i,
    {
        assert(models[i as int] == *assets@[i as int]);
        if let Some(v) = extract_version(assets[i].name.as_str()) {
            if let Some(parts) = version_request::version_parts(v.as_str()) {
                assert(2 <= parts@.len() <= 3);
                if parts[0] == want[0] && parts[1] == want[1] {
                    let p: u32 = patch_of(&parts);
                    let exact = want.len() > 2 && p == want[2];
                    let take = match best {
                        None => true,
                        Some((_, q, other)) => if exact != other {
                            exact
                        } else {
                            p > q
                        },
                    };
                    if take {
                        best = Some((i, p, exact));
                    }
                }
            }
        }
        i = i + 1;
    }
    match best {
        Some((k, _, _)) => {
            assert forall|j: int| #[trigger] is_candidate(models, want@, j) implies is_better(
                models,
                want@,
                k as int,
                j,
            ) by {}
            Some(k)
        },
        None => None,
    }
}

/// The position of the first file whose name has another form.
pub open spec fn is_first_unexpected(assets: Seq<GhAsset>, i: int) -> bool {
    &&& 0 <= i < assets.len()
    &&& asset_version(assets[i].name@) is None
    &&& forall|j: int| 0 <= j < i ==> asset_version((#[trigger] assets[j]).name@) is Some
}

fn first_unexpected(assets: &Vec<&GhAsset>) -> (r: Option<usize>)
    ensures
        match r {
            Some(i) => is_first_unexpected(deref(assets@), i as int),
            None => forall|i: int| !#[trigger] is_first_unexpected(deref(assets@), i),
        },
{
    let ghost models = deref(assets@);
    let mut i: usize = 0;
    while i < assets.len()
        invariant
            i <= assets.len(),
            models == deref(assets@),
            forall|j: int| 0 <= j < i ==> asset_version((#[trigger] models[j]).name@) is Some,
        decreases assets.len() - i,
    {
        assert(models[i as int] == *assets@[i as int]);
        if extract_version(assets[i].name.as_str()).is_none() {
            return Some(i);
        }
        i = i + 1;
    }
    None
}

/// The address and the version of the runtime for a request: `""` and `latest`
/// take the first file for the platform, and a version the file of exactly that
/// version, or else the highest patch of its minor version.
pub fn select_asset(releases: &[GhRelease], requested: &str, platform: &str) -> (r: Result<
    (String, String),
    AssetError,
>)
    ensures
        ({
            let files = matching(all_assets(releases@), platform@);
            match r {
                Ok((url, version)) => exists|i: int|
                    {
                        &&& 0 <= i < files.len()
                        &&& url == (#[trigger] files[i]).browser_download_url
                        &&& asset_version(files[i].name@) == Some(version@)
                        &&& if wants_latest(requested@) {
                            i == 0
                        } else {
                            &&& wanted(requested@) matches Some(want)
                            &&& is_best(files, want, i)
                            &&& forall|k: int| !#[trigger] is_first_unexpected(files, k)
                        }
                    },
                Err(AssetError::InvalidRequest { requested: q }) => q@ == requested@
                    && !wants_latest(requested@) && wanted(requested@) is None,
                Err(AssetError::UnexpectedName { name }) => exists|i: int|
                    {
                        &&& #[trigger] is_first_unexpected(files, i)
                        &&& name == files[i].name
                        &&& if wants_latest(requested@) {
                            i == 0
                        } else {
                            wanted(requested@) is Some
                        }
                    },
                Err(AssetError::NotFound { requested: q, platform: p, available }) => {
                    &&& q@ == requested@
                    &&& p@ == platform@
                    &&& text::views(available@) == versions(files)
                    &&& if wants_latest(requested@) {
                        files.len() == 0
                    } else {
                        &&& wanted(requested@) matches Some(want)
                        &&& forall|i: int| !#[trigger] is_candidate(files, want, i)
                        &&& forall|k: int| !#[trigger] is_first_unexpected(files, k)
                    }
                },
            }
        }),
{
    let files = matching_assets(releases, platform);
    let ghost models = deref(files@);
    if requested.is_empty() || chars::str_same(requested, "latest") {
        if files.len() == 0 {
            return Err(
                AssetError::NotFound {
                    requested: String::from_str(requested),
                    platform: String::from_str(platform),
                    available: distinct_versions(&files),
                },
            );
        }
        assert(models[0] == *files@[0]);
        return match extract_version(files[0].name.as_str()) {
            Some(v) => Ok((files[0].browser_download_url.clone(), v)),
            None => {
                assert(is_first_unexpected(models, 0));
                Err(AssetError::UnexpectedName { name: files[0].name.clone() })
            },
        };
    }
    let whole = chars::of(requested);
    let request = chars::to_string(chars::trim(chars::trim_start_text(&whole, "python")));
    let want = match version_request::version_parts(request.as_str()) {
        Some(want) => want,
        None => {
            return Err(AssetError::InvalidRequest { requested: String::from_str(requested) });
        },
    };
    if let Some(i) = first_unexpected(&files) {
        assert(models[i as int] == *files@[i as int]);
        return Err(AssetError::UnexpectedName { name: files[i].name.clone() });
    }
    match best_asset(&files, &want) {
        Some(i) => {
            assert(models[i as int] == *files@[i as int]);
            match extract_version(files[i].name.as_str()) {
                Some(v) => Ok((files[i].browser_download_url.clone(), v)),
                None => Err(AssetError::UnexpectedName { name: files[i].name.clone() }),
            }
        },
        None => Err(
            AssetError::NotFound {
                requested: String::from_str(requested),
                platform: String::from_str(platform),
                available: distinct_versions(&files),
            },
        ),
    }
}

/// One file at most is taken for a version.
pub proof fn choice_is_unique(assets: Seq<GhAsset>, want: Seq<u32>, i: int, j: int)
    requires
        is_best(assets, want, i),
        is_best(assets, want, j),
    ensures
        i == j,
{
}

/// The file that is taken is of the minor version that is wanted.
pub proof fn choice_stays_in_minor(assets: Seq<GhAsset>, want: Seq<u32>, i: int)
    requires
        is_best(assets, want, i),
    ensures
        numbers(assets[i])->0[0] == want[0],
        numbers(assets[i])->0[1] == want[1],
{
}

/// Where there is a file of exactly the version that is wanted, one is taken.
pub proof fn exact_patch_is_preferred(assets: Seq<GhAsset>, want: Seq<u32>, i: int, j: int)
    requires
        is_best(assets, want, i),
        is_exact(assets, want, j),
    ensures
        is_exact(assets, want, i),
{
}

/// Where there is none, the patch that is taken is the highest.
pub proof fn highest_patch_is_taken(assets: Seq<GhAsset>, want: Seq<u32>, i: int, j: int)
    requires
        is_best(assets, want, i),
        !is_exact(assets, want, i),
        is_candidate(assets, want, j),
    ensures
        patch(numbers(assets[j])->0) <= patch(numbers(assets[i])->0),
{
    if is_exact(assets, want, j) {
        exact_patch_is_preferred(assets, want, i, j);
    }
}

// ── Platforms and executables ───────────────────────────────────────────────
/// What the names of the files for a machine contain.
pub open spec fn asset_suffix(os: Seq<char>, arch: Seq<char>) -> Seq<char> {
    if os == "windows"@ && arch == "x86_64"@ {
        "x86_64-pc-windows-msvc-install_only"@
    } else if os == "linux"@ && arch == "x86_64"@ {
        "x86_64-unknown-linux-gnu-install_only"@
    } else if os == "macos"@ && arch == "x86_64"@ {
        "x86_64-apple-darwin-install_only"@
    } else if os == "macos"@ && arch == "aarch64"@ {
        "aarch64-apple-darwin-install_only"@
    } else {
        arch + "-unknown-"@ + os + "-install_only"@
    }
}

/// What the names of the files for a machine contain, by its operating system and
/// architecture.
pub fn platform_asset_suffix(os: &str, arch: &str) -> (r: String)
    ensures
        r@ == asset_suffix(os@, arch@),
{
    let x86_64 = chars::str_same(arch, "x86_64");
    if chars::str_same(os, "windows") && x86_64 {
        return String::from_str("x86_64-pc-windows-msvc-install_only");
    }
    if chars::str_same(os, "linux") && x86_64 {
        return String::from_str("x86_64-unknown-linux-gnu-install_only");
    }
    if chars::str_same(os, "macos") && x86_64 {
        return String::from_str("x86_64-apple-darwin-install_only");
    }
    if chars::str_same(os, "macos") && chars::str_same(arch, "aarch64") {
        return String::from_str("aarch64-apple-darwin-install_only");
    }
    let mut out = String::from_str(arch);
    out.append("-unknown-");
    out.append(os);
    out.append("-install_only");
    out
}

/// Where the interpreter of a runtime may be, in the order of preference.
pub open spec fn exe_candidates(windows: bool) -> Seq<Seq<char>> {
    if windows {
        seq!["python.exe"@, "Scripts/python.exe"@]
    } else {
        seq!["bin/python3"@, "bin/python"@]
    }
}

/// The interpreter of a runtime. `existing` lists the paths in its directory that
/// exist.
pub fn python_exe_in(runtime_dir: &str, windows: bool, existing: &[String]) -> (r: Option<String>)
    ensures
        text::opt_view(r) == paths::first_existing(
            runtime_dir@,
            exe_candidates(windows),
            text::views(existing@),
        ),
{
    if windows {
        let candidates: [&str; 2] = ["python.exe", "Scripts/python.exe"];
        let slice = candidates.as_slice();
        assert(paths::str_views(slice@) =~= exe_candidates(windows));
        paths::find_existing(runtime_dir, slice, existing)
    } else {
        let candidates: [&str; 2] = ["bin/python3", "bin/python"];
        let slice = candidates.as_slice();
        assert(paths::str_views(slice@) =~= exe_candidates(windows));
        paths::find_existing(runtime_dir, slice, existing)
    }
}

/// A Python runtime in the store.
#[derive(Debug)]
pub struct PythonRuntime {
    pub version: String,
    /// The path in the store.
    pub store_path: String,
    /// The interpreter.
    pub python_exe: String,
}

/// What is to be done for a runtime.
#[derive(Debug)]
pub enum RuntimeStep {
    /// It is in the store.
    Ready(PythonRuntime),
    /// It must be brought into the directory at this path in the store.
    Download { store_path: String },
    /// It was brought, and has no interpreter.
    Missing { runtime_dir: String },
}

/// The path of a runtime in the store.
pub open spec fn runtime_path(version: Seq<char>) -> Seq<char> {
    "python/runtime/"@ + version
}

/// What is to be done for the runtime of a version. `existing` lists the paths
/// that exist in its directory; `brought` says that it was just brought.
pub fn ensure_runtime(
    store_root: &str,
    version: &str,
    windows: bool,
    existing: &[String],
    brought: bool,
) -> (r: RuntimeStep)
    ensures
        ({
            let dir = paths::joined(store_root@, runtime_path(version@));
            match paths::first_existing(dir, exe_candidates(windows), text::views(existing@)) {
                Some(exe) => {
                    &&& r matches RuntimeStep::Ready(rt)
                    &&& rt.version@ == version@
                    &&& rt.store_path@ == runtime_path(version@)
                    &&& rt.python_exe@ == exe
                },
                None => if brought {
                    r matches RuntimeStep::Missing { runtime_dir } && runtime_dir@ == dir
                } else {
                    r matches RuntimeStep::Download { store_path } && store_path@ == runtime_path(
                        version@,
                    )
                },
            }
        }),
{
    let mut store_path = String::from_str("python/runtime/");
    store_path.append(version);
    let dir = paths::join(store_root, store_path.as_str());
    match python_exe_in(dir.as_str(), windows, existing) {
        Some(python_exe) => RuntimeStep::Ready(
            PythonRuntime { version: String::from_str(version), store_path, python_exe },
        ),
        None => if brought {
            RuntimeStep::Missing { runtime_dir: dir }
        } else {
            RuntimeStep::Download { store_path }
        },
    }
}

} // verus!
