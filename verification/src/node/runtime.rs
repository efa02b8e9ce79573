//! The Node.js runtimes of the store: which release is taken for a request, and
//! where its executables are.
use vstd::prelude::*;

use crate::chars;
use crate::paths;
use crate::text;
use crate::unicode;

verus! {

/// A release, the newest first in a list.
#[derive(Debug)]
pub struct NodeRelease {
    /// The version with a `v` before it.
    pub version: String,
    /// It belongs to a line with long-term support.
    pub lts: bool,
}

/// The version of a release, without the `v`.
pub open spec fn bare(version: Seq<char>) -> Seq<char> {
    text::trim_start_set(version, "v"@)
}

/// The request without space around it, in small letters.
pub open spec fn normalized(requested: Seq<char>) -> Seq<char> {
    unicode::lowercase(text::trim(requested))
}

/// A release is one for a request: any with long-term support, or one of the
/// version, or of the major or minor version, that is requested.
pub open spec fn is_for(r: NodeRelease, request: Seq<char>) -> bool {
    if request.len() == 0 || request == "lts"@ || request == "latest"@ {
        r.lts
    } else {
        ||| bare(r.version@) == request
        ||| (request + "."@).is_prefix_of(bare(r.version@))
        ||| (request + "-"@).is_prefix_of(bare(r.version@))
    }
}

/// The position of the first release for a request.
pub open spec fn is_chosen(releases: Seq<NodeRelease>, request: Seq<char>, i: int) -> bool {
    &&& 0 <= i < releases.len()
    &&& is_for(releases[i], request)
    &&& forall|j: int| 0 <= j < i ==> !is_for(#[trigger] releases[j], request)
}

/// The address of a release for a machine.
pub open spec fn download_address(
    v_version: Seq<char>,
    version: Seq<char>,
    os: Seq<char>,
    arch: Seq<char>,
) -> Seq<char> {
    let start = "https://nodejs.org/dist/"@ + v_version;
    if os == "windows"@ {
        start + "/node-"@ + v_version + "-win-x64.zip"@
    } else if os == "macos"@ {
        start + "/node-v"@ + version + "-darwin-"@ + (if arch == "aarch64"@ {
            "arm64"@
        } else {
            "x64"@
        }) + ".tar.gz"@
    } else {
        start + "/node-v"@ + version + "-linux-x64.tar.gz"@
    }
}

/// The address of a release for a machine, by its operating system and
/// architecture.
pub fn build_download_url(v_version: &str, version: &str, os: &str, arch: &str) -> (r: String)
    ensures
        r@ == download_address(v_version@, version@, os@, arch@),
{
    let mut url = String::from_str("https://nodejs.org/dist/");
    url.append(v_version);
    if chars::str_same(os, "windows") {
        url.append("/node-");
        url.append(v_version);
        url.append("-win-x64.zip");
    } else if chars::str_same(os, "macos") {
        url.append("/node-v");
        url.append(version);
        url.append("-darwin-");
        if chars::str_same(arch, "aarch64") {
            url.append("arm64");
        } else {
            url.append("x64");
        }
        url.append(".tar.gz");
    } else {
        url.append("/node-v");
        url.append(version);
        url.append("-linux-x64.tar.gz");
    }
    url
}

fn release_fits(r: &NodeRelease, request: &str) -> (b: bool)
    ensures
        b == is_for(*r, request@),
{
    if request.is_empty() || chars::str_same(request, "lts") || chars::str_same(
        request,
        "latest",
    ) {
        return r.lts;
    }
    let whole = chars::of(r.version.as_str());
    let version = chars::trim_start_set(&whole, "v");
    let mut dotted = String::from_str(request);
    dotted.append(".");
    let mut dashed = String::from_str(request);
    dashed.append("-");
    chars::is(version, request) || chars::starts_with(version, dotted.as_str())
        || chars::starts_with(version, dashed.as_str())
}

/// The address and the version of the release for a request: `""`, `lts` and
/// `latest` take the newest with long-term support, `22` the newest of that major
/// version, `22.11` the newest of that minor version, and `22.11.0` that one.
pub fn resolve_release(releases: &[NodeRelease], requested: &str, os: &str, arch: &str) -> (r:
    Option<(String, String)>)
    ensures
        match r {
            Some((url, version)) => exists|i: int|
                {
                    &&& #[trigger] is_chosen(releases@, normalized(requested@), i)
                    &&& version@ == bare(releases@[i].version@)
                    &&& url@ == download_address(releases@[i].version@, version@, os@, arch@)
                },
            None => forall|i: int| !#[trigger] is_chosen(releases@, normalized(requested@), i),
        },
{
    let whole = chars::of(requested);
    let trimmed = chars::to_string(chars::trim(&whole));
    let request = unicode::str_to_lowercase(trimmed.as_str());
    let mut i: usize = 0;
    while i < releases.len()
        invariant
            i <= releases.len(),
            request@ == normalized(requested@),
            forall|j: int| 0 <= j < i ==> !is_for(#[trigger] releases@[j], request@),
        decreases releases.len() - i,
    {
        if release_fits(&releases[i], request.as_str()) {
            assert(is_chosen(releases@, request@, i as int));
            let v_version = releases[i].version.as_str();
            let full = chars::of(v_version);
            let version = chars::to_string(chars::trim_start_set(&full, "v"));
            let url = build_download_url(v_version, version.as_str(), os, arch);
            return Some((url, version));
        }
        i = i + 1;
    }
    None
}

// ── Executables ─────────────────────────────────────────────────────────────
/// Where `node` may be in a runtime.
pub open spec fn node_candidates(windows: bool) -> Seq<Seq<char>> {
    if windows {
        seq!["node.exe"@]
    } else {
        seq!["bin/node"@]
    }
}

/// Where `npm` may be in a runtime, in the order of preference.
pub open spec fn npm_candidates(windows: bool) -> Seq<Seq<char>> {
    if windows {
        seq!["npm.cmd"@, "npm"@]
    } else {
        seq!["bin/npm"@]
    }
}

/// The `node` executable of a runtime. `existing` lists the paths in its directory
/// that exist.
pub fn node_exe_in(runtime_dir: &str, windows: bool, existing: &[String]) -> (r: Option<String>)
    ensures
        text::opt_view(r) == paths::first_existing(
            runtime_dir@,
            node_candidates(windows),
            text::views(existing@),
        ),
{
    let candidates: [&str; 1] = if windows {
        ["node.exe"]
    } else {
        ["bin/node"]
    };
    let slice = candidates.as_slice();
    assert(paths::str_views(slice@) =~= node_candidates(windows));
    paths::find_existing(runtime_dir, slice, existing)
}

/// The `npm` executable of a runtime.
pub fn npm_exe_in(runtime_dir: &str, windows: bool, existing: &[String]) -> (r: Option<String>)
    ensures
        text::opt_view(r) == paths::first_existing(
            runtime_dir@,
            npm_candidates(windows),
            text::views(existing@),
        ),
{
    if windows {
        let candidates: [&str; 2] = ["npm.cmd", "npm"];
        let slice = candidates.as_slice();
        assert(paths::str_views(slice@) =~= npm_candidates(windows));
        paths::find_existing(runtime_dir, slice, existing)
    } else {
        let candidates: [&str; 1] = ["bin/npm"];
        let slice = candidates.as_slice();
        assert(paths::str_views(slice@) =~= npm_candidates(windows));
        paths::find_existing(runtime_dir, slice, existing)
    }
}

/// A Node.js runtime in the store.
#[derive(Debug)]
pub struct NodeRuntime {
    pub version: String,
    /// The path in the store.
    pub store_path: String,
    pub node_exe: String,
    pub npm_exe: String,
}

/// What is to be done for a runtime.
#[derive(Debug)]
pub enum RuntimeStep {
    /// It is in the store.
    Ready(NodeRuntime),
    /// It must be brought into the directory at this path in the store.
    Download { store_path: String },
    /// It was brought, and has no `node`.
    MissingNode { runtime_dir: String },
    /// It has no `npm`.
    MissingNpm { runtime_dir: String },
}

/// The path of a runtime in the store.
pub open spec fn runtime_path(version: Seq<char>) -> Seq<char> {
    "node/runtime/"@ + version
}

/// What is to be done for the runtime of a version. `existing` lists the paths
/// that exist in its directory; `brought` says that it was just brought.
pub fn ensure_runtime(
    store_root: &str,
    version: &str,
    windows: bool,
    existing: &[String],
    brought: bool,
) -> (r: RuntimeStep)
    ensures
        ({
            let dir = paths::joined(store_root@, runtime_path(version@));
            let there = text::views(existing@);
            match (
                paths::first_existing(dir, node_candidates(windows), there),
                paths::first_existing(dir, npm_candidates(windows), there),
            ) {
                (Some(node), Some(npm)) => {
                    &&& r matches RuntimeStep::Ready(rt)
                    &&& rt.version@ == version@
                    &&& rt.store_path@ == runtime_path(version@)
                    &&& rt.node_exe@ == node
                    &&& rt.npm_exe@ == npm
                },
                (Some(_), None) => r matches RuntimeStep::MissingNpm { runtime_dir }
                    && runtime_dir@ == dir,
                (None, _) => if brought {
                    r matches RuntimeStep::MissingNode { runtime_dir } && runtime_dir@ == dir
                } else {
                    r matches RuntimeStep::Download { store_path } && store_path@ == runtime_path(
                        version@,
                    )
                },
            }
        }),
{
    let mut store_path = String::from_str("node/runtime/");
    store_path.append(version);
    let dir = paths::join(store_root, store_path.as_str());
    match node_exe_in(dir.as_str(), windows, existing) {
        Some(node_exe) => match npm_exe_in(dir.as_str(), windows, existing) {
            Some(npm_exe) => RuntimeStep::Ready(
                NodeRuntime { version: String::from_str(version), store_path, node_exe, npm_exe },
            ),
            None => RuntimeStep::MissingNpm { runtime_dir: dir },
        },
        None => if brought {
            RuntimeStep::MissingNode { runtime_dir: dir }
        } else {
            RuntimeStep::Download { store_path }
        },
    }
}

} // verus!
