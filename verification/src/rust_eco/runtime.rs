//! The Rust toolchains of the store: what the manifest of a channel says of them,
//! and where their executables are.
use vstd::prelude::*;

use crate::chars;
use crate::doc;
use crate::doc::Doc;
use crate::doc::DocModel;
use crate::extract;
use crate::paths;
use crate::text;

verus! {

// ── Targets ─────────────────────────────────────────────────────────────────
/// The target triple of a machine.
pub open spec fn target_triple(os: Seq<char>, arch: Seq<char>) -> Option<Seq<char>> {
    if os == "windows"@ && arch == "x86_64"@ {
        Some("x86_64-pc-windows-msvc"@)
    } else if os == "macos"@ && arch == "aarch64"@ {
        Some("aarch64-apple-darwin"@)
    } else if os == "macos"@ && arch == "x86_64"@ {
        Some("x86_64-apple-darwin"@)
    } else if os == "linux"@ && arch == "x86_64"@ {
        Some("x86_64-unknown-linux-gnu"@)
    } else if os == "linux"@ && arch == "aarch64"@ {
        Some("aarch64-unknown-linux-gnu"@)
    } else {
        None
    }
}

/// The target triple of a machine, by its operating system and architecture;
/// nothing for a machine without a toolchain.
pub fn rust_target(os: &str, arch: &str) -> (r: Option<&'static str>)
    ensures
        match r {
            Some(t) => target_triple(os@, arch@) == Some(t@),
            None => target_triple(os@, arch@) is None,
        },
{
    let x86_64 = chars::str_same(arch, "x86_64");
    let aarch64 = chars::str_same(arch, "aarch64");
    if chars::str_same(os, "windows") && x86_64 {
        return Some("x86_64-pc-windows-msvc");
    }
    if chars::str_same(os, "macos") && aarch64 {
        return Some("aarch64-apple-darwin");
    }
    if chars::str_same(os, "macos") && x86_64 {
        return Some("x86_64-apple-darwin");
    }
    if chars::str_same(os, "linux") && x86_64 {
        return Some("x86_64-unknown-linux-gnu");
    }
    if chars::str_same(os, "linux") && aarch64 {
        return Some("aarch64-unknown-linux-gnu");
    }
    None
}

// ── The manifest of a channel ───────────────────────────────────────────────
/// The components of a toolchain.
#[derive(Debug)]
pub struct Components {
    pub version: String,
    pub cargo_url: String,
    pub rustc_url: String,
    pub std_url: String,
}

/// What a manifest lacks.
#[derive(Debug)]
pub enum ManifestError {
    /// It cannot be parsed.
    NotToml,
    /// It does not say which version of the compiler it is for.
    NoVersion,
    /// It says that with an empty text.
    MalformedVersion,
    /// It has no component for the target.
    NoComponent { component: &'static str, target: String },
}

impl ManifestError {
    /// What is said of it.
    pub fn message(&self) -> (r: String)
        ensures
            r@ == match self {
                ManifestError::NotToml => "failed to parse channel manifest TOML"@,
                ManifestError::NoVersion => "cannot find rustc version in channel manifest"@,
                ManifestError::MalformedVersion => "malformed rustc version string"@,
                ManifestError::NoComponent { component, target } => "component '"@ + component@
                    + "' not found for target '"@ + target@ + "'"@,
            },
    {
        match self {
            ManifestError::NotToml => String::from_str("failed to parse channel manifest TOML"),
            ManifestError::NoVersion => String::from_str(
                "cannot find rustc version in channel manifest",
            ),
            ManifestError::MalformedVersion => String::from_str("malformed rustc version string"),
            ManifestError::NoComponent { component, target } => {
                let mut out = String::from_str("component '");
                out.append(component);
                out.append("' not found for target '");
                out.append(target.as_str());
                out.append("'");
                out
            },
        }
    }
}

/// The text that names the version of the compiler, with its date behind it.
pub open spec fn version_text(manifest: DocModel) -> Option<Seq<char>> {
    doc::as_text(
        doc::get_opt(doc::get_opt(doc::get(manifest, "pkg"@), "rustc"@), "version"@),
    )
}

/// The address of a component for a target.
pub open spec fn address(manifest: DocModel, component: Seq<char>, target: Seq<char>) -> Option<
    Seq<char>,
> {
    doc::as_text(
        doc::get_opt(
            doc::get_opt(
                doc::get_opt(doc::get_opt(doc::get(manifest, "pkg"@), component), "target"@),
                target,
            ),
            "url"@,
        ),
    )
}

/// The components of a toolchain by the manifest of its channel, or the first
/// thing that the manifest lacks.
pub open spec fn describes(
    manifest: DocModel,
    target: Seq<char>,
    r: Result<Components, ManifestError>,
) -> bool {
    match version_text(manifest) {
        None => r == Err::<Components, ManifestError>(ManifestError::NoVersion),
        Some(v) => if text::words(v).len() == 0 {
            r == Err::<Components, ManifestError>(ManifestError::MalformedVersion)
        } else {
            match (
                address(manifest, "cargo"@, target),
                address(manifest, "rustc"@, target),
                address(manifest, "rust-std"@, target),
            ) {
                (None, _, _) => lacks(r, "cargo"@, target),
                (Some(_), None, _) => lacks(r, "rustc"@, target),
                (Some(_), Some(_), None) => lacks(r, "rust-std"@, target),
                (Some(cargo), Some(rustc), Some(std)) => {
                    &&& r matches Ok(c)
                    &&& c.version@ == text::words(v)[0]
                    &&& c.cargo_url@ == cargo
                    &&& c.rustc_url@ == rustc
                    &&& c.std_url@ == std
                },
            }
        },
    }
}

/// The manifest has no such component.
pub open spec fn lacks(
    r: Result<Components, ManifestError>,
    component: Seq<char>,
    target: Seq<char>,
) -> bool {
    &&& r matches Err(ManifestError::NoComponent { component: c, target: t })
    &&& c@ == component
    &&& t@ == target
}

fn component_url(manifest: &Doc, component: &str, target: &str) -> (r: Option<String>)
    ensures
        text::opt_view(r) == address(manifest@, component@, target@),
{
    let found = doc::text_of(
        doc::get_in(
            doc::get_in(
                doc::get_in(doc::get_in(manifest.get("pkg"), component), "target"),
                target,
            ),
            "url",
        ),
    );
    match found {
        Some(url) => Some(url.clone()),
        None => None,
    }
}

/// The components of a toolchain for a target by the manifest of its channel.
pub fn read_components(manifest: &Doc, target: &str) -> (r: Result<Components, ManifestError>)
    ensures
        describes(manifest@, target@, r),
{
    let version = doc::text_of(
        doc::get_in(doc::get_in(manifest.get("pkg"), "rustc"), "version"),
    );
    let version = match version {
        Some(v) => chars::of(v.as_str()),
        None => {
            return Err(ManifestError::NoVersion);
        },
    };
    let words = chars::words(&version);
    if words.len() == 0 {
        return Err(ManifestError::MalformedVersion);
    }
    assert(chars::slice_views(words@)[0] == words@[0]@);
    let version = chars::to_string(words[0]);
    let cargo_url = match component_url(manifest, "cargo", target) {
        Some(url) => url,
        None => {
            return Err(
                ManifestError::NoComponent { component: "cargo", target: String::from_str(target) },
            );
        },
    };
    let rustc_url = match component_url(manifest, "rustc", target) {
        Some(url) => url,
        None => {
            return Err(
                ManifestError::NoComponent { component: "rustc", target: String::from_str(target) },
            );
        },
    };
    let std_url = match component_url(manifest, "rust-std", target) {
        Some(url) => url,
        None => {
            return Err(
                ManifestError::NoComponent {
                    component: "rust-std",
                    target: String::from_str(target),
                },
            );
        },
    };
    Ok(Components { version, cargo_url, rustc_url, std_url })
}

/// The components of a toolchain for a target by the text of the manifest of its
/// channel.
pub fn resolve_components(manifest: &str, target: &str) -> (r: Result<Components, ManifestError>)
    ensures
        match doc::toml_document(manifest@) {
            Some(d) => describes(d, target@, r),
            None => r == Err::<Components, ManifestError>(ManifestError::NotToml),
        },
{
    match doc::parse_toml(manifest) {
        Some(d) => read_components(&d, target),
        None => Err(ManifestError::NotToml),
    }
}

// ── Components ──────────────────────────────────────────────────────────────
/// What is done with an entry of the archive of a component.
#[derive(Debug)]
pub enum ComponentStep {
    Skip,
    MakeDir { path: String },
    Write { path: String, executable: bool },
}

/// The first component of a path is a file of the installer.
pub open spec fn is_installer_file(first: Seq<char>) -> bool {
    first == "manifest.in"@ || first == "rust-installer-version"@ || first == "components"@
}

/// What is done with an entry of the archive of a component: the first two parts of
/// its path are stripped, and files of the installer are left out.
pub open spec fn is_component_step(
    r: ComponentStep,
    path: Seq<char>,
    is_dir: bool,
    mode: u32,
    dest: Seq<char>,
) -> bool {
    let parts = extract::components(path);
    if parts.len() <= 2 || is_installer_file(parts[2]) {
        r is Skip
    } else {
        let out = paths::joined(dest, extract::stripped(path, 2));
        if is_dir {
            r matches ComponentStep::MakeDir { path: p } && p@ == out
        } else {
            r matches ComponentStep::Write { path: p, executable } && p@ == out && executable == (
            mode & 0o111 != 0)
        }
    }
}

/// What is done with an entry of the archive of a component that is merged into
/// `dest`.
pub fn download_component(path: &str, is_dir: bool, mode: u32, dest: &str) -> (r: ComponentStep)
    ensures
        is_component_step(r, path@, is_dir, mode, dest@),
{
    let whole = chars::of(path);
    let parts = extract::path_components(&whole);
    if parts.len() <= 2 {
        return ComponentStep::Skip;
    }
    assert(extract::components(path@)[2] == parts@[2]@);
    let first = parts[2].as_str();
    if chars::str_same(first, "manifest.in") || chars::str_same(first, "rust-installer-version")
        || chars::str_same(first, "components") {
        return ComponentStep::Skip;
    }
    match extract::strip_components(path, 2) {
        Some(rest) => {
            let path = paths::join(dest, rest.as_str());
            if is_dir {
                ComponentStep::MakeDir { path }
            } else {
                ComponentStep::Write { path, executable: mode & 0o111 != 0 }
            }
        },
        None => ComponentStep::Skip,
    }
}

// ── Executables ─────────────────────────────────────────────────────────────
/// Where `cargo` is in a toolchain.
pub open spec fn cargo_candidates(windows: bool) -> Seq<Seq<char>> {
    if windows {
        seq!["bin/cargo.exe"@]
    } else {
        seq!["bin/cargo"@]
    }
}

/// Where `rustc` is in a toolchain.
pub open spec fn rustc_candidates(windows: bool) -> Seq<Seq<char>> {
    if windows {
        seq!["bin/rustc.exe"@]
    } else {
        seq!["bin/rustc"@]
    }
}

/// The `cargo` executable of a toolchain. `existing` lists the paths in its
/// directory that exist.
pub fn cargo_exe_in(dir: &str, windows: bool, existing: &[String]) -> (r: Option<String>)
    ensures
        text::opt_view(r) == paths::first_existing(
            dir@,
            cargo_candidates(windows),
            text::views(existing@),
        ),
{
    let candidates: [&str; 1] = if windows {
        ["bin/cargo.exe"]
    } else {
        ["bin/cargo"]
    };
    let slice = candidates.as_slice();
    assert(paths::str_views(slice@) =~= cargo_candidates(windows));
    paths::find_existing(dir, slice, existing)
}

/// The `rustc` executable of a toolchain.
pub fn rustc_exe_in(dir: &str, windows: bool, existing: &[String]) -> (r: Option<String>)
    ensures
        text::opt_view(r) == paths::first_existing(
            dir@,
            rustc_candidates(windows),
            text::views(existing@),
        ),
{
    let candidates: [&str; 1] = if windows {
        ["bin/rustc.exe"]
    } else {
        ["bin/rustc"]
    };
    let slice = candidates.as_slice();
    assert(paths::str_views(slice@) =~= rustc_candidates(windows));
    paths::find_existing(dir, slice, existing)
}

/// A Rust toolchain in the store.
#[derive(Debug)]
pub struct RustRuntime {
    pub version: String,
    /// The path in the store.
    pub store_path: String,
    pub cargo_exe: String,
    pub rustc_exe: String,
}

/// What is to be done for a toolchain.
#[derive(Debug)]
pub enum RuntimeStep {
    /// It is in the store.
    Ready(RustRuntime),
    /// Its components must be brought into the directory at this path in the store.
    Download { store_path: String },
    /// It was brought, and has no `cargo`.
    MissingCargo { toolchain_dir: String },
    /// It was brought, and has no `rustc`.
    MissingRustc { toolchain_dir: String },
}

/// The path of a toolchain in the store.
pub open spec fn toolchain_path(version: Seq<char>) -> Seq<char> {
    "rust/toolchain/"@ + version
}

/// What is to be done for the toolchain of a version. `existing` lists the paths
/// that exist in its directory; `brought` says that it was just brought.
pub fn ensure_runtime(
    store_root: &str,
    version: &str,
    windows: bool,
    existing: &[String],
    brought: bool,
) -> (r: RuntimeStep)
    ensures
        ({
            let dir = paths::joined(store_root@, toolchain_path(version@));
            let there = text::views(existing@);
            match (
                paths::first_existing(dir, cargo_candidates(windows), there),
                paths::first_existing(dir, rustc_candidates(windows), there),
            ) {
                (Some(cargo), Some(rustc)) => {
                    &&& r matches RuntimeStep::Ready(rt)
                    &&& rt.version@ == version@
                    &&& rt.store_path@ == toolchain_path(version@)
                    &&& rt.cargo_exe@ == cargo
                    &&& rt.rustc_exe@ == rustc
                },
                (cargo, _) => if !brought {
                    r matches RuntimeStep::Download { store_path } && store_path@ == toolchain_path(
                        version@,
                    )
                } else if cargo is None {
                    r matches RuntimeStep::MissingCargo { toolchain_dir } && toolchain_dir@ == dir
                } else {
                    r matches RuntimeStep::MissingRustc { toolchain_dir } && toolchain_dir@ == dir
                },
            }
        }),
{
    let mut store_path = String::from_str("rust/toolchain/");
    store_path.append(version);
    let dir = paths::join(store_root, store_path.as_str());
    let cargo = cargo_exe_in(dir.as_str(), windows, existing);
    let rustc = rustc_exe_in(dir.as_str(), windows, existing);
    match cargo {
        Some(cargo_exe) => match rustc {
            Some(rustc_exe) => RuntimeStep::Ready(
                RustRuntime {
                    version: String::from_str(version),
                    store_path,
                    cargo_exe,
                    rustc_exe,
                },
            ),
            None => if brought {
                RuntimeStep::MissingRustc { toolchain_dir: dir }
            } else {
                RuntimeStep::Download { store_path }
            },
        },
        None => if brought {
            RuntimeStep::MissingCargo { toolchain_dir: dir }
        } else {
            RuntimeStep::Download { store_path }
        },
    }
}

} // verus!
