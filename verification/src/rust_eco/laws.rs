//! What holds of the crates of lock files, of toolchains and of the registry that
//! stands in for that of crates.io.
use vstd::prelude::*;

use crate::actions::ActionModel;
use crate::config::KongRules;
use crate::config::PackageEntry;
use crate::doc::DocModel;
use crate::doc;
use crate::path_laws;
use crate::paths;
use crate::rust_eco::parser::LockedModel;
use crate::rust_eco::parser::RustDepModel;
use crate::rust_eco::parser;
use crate::rust_eco::runtime::ComponentStep;
use crate::rust_eco::runtime::Components;
use crate::rust_eco::runtime::ManifestError;
use crate::rust_eco::runtime;
use crate::rust_eco::source::CrateFacts;
use crate::rust_eco::source;
use crate::text;
use crate::text_laws;

verus! {

// ── Lock files ──────────────────────────────────────────────────────────────
/// Each package of a lock file that comes from somewhere is one crate, with its name,
/// its version and its checksum, behind those before it; the project's own packages
/// are none.
pub proof fn outside_packages_are_crates(before: Seq<LockedModel>, p: LockedModel)
    ensures
        p.source is Some ==> parser::outside_crates(before.push(p)) == parser::outside_crates(
            before,
        ).push(RustDepModel { name: p.name, version: p.version, checksum: p.checksum }),
        p.source is None ==> parser::outside_crates(before.push(p)) == parser::outside_crates(
            before,
        ),
        parser::outside_crates(Seq::empty()) == Seq::<RustDepModel>::empty(),
{
    let all = before.push(p);
    assert(all.drop_last() =~= before && all.last() == p);
}

/// A checksum of ASCII characters is whole, whatever it says.
pub proof fn ascii_checksums_are_whole(s: Seq<char>)
    requires
        text::is_ascii(s),
    ensures
        !parser::is_cut(s),
{
    nothing_is_cut(s);
}

proof fn nothing_is_cut(s: Seq<char>)
    requires
        text::is_ascii(s),
    ensures
        !parser::cuts_character(s),
    decreases s.len(),
{
    if s.len() > 0 {
        assert((s[0] as u32) <= 127);
        if s.len() > 1 {
            assert((s[1] as u32) <= 127);
            let rest = s.skip(2);
            assert forall|i: int| 0 <= i < rest.len() implies (#[trigger] rest[i]) as u32 <= 127 by {
                assert(rest[i] == s[i + 2]);
            }
            nothing_is_cut(rest);
        }
    }
}

// ── Toolchains ──────────────────────────────────────────────────────────────
/// The targets of the platforms.
pub proof fn targets_of_platforms(os: Seq<char>, arch: Seq<char>)
    ensures
        runtime::target_triple("windows"@, "x86_64"@) == Some("x86_64-pc-windows-msvc"@),
        runtime::target_triple("macos"@, "aarch64"@) == Some("aarch64-apple-darwin"@),
        runtime::target_triple("macos"@, "x86_64"@) == Some("x86_64-apple-darwin"@),
        runtime::target_triple("linux"@, "x86_64"@) == Some("x86_64-unknown-linux-gnu"@),
        runtime::target_triple("linux"@, "aarch64"@) == Some("aarch64-unknown-linux-gnu"@),
        os != "windows"@ && os != "macos"@ && os != "linux"@ ==> runtime::target_triple(os, arch)
            is None,
        arch != "x86_64"@ && arch != "aarch64"@ ==> runtime::target_triple(os, arch) is None,
        runtime::target_triple("windows"@, "aarch64"@) is None,
        runtime::toolchain_path(arch) == "rust/toolchain/"@ + arch,
        runtime::cargo_candidates(true) == seq!["bin/cargo.exe"@],
        runtime::cargo_candidates(false) == seq!["bin/cargo"@],
        runtime::rustc_candidates(true) == seq!["bin/rustc.exe"@],
        runtime::rustc_candidates(false) == seq!["bin/rustc"@],
{
    reveal_strlit("windows");
    reveal_strlit("macos");
    reveal_strlit("linux");
    reveal_strlit("aarch64");
    reveal_strlit("x86_64");
    assert("windows"@[0] == 'w' && "macos"@[0] == 'm' && "linux"@[0] == 'l');
    assert("aarch64"@[0] == 'a' && "x86_64"@[0] == 'x');
}

/// The files of a component are written below its second directory, those that may be
/// run as such; the files of the installer are not.
pub proof fn component_files_are_written(
    top: Seq<char>,
    component: Seq<char>,
    parts: Seq<Seq<char>>,
    mode: u32,
    dest: Seq<char>,
    step: ComponentStep,
    is_dir: bool,
)
    requires
        path_laws::are_names(seq![top, component] + parts),
        parts.len() > 0,
    ensures
        ({
            let path = text::join(seq![top, component] + parts, "/"@);
            let out = paths::joined(dest, text::join(parts, "/"@));
            let own = parts[0] == "manifest.in"@ || parts[0] == "rust-installer-version"@
                || parts[0] == "components"@;
            &&& own ==> runtime::is_component_step(step, path, is_dir, mode, dest) == (
            step is Skip)
            &&& !own && is_dir ==> runtime::is_component_step(step, path, is_dir, mode, dest) == (
            step matches ComponentStep::MakeDir { path: p } && p@ == out)
            &&& !own && !is_dir ==> runtime::is_component_step(step, path, is_dir, mode, dest) == (
            step matches ComponentStep::Write { path: p, executable } && p@ == out && executable
                == (mode & 0o111 != 0))
        }),
{
    let all = seq![top, component] + parts;
    path_laws::components_are_names(all, 2);
    assert(all.skip(2) =~= parts);
    assert(all[2] == parts[0]);
}

// ── The registry ────────────────────────────────────────────────────────────
/// A crate that the registry does not have yet is linked there from the store, from
/// the directory of its own where it has one, and gets a checksum where it has none.
pub proof fn crates_are_registered(p: PackageEntry, store_root: Seq<char>, nested: bool)
    ensures
        ({
            let name = p.name@ + "-"@ + p.version@;
            let stored = paths::joined(store_root, p.store_path@);
            let from = if nested {
                paths::joined(stored, name)
            } else {
                stored
            };
            let entry = paths::joined(
                paths::joined(paths::joined(store_root, "rust"@), "registry"@),
                name,
            );
            let tree = ActionModel::LinkTree(entry, from);
            let sum = ActionModel::WriteNew(
                paths::joined(entry, ".cargo-checksum.json"@),
                source::checksum_text(text::opt_view(p.hash)),
                false,
            );
            let facts = |there: bool, summed: bool| CrateFacts {
                nested,
                in_registry: there,
                has_checksum: summed,
            };
            &&& source::crate_steps(p, store_root, facts(false, false)) == seq![tree, sum]
            &&& source::crate_steps(p, store_root, facts(false, true)) == seq![tree]
            &&& source::crate_steps(p, store_root, facts(true, false)) == seq![sum]
            &&& source::crate_steps(p, store_root, facts(true, true)).len() == 0
        }),
{
    let name = p.name@ + "-"@ + p.version@;
    let stored = paths::joined(store_root, p.store_path@);
    let from = if nested {
        paths::joined(stored, name)
    } else {
        stored
    };
    let entry = paths::joined(paths::joined(paths::joined(store_root, "rust"@), "registry"@), name);
    let tree = ActionModel::LinkTree(entry, from);
    let sum = ActionModel::WriteNew(
        paths::joined(entry, ".cargo-checksum.json"@),
        source::checksum_text(text::opt_view(p.hash)),
        false,
    );
    let a = CrateFacts { nested, in_registry: false, has_checksum: false };
    let b = CrateFacts { nested, in_registry: false, has_checksum: true };
    let c = CrateFacts { nested, in_registry: true, has_checksum: false };
    assert(source::crate_steps(p, store_root, a) =~= seq![tree, sum]);
    assert(source::crate_steps(p, store_root, b) =~= seq![tree]);
    assert(source::crate_steps(p, store_root, c) =~= seq![sum]);
}

/// The crates are registered in their order.
pub proof fn crates_are_registered_in_order(
    before: Seq<PackageEntry>,
    p: PackageEntry,
    store_root: Seq<char>,
    facts: Seq<CrateFacts>,
)
    requires
        facts.len() > before.len(),
    ensures
        source::crates_steps(before.push(p), store_root, facts) == source::crates_steps(
            before,
            store_root,
            facts,
        ) + source::crate_steps(p, store_root, facts[before.len() as int]),
{
    let all = before.push(p);
    assert(all.drop_last() =~= before && all.last() == p);
}

/// The configuration of Cargo puts the registry of the store in place of crates.io, and
/// names the compiler where there is one, both with slashes.
pub proof fn cargo_is_configured(registry: Seq<char>, rustc: Seq<char>)
    ensures
        ({
            let plain = source::config_text(registry, None);
            let head =
                "[source.crates-io]\nreplace-with = \"kong-local\"\n\n[source.kong-local]\ndirectory = \""@;
            &&& plain == head + text::replace_char(registry, '\\', "/"@) + "\"\n"@
            &&& source::config_text(registry, Some(rustc)) == plain + "\n[build]\nrustc = \""@
                + text::replace_char(rustc, '\\', "/"@) + "\"\n"@
            &&& source::checksum_text(Some(rustc)) == "{\"files\":{},\"package\":\""@ + rustc
                + "\"}"@
        }),
{
    let plain = source::config_text(registry, None);
    let head =
        "[source.crates-io]\nreplace-with = \"kong-local\"\n\n[source.kong-local]\ndirectory = \""@;
    assert(plain =~= head + text::replace_char(registry, '\\', "/"@) + "\"\n"@);
    assert(source::config_text(registry, Some(rustc)) =~= plain + "\n[build]\nrustc = \""@
        + text::replace_char(rustc, '\\', "/"@) + "\"\n"@);
}

/// A component has a file for a target at an address.
pub open spec fn has_file(
    pkg: Seq<(Seq<char>, DocModel)>,
    component: Seq<char>,
    target: Seq<char>,
    url: Seq<char>,
) -> bool {
    &&& doc::lookup(pkg, component) matches Some(DocModel::Table(fields))
    &&& doc::lookup(fields, "target"@) matches Some(DocModel::Table(targets))
    &&& doc::lookup(targets, target) matches Some(DocModel::Table(file))
    &&& doc::lookup(file, "url"@) == Some(DocModel::Text(url))
}

/// A description of a release names the version of its compiler by the first word, and
/// the files of Cargo, of the compiler and of the standard library for the target. The
/// first of the three that is missing is the one that is reported.
pub proof fn release_is_described(
    fields: Seq<(Seq<char>, DocModel)>,
    pkg: Seq<(Seq<char>, DocModel)>,
    rustc: Seq<(Seq<char>, DocModel)>,
    version: Seq<char>,
    rest: Seq<char>,
    target: Seq<char>,
    cargo_url: Seq<char>,
    rustc_url: Seq<char>,
    std_url: Seq<char>,
    r: Result<Components, ManifestError>,
)
    requires
        doc::lookup(fields, "pkg"@) == Some(DocModel::Table(pkg)),
        doc::lookup(pkg, "rustc"@) == Some(DocModel::Table(rustc)),
        doc::lookup(rustc, "version"@) == Some(DocModel::Text(version + seq![' '] + rest)),
        text_laws::is_one_word(version),
        runtime::describes(DocModel::Table(fields), target, r),
    ensures
        has_file(pkg, "cargo"@, target, cargo_url) && has_file(pkg, "rustc"@, target, rustc_url)
            && has_file(pkg, "rust-std"@, target, std_url) ==> {
            &&& r matches Ok(c)
            &&& c.version@ == version
            &&& c.cargo_url@ == cargo_url
            &&& c.rustc_url@ == rustc_url
            &&& c.std_url@ == std_url
        },
        doc::lookup(pkg, "cargo"@) is None ==> {
            &&& r matches Err(ManifestError::NoComponent { component: c, target: t })
            &&& c@ == "cargo"@
            &&& t@ == target
        },
        has_file(pkg, "cargo"@, target, cargo_url) && has_file(pkg, "rustc"@, target, rustc_url)
            && doc::lookup(pkg, "rust-std"@) is None ==> {
            &&& r matches Err(ManifestError::NoComponent { component: c, target: t })
            &&& c@ == "rust-std"@
            &&& t@ == target
        },
{
    assert(text::is_whitespace(' '));
    text_laws::words_are_between_spaces(version, ' ', rest);
    assert((seq![version] + text::words(rest))[0] == version);
}

/// A description without a version, or with an empty one, is refused.
pub proof fn release_without_version(
    fields: Seq<(Seq<char>, DocModel)>,
    pkg: Seq<(Seq<char>, DocModel)>,
    rustc: Seq<(Seq<char>, DocModel)>,
    target: Seq<char>,
    r: Result<Components, ManifestError>,
)
    requires
        runtime::describes(DocModel::Table(fields), target, r),
    ensures
        doc::lookup(fields, "pkg"@) is None ==> r == Err::<Components, ManifestError>(
            ManifestError::NoVersion,
        ),
        doc::lookup(fields, "pkg"@) == Some(DocModel::Table(pkg)) && doc::lookup(pkg, "rustc"@)
            == Some(DocModel::Table(rustc)) && doc::lookup(rustc, "version"@) == Some(
            DocModel::Text(Seq::empty()),
        ) ==> r == Err::<Components, ManifestError>(ManifestError::MalformedVersion),
{
    text_laws::words_are_between_spaces(seq!['a'], ' ', Seq::empty());
}

/// The executables of a toolchain are placed in a project under their own names, in its
/// directory for them, with a script for each kind of shell beside it.
pub proof fn toolchain_is_placed(
    project_dir: Seq<char>,
    toolchain: Seq<char>,
    names: Seq<Seq<char>>,
    i: int,
)
    requires
        0 <= i < names.len(),
    ensures
        ({
            let dest = paths::joined(project_dir, ".rust-toolchain"@);
            let bin = paths::joined(dest, "bin"@);
            let steps = source::toolchain_steps(project_dir, toolchain, Some(names));
            &&& steps.len() == names.len() + 4
            &&& steps[0] == ActionModel::CreateDir(dest)
            &&& steps[1] == ActionModel::CreateDir(bin)
            &&& steps[i + 2] == ActionModel::PlaceFile(
                paths::joined(bin, names[i]),
                paths::joined(paths::joined(toolchain, "bin"@), names[i]),
            )
            &&& steps[names.len() as int + 2] is WriteNew
            &&& steps[names.len() as int + 2]->WriteNew_0 == paths::joined(dest, "activate.ps1"@)
            &&& steps[names.len() as int + 3] is WriteNew
            &&& steps[names.len() as int + 3]->WriteNew_0 == paths::joined(dest, "activate.sh"@)
            &&& source::toolchain_steps(project_dir, toolchain, None) == seq![
                ActionModel::CreateDir(dest),
            ]
        }),
{
}

/// The toolchain of a project is the one that its rules name, in the store.
pub proof fn toolchain_is_in_the_store(rules: KongRules, store_root: Seq<char>)
    ensures
        rules.runtimes is None ==> source::toolchain_dir(rules, store_root) is None,
        rules.runtimes matches Some(s) ==> (s.rust is None ==> source::toolchain_dir(
            rules,
            store_root,
        ) is None),
        rules.runtimes matches Some(s) ==> (s.rust matches Some(e) ==> source::toolchain_dir(
            rules,
            store_root,
        ) == Some(paths::joined(store_root, e.store_path@))),
{
}

/// A lock file one of whose packages has a checksum that is cut within a character is
/// not read.
pub proof fn cut_checksums_are_refused(
    content: Seq<char>,
    fields: Seq<(Seq<char>, DocModel)>,
    packages: Seq<DocModel>,
    package: Seq<(Seq<char>, DocModel)>,
    i: int,
    s: Seq<char>,
)
    requires
        doc::toml_document(content) == Some(DocModel::Table(fields)),
        doc::lookup(fields, "package"@) == Some(DocModel::List(packages)),
        0 <= i < packages.len(),
        packages[i] == DocModel::Table(package),
        doc::lookup(package, "checksum"@) == Some(DocModel::Text(s)),
        parser::is_cut(s),
    ensures
        parser::locked_crates(content) is None,
{
    assert(parser::package_is_cut(packages[i]));
}

/// A lock file all of whose packages have checksums in ASCII, or none, gives the crates
/// that come from outside.
pub proof fn whole_checksums_are_read(
    content: Seq<char>,
    fields: Seq<(Seq<char>, DocModel)>,
    packages: Seq<DocModel>,
    found: Seq<LockedModel>,
)
    requires
        doc::toml_document(content) == Some(DocModel::Table(fields)),
        doc::lookup(fields, "package"@) == Some(DocModel::List(packages)),
        doc::lookup(fields, "root"@) is None,
        doc::lookup(fields, "metadata"@) is None,
        forall|i: int|
            0 <= i < packages.len() ==> {
                &&& (#[trigger] packages[i]) is Table
                &&& doc::lookup(packages[i]->Table_0, "checksum"@) matches Some(v) ==> {
                    v is Text && text::is_ascii(v->Text_0)
                }
            },
        parser::lock_packages(content) == Some(found),
    ensures
        parser::locked_crates(content) == Some(parser::outside_crates(found)),
{
    assert forall|i: int| 0 <= i < packages.len() implies !parser::package_is_cut(
        #[trigger] packages[i],
    ) by {
        if let Some(s) = parser::checksum_of(packages[i]) {
            ascii_checksums_are_whole(s);
        }
    }
}

} // verus!
