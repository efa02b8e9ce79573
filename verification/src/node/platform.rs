//! Which packages npm installs on a platform.
//!
//! A package with native code declares the systems, processors and C libraries
//! that it is for. It is installed only where each declared list allows the
//! host's value.
use vstd::prelude::*;

use crate::chars;
use crate::text;

verus! {

/// A host in the words of npm.
#[derive(Debug, PartialEq, Eq)]
pub struct HostTriple {
    pub os: String,
    pub cpu: String,
    /// The C library, which only Linux hosts have.
    pub libc: Option<String>,
}

/// What a host is.
pub struct HostModel {
    pub os: Seq<char>,
    pub cpu: Seq<char>,
    pub libc: Option<Seq<char>>,
}

impl View for HostTriple {
    type V = HostModel;

    open spec fn view(&self) -> HostModel {
        HostModel { os: self.os@, cpu: self.cpu@, libc: text::opt_view(self.libc) }
    }
}

/// npm's name of an operating system that Rust names `os`.
pub open spec fn npm_os(os: Seq<char>) -> Seq<char> {
    if os == "macos"@ {
        "darwin"@
    } else if os == "windows"@ {
        "win32"@
    } else {
        os
    }
}

/// npm's name of an architecture that Rust names `arch`.
pub open spec fn npm_arch(arch: Seq<char>) -> Seq<char> {
    if arch == "x86_64"@ {
        "x64"@
    } else if arch == "aarch64"@ {
        "arm64"@
    } else if arch == "x86"@ {
        "ia32"@
    } else if arch == "powerpc64"@ {
        "ppc64"@
    } else {
        arch
    }
}

/// One of the files in `/lib` is the loader of musl.
pub open spec fn has_musl_loader(lib_entries: Seq<Seq<char>>) -> bool {
    exists|i: int|
        0 <= i < lib_entries.len() && "ld-musl-"@.is_prefix_of(#[trigger] lib_entries[i])
}

/// The C library of a host: musl where its loader is in `/lib`, else glibc, and
/// none outside Linux.
pub open spec fn host_libc(os: Seq<char>, lib_entries: Seq<Seq<char>>) -> Option<Seq<char>> {
    if os != "linux"@ {
        None
    } else if has_musl_loader(lib_entries) {
        Some("musl"@)
    } else {
        Some("glibc"@)
    }
}

/// npm's name of an operating system.
pub fn map_os(rust_os: &str) -> (r: String)
    ensures
        r@ == npm_os(rust_os@),
{
    if chars::str_same(rust_os, "macos") {
        String::from_str("darwin")
    } else if chars::str_same(rust_os, "windows") {
        String::from_str("win32")
    } else {
        String::from_str(rust_os)
    }
}

/// npm's name of an architecture.
pub fn map_arch(rust_arch: &str) -> (r: String)
    ensures
        r@ == npm_arch(rust_arch@),
{
    if chars::str_same(rust_arch, "x86_64") {
        String::from_str("x64")
    } else if chars::str_same(rust_arch, "aarch64") {
        String::from_str("arm64")
    } else if chars::str_same(rust_arch, "x86") {
        String::from_str("ia32")
    } else if chars::str_same(rust_arch, "powerpc64") {
        String::from_str("ppc64")
    } else {
        String::from_str(rust_arch)
    }
}

impl HostTriple {
    /// The host whose system and architecture Rust names `os` and `arch`, and
    /// whose `/lib` has the entries `lib_entries`.
    pub fn current(os: &str, arch: &str, lib_entries: &[String]) -> (r: HostTriple)
        ensures
            r@ == (HostModel {
                os: npm_os(os@),
                cpu: npm_arch(arch@),
                libc: host_libc(os@, text::views(lib_entries@)),
            }),
    {
        let libc: Option<String> = if chars::str_same(os, "linux") {
            if find_musl_loader(lib_entries) {
                Some(String::from_str("musl"))
            } else {
                Some(String::from_str("glibc"))
            }
        } else {
            None
        };
        HostTriple { os: map_os(os), cpu: map_arch(arch), libc }
    }
}

fn find_musl_loader(lib_entries: &[String]) -> (r: bool)
    ensures
        r == has_musl_loader(text::views(lib_entries@)),
{
    let ghost texts = text::views(lib_entries@);
    let mut i: usize = 0;
    while i < lib_entries.len()
        invariant
            i <= lib_entries.len(),
            texts == text::views(lib_entries@),
            forall|k: int| 0 <= k < i ==> !"ld-musl-"@.is_prefix_of(#[trigger] texts[k]),
        decreases lib_entries.len() - i,
    {
        assert(texts[i as int] == lib_entries@[i as int]@);
        let name = chars::of(lib_entries[i].as_str());
        if chars::starts_with(&name, "ld-musl-") {
            return true;
        }
        i = i + 1;
    }
    false
}

/// The entry forbids the value: it is the value behind a `!`.
pub open spec fn forbids(entry: Seq<char>, value: Seq<char>) -> bool {
    let e = text::trim(entry);
    e.len() > 0 && e[0] == '!' && e.skip(1) == value
}

/// The entry names a value that is allowed.
pub open spec fn is_positive(entry: Seq<char>) -> bool {
    let e = text::trim(entry);
    !(e.len() > 0 && e[0] == '!')
}

/// The list allows the value. An empty list allows all. A value that an entry
/// forbids is not allowed. Where entries name values, only those are allowed.
pub open spec fn allows(list: Seq<Seq<char>>, value: Seq<char>) -> bool {
    &&& forall|i: int| 0 <= i < list.len() ==> !forbids(#[trigger] list[i], value)
    &&& (exists|i: int| 0 <= i < list.len() && is_positive(#[trigger] list[i])) ==> exists|i: int|
        0 <= i < list.len() && is_positive(#[trigger] list[i]) && text::trim(list[i]) == value
}

/// A package with these lists is installed on the host. A list of C libraries
/// counts only where the host has one.
pub open spec fn compatible(
    host: HostModel,
    os: Seq<Seq<char>>,
    cpu: Seq<Seq<char>>,
    libc: Seq<Seq<char>>,
) -> bool {
    &&& allows(os, host.os)
    &&& allows(cpu, host.cpu)
    &&& match host.libc {
        Some(l) => allows(libc, l),
        None => true,
    }
}

/// Does the list allow the value?
pub fn list_allows(list: &[String], value: &str) -> (r: bool)
    ensures
        r == allows(text::views(list@), value@),
{
    let ghost texts = text::views(list@);
    let wanted = chars::of(value);
    let mut any_positive = false;
    let mut named = false;
    let mut i: usize = 0;
    while i < list.len()
        invariant
            i <= list.len(),
            texts == text::views(list@),
            wanted@ == value@,
            forall|k: int| 0 <= k < i ==> !forbids(#[trigger] texts[k], value@),
            any_positive == exists|k: int| 0 <= k < i && is_positive(#[trigger] texts[k]),
            named == exists|k: int|
                0 <= k < i && is_positive(#[trigger] texts[k]) && text::trim(texts[k]) == value@,
        decreases list.len() - i,
    {
        assert(texts[i as int] == list@[i as int]@);
        let whole = chars::of(list[i].as_str());
        let entry = chars::trim(&whole);
        if entry.len() > 0 && entry[0] == '!' {
            if chars::same(chars::skip(entry, 1), &wanted) {
                assert(forbids(texts[i as int], value@));
                return false;
            }
        } else {
            any_positive = true;
            if chars::same(entry, &wanted) {
                named = true;
            }
        }
        i = i + 1;
    }
    !any_positive || named
}

/// Is a package with these lists installed on the host?
pub fn is_compatible(host: &HostTriple, os: &[String], cpu: &[String], libc: &[String]) -> (r: bool)
    ensures
        r == compatible(host@, text::views(os@), text::views(cpu@), text::views(libc@)),
{
    if !list_allows(os, host.os.as_str()) || !list_allows(cpu, host.cpu.as_str()) {
        return false;
    }
    match &host.libc {
        Some(l) => list_allows(libc, l.as_str()),
        None => true,
    }
}

/// A package without lists is installed everywhere.
pub proof fn unconstrained_is_compatible(host: HostModel)
    ensures
        compatible(host, Seq::empty(), Seq::empty(), Seq::empty()),
{
}

/// A list of prohibitions alone allows every value that none of them names.
pub proof fn only_prohibitions(list: Seq<Seq<char>>, value: Seq<char>)
    requires
        forall|i: int| 0 <= i < list.len() ==> !is_positive(#[trigger] list[i]),
    ensures
        allows(list, value) <==> forall|i: int|
            0 <= i < list.len() ==> !forbids(#[trigger] list[i], value),
{
}

/// Outside Linux the list of C libraries does not count.
pub proof fn libc_counts_on_linux_only(
    host: HostModel,
    os: Seq<Seq<char>>,
    cpu: Seq<Seq<char>>,
    libc: Seq<Seq<char>>,
)
    requires
        host.libc is None,
    ensures
        compatible(host, os, cpu, libc) == compatible(host, os, cpu, Seq::empty()),
{
}

} // verus!
