//! Which file of a release fits an interpreter and a platform.
//!
//! A wheel's name ends in three fields of tags: the interpreters, the binary
//! interfaces and the platforms that it was built for. Every wheel is scored
//! against the target. One built for another interpreter, another operating
//! system or another architecture has no score and is never chosen; of the others
//! the most specific is.
use vstd::prelude::*;

use crate::chars;
use crate::text;

verus! {

// ── Platforms ───────────────────────────────────────────────────────────────
/// The operating systems that a platform tag can name.
#[derive(Debug, Clone, Copy, PartialEq, Eq, Structural)]
pub enum OsFamily {
    Linux,
    MacOs,
    Windows,
    /// `any`: no binary, fit for every platform.
    Pure,
    /// None of the known systems. It fits no platform.
    Unknown,
}

/// The operating system that a platform tag names.
pub open spec fn family(tag: Seq<char>) -> OsFamily {
    if tag == "any"@ {
        OsFamily::Pure
    } else if "manylinux"@.is_prefix_of(tag) || "musllinux"@.is_prefix_of(tag)
        || "linux"@.is_prefix_of(tag) {
        OsFamily::Linux
    } else if "macosx"@.is_prefix_of(tag) {
        OsFamily::MacOs
    } else if "win"@.is_prefix_of(tag) {
        OsFamily::Windows
    } else {
        OsFamily::Unknown
    }
}

/// One name for each architecture.
pub open spec fn normal_arch(a: Seq<char>) -> Seq<char> {
    if a == "amd64"@ || a == "x86_64"@ {
        "x86_64"@
    } else if a == "arm64"@ || a == "aarch64"@ {
        "aarch64"@
    } else if a == "x86"@ || a == "i686"@ || a == "win32"@ {
        "x86"@
    } else {
        a
    }
}

/// The architecture that ends a platform tag, empty where none is known.
pub open spec fn arch_suffix_of(tag: Seq<char>) -> Seq<char> {
    if "x86_64"@.is_suffix_of(tag) {
        "x86_64"@
    } else if "i686"@.is_suffix_of(tag) {
        "i686"@
    } else if "aarch64"@.is_suffix_of(tag) {
        "aarch64"@
    } else if "arm64"@.is_suffix_of(tag) {
        "arm64"@
    } else if "armv7l"@.is_suffix_of(tag) {
        "armv7l"@
    } else if "ppc64le"@.is_suffix_of(tag) {
        "ppc64le"@
    } else if "ppc64"@.is_suffix_of(tag) {
        "ppc64"@
    } else if "s390x"@.is_suffix_of(tag) {
        "s390x"@
    } else if "universal2"@.is_suffix_of(tag) {
        "universal2"@
    } else if "universal"@.is_suffix_of(tag) {
        "universal"@
    } else if "intel"@.is_suffix_of(tag) {
        "intel"@
    } else if "amd64"@.is_suffix_of(tag) {
        "amd64"@
    } else if "x86"@.is_suffix_of(tag) {
        "x86"@
    } else {
        ""@
    }
}

/// The architecture that a platform tag names, empty where it names none.
pub open spec fn arch(tag: Seq<char>) -> Seq<char> {
    if tag == "any"@ || tag.len() == 0 {
        ""@
    } else if tag == "win32"@ {
        "x86"@
    } else if "win_"@.is_prefix_of(tag) {
        normal_arch(tag.skip("win_"@.len() as int))
    } else {
        normal_arch(arch_suffix_of(tag))
    }
}

/// A binary for `wheel` runs where the architecture is `target`. The tags of
/// macOS for several architectures run on each of theirs.
pub open spec fn arch_fits(target: Seq<char>, wheel: Seq<char>) -> bool {
    if target.len() == 0 || wheel.len() == 0 {
        false
    } else if target == wheel {
        true
    } else if wheel == "universal2"@ {
        target == "x86_64"@ || target == "aarch64"@
    } else if wheel == "universal"@ || wheel == "intel"@ {
        target == "x86_64"@ || target == "x86"@
    } else {
        false
    }
}

/// The platform that files are chosen for.
#[derive(Debug)]
pub struct TargetPlatform {
    pub family: OsFamily,
    /// The architecture, empty where it is not known.
    pub arch: String,
}

/// The architecture of a target: the one that its platform tag names, else the
/// one before `.whl` in the suffix.
pub open spec fn target_arch(platform_tag: Seq<char>, arch_suffix: Seq<char>) -> Seq<char> {
    let named = arch(platform_tag);
    if named.len() == 0 {
        normal_arch(text::trim_end_text(arch_suffix, ".whl"@))
    } else {
        named
    }
}

/// A file for the platform `tag` runs on the target.
pub open spec fn platform_fits(target: OsFamily, target_arch: Seq<char>, tag: Seq<char>) -> bool {
    match family(tag) {
        OsFamily::Pure => true,
        OsFamily::Unknown => false,
        f => f == target && arch_fits(target_arch, arch(tag)),
    }
}

impl TargetPlatform {
    /// The operating system that a platform tag names.
    pub fn family_of(tag: &str) -> (r: OsFamily)
        ensures
            r == family(tag@),
    {
        let t = chars::of(tag);
        if chars::is(&t, "any") {
            OsFamily::Pure
        } else if chars::starts_with(&t, "manylinux") || chars::starts_with(&t, "musllinux")
            || chars::starts_with(&t, "linux") {
            OsFamily::Linux
        } else if chars::starts_with(&t, "macosx") {
            OsFamily::MacOs
        } else if chars::starts_with(&t, "win") {
            OsFamily::Windows
        } else {
            OsFamily::Unknown
        }
    }

    /// The architecture that a platform tag names, empty where it names none.
    pub fn arch_of(tag: &str) -> (r: String)
        ensures
            r@ == arch(tag@),
    {
        let t = chars::of(tag);
        if chars::is(&t, "any") || t.len() == 0 {
            return String::from_str("");
        }
        if chars::is(&t, "win32") {
            return String::from_str("x86");
        }
        if let Some(rest) = chars::strip_prefix(&t, "win_") {
            return Self::normalize_arch(chars::to_string(rest).as_str());
        }
        Self::normalize_arch(Self::known_suffix(&t))
    }

    fn known_suffix(t: &[char]) -> (r: &'static str)
        ensures
            r@ == arch_suffix_of(t@),
    {
        if chars::ends_with(t, "x86_64") {
            "x86_64"
        } else if chars::ends_with(t, "i686") {
            "i686"
        } else if chars::ends_with(t, "aarch64") {
            "aarch64"
        } else if chars::ends_with(t, "arm64") {
            "arm64"
        } else if chars::ends_with(t, "armv7l") {
            "armv7l"
        } else if chars::ends_with(t, "ppc64le") {
            "ppc64le"
        } else if chars::ends_with(t, "ppc64") {
            "ppc64"
        } else if chars::ends_with(t, "s390x") {
            "s390x"
        } else if chars::ends_with(t, "universal2") {
            "universal2"
        } else if chars::ends_with(t, "universal") {
            "universal"
        } else if chars::ends_with(t, "intel") {
            "intel"
        } else if chars::ends_with(t, "amd64") {
            "amd64"
        } else if chars::ends_with(t, "x86") {
            "x86"
        } else {
            ""
        }
    }

    /// The one name of an architecture.
    pub fn normalize_arch(a: &str) -> (r: String)
        ensures
            r@ == normal_arch(a@),
    {
        if chars::str_same(a, "amd64") || chars::str_same(a, "x86_64") {
            String::from_str("x86_64")
        } else if chars::str_same(a, "arm64") || chars::str_same(a, "aarch64") {
            String::from_str("aarch64")
        } else if chars::str_same(a, "x86") || chars::str_same(a, "i686") || chars::str_same(
            a,
            "win32",
        ) {
            String::from_str("x86")
        } else {
            String::from_str(a)
        }
    }

    /// The target for a platform tag such as `manylinux2014_x86_64`. The suffix,
    /// such as `x86_64.whl`, gives the architecture where the tag does not.
    pub fn derive(platform_tag: &str, arch_suffix: &str) -> (r: TargetPlatform)
        ensures
            r.family == family(platform_tag@),
            r.arch@ == target_arch(platform_tag@, arch_suffix@),
    {
        let family = Self::family_of(platform_tag);
        let mut arch = Self::arch_of(platform_tag);
        if arch.as_str().is_empty() {
            let suffix = chars::of(arch_suffix);
            let bare = chars::to_string(chars::trim_end_text(&suffix, ".whl"));
            arch = Self::normalize_arch(bare.as_str());
        }
        TargetPlatform { family, arch }
    }

    /// Does a file for the platform `tag` run on this target?
    pub fn accepts(&self, tag: &str) -> (r: bool)
        ensures
            r == platform_fits(self.family, self.arch@, tag@),
    {
        let family = Self::family_of(tag);
        if family == OsFamily::Pure {
            return true;
        }
        if family == OsFamily::Unknown || family != self.family {
            return false;
        }
        let wheel = Self::arch_of(tag);
        Self::arch_compatible(self.arch.as_str(), wheel.as_str())
    }

    fn arch_compatible(target: &str, wheel: &str) -> (r: bool)
        ensures
            r == arch_fits(target@, wheel@),
    {
        if target.is_empty() || wheel.is_empty() {
            return false;
        }
        if chars::str_same(target, wheel) {
            return true;
        }
        if chars::str_same(wheel, "universal2") {
            chars::str_same(target, "x86_64") || chars::str_same(target, "aarch64")
        } else if chars::str_same(wheel, "universal") || chars::str_same(wheel, "intel") {
            chars::str_same(target, "x86_64") || chars::str_same(target, "x86")
        } else {
            false
        }
    }
}

// ── Interpreters ────────────────────────────────────────────────────────────
/// The number of characters before the first digit.
pub open spec fn before_digits(s: Seq<char>) -> nat
    decreases s.len(),
{
    if s.len() > 0 && !text::is_digit(s[0]) {
        1 + before_digits(s.skip(1))
    } else {
        0
    }
}

/// The minor version in an interpreter tag: `cp310` has 10, `cp39` has 9.
pub open spec fn tag_minor(tag: Seq<char>) -> Option<nat> {
    let digits = tag.skip(before_digits(tag) as int);
    if digits.len() >= 2 {
        text::parse_unsigned(digits.skip(1), u32::MAX as nat)
    } else {
        None
    }
}

/// The implementation in an interpreter tag: `cp310` has `cp`.
pub open spec fn tag_prefix(tag: Seq<char>) -> Seq<char> {
    tag.take(before_digits(tag) as int)
}

/// The tag of the interpreter that files are chosen for.
#[derive(Debug)]
pub struct TargetTag {
    /// The whole tag, such as `cp310`.
    pub py_tag: String,
    /// The implementation, such as `cp`.
    pub impl_prefix: String,
    /// The minor version.
    pub abi_minor: Option<u32>,
}

impl TargetTag {
    /// The parts belong to the tag.
    pub open spec fn well_formed(&self) -> bool {
        &&& self.impl_prefix@ == tag_prefix(self.py_tag@)
        &&& match self.abi_minor {
            Some(n) => tag_minor(self.py_tag@) == Some(n as nat),
            None => tag_minor(self.py_tag@) is None,
        }
    }

    /// Takes an interpreter tag apart.
    pub fn parse(tag: &str) -> (r: TargetTag)
        ensures
            r.well_formed(),
            r.py_tag@ == tag@,
    {
        let t = chars::of(tag);
        let n: usize = count_before_digits(&t);
        TargetTag {
            py_tag: String::from_str(tag),
            impl_prefix: chars::to_string(chars::take(&t, n)),
            abi_minor: parse_minor(&t),
        }
    }
}

fn count_before_digits(s: &[char]) -> (n: usize)
    ensures
        n == before_digits(s@),
        n <= s@.len(),
{
    let mut i: usize = 0;
    assert(s@.skip(0) =~= s@);
    while i < s.len() && !chars::is_digit(s[i])
        invariant
            i <= s.len(),
            before_digits(s@) == i + before_digits(s@.skip(i as int)),
        decreases s.len() - i,
    {
        assert(s@.skip(i as int).skip(1) =~= s@.skip(i + 1));
        i = i + 1;
    }
    i
}

fn parse_minor(tag: &[char]) -> (r: Option<u32>)
    ensures
        match r {
            Some(n) => tag_minor(tag@) == Some(n as nat),
            None => tag_minor(tag@) is None,
        },
{
    let digits = chars::skip(tag, count_before_digits(tag));
    if digits.len() >= 2 {
        chars::parse_u32(chars::skip(digits, 1))
    } else {
        None
    }
}

/// The score of one interpreter tag with one binary interface, for the target
/// interpreter `target`; `pure` says that the file is for every platform. There
/// is none where the file does not run on the target.
pub open spec fn pair_score(
    py: Seq<char>,
    abi: Seq<char>,
    target: Seq<char>,
    pure: bool,
) -> Option<int> {
    if py == target {
        if target.is_prefix_of(abi) {
            Some(100)
        } else if abi == "abi3"@ {
            Some(95)
        } else if abi == "none"@ {
            Some(90)
        } else {
            None
        }
    } else if abi == "abi3"@ && tag_prefix(target).is_prefix_of(py) {
        match (tag_minor(py), tag_minor(target)) {
            (Some(built), Some(runs)) => if built <= runs {
                Some(70 + built as int)
            } else {
                None
            },
            _ => None,
        }
    } else if abi == "none"@ && pure {
        if py == "py3"@ || py == "cp3"@ {
            Some(50)
        } else if py == "py2.py3"@ {
            Some(45)
        } else if "py3"@.is_prefix_of(py) {
            Some(48)
        } else {
            None
        }
    } else {
        None
    }
}

/// The higher of two scores.
pub open spec fn higher(a: Option<int>, b: Option<int>) -> Option<int> {
    match (a, b) {
        (Some(x), Some(y)) => Some(
            if x < y {
                y
            } else {
                x
            },
        ),
        (Some(x), None) => Some(x),
        (None, b) => b,
    }
}

/// The highest score of one interpreter tag with each binary interface.
pub open spec fn row_score(
    py: Seq<char>,
    abis: Seq<Seq<char>>,
    target: Seq<char>,
    pure: bool,
) -> Option<int>
    decreases abis.len(),
{
    if abis.len() == 0 {
        None
    } else {
        higher(
            row_score(py, abis.drop_last(), target, pure),
            pair_score(py, abis.last(), target, pure),
        )
    }
}

/// The highest score of each interpreter tag with each binary interface.
pub open spec fn table_score(
    pys: Seq<Seq<char>>,
    abis: Seq<Seq<char>>,
    target: Seq<char>,
    pure: bool,
) -> Option<int>
    decreases pys.len(),
{
    if pys.len() == 0 {
        None
    } else {
        higher(
            table_score(pys.drop_last(), abis, target, pure),
            row_score(pys.last(), abis, target, pure),
        )
    }
}

/// The fields of a wheel's name: interpreters, binary interfaces and platforms.
pub open spec fn tag_fields(filename: Seq<char>) -> Option<(Seq<char>, Seq<char>, Seq<char>)> {
    match text::strip_suffix(filename, ".whl"@) {
        None => None,
        Some(stem) => {
            let parts = text::split(stem, '-');
            let n = parts.len();
            if n < 3 {
                None
            } else {
                Some((parts[n - 3], parts[n - 2], parts[n - 1]))
            }
        },
    }
}

/// One of the platform tags fits the target.
pub open spec fn any_platform_fits(
    tags: Seq<Seq<char>>,
    target: OsFamily,
    target_arch: Seq<char>,
) -> bool {
    exists|i: int| 0 <= i < tags.len() && platform_fits(target, target_arch, #[trigger] tags[i])
}

/// The score of a wheel for the interpreter `target` on a platform, if it runs
/// there.
pub open spec fn wheel_score(
    filename: Seq<char>,
    target: Seq<char>,
    platform_tag: Seq<char>,
    arch_suffix: Seq<char>,
) -> Option<int> {
    match tag_fields(filename) {
        None => None,
        Some((py, abi, plat)) => {
            let platforms = text::split(plat, '.');
            if any_platform_fits(
                platforms,
                family(platform_tag),
                target_arch(platform_tag, arch_suffix),
            ) {
                table_score(
                    text::split(py, '.'),
                    text::split(abi, '.'),
                    target,
                    platforms.contains("any"@),
                )
            } else {
                None
            }
        },
    }
}

/// The score of one interpreter tag with one binary interface, for the target
/// interpreter; none where the build does not run there.
pub fn score_py_abi(py: &str, abi: &str, target: &TargetTag, is_pure: bool) -> (r: Option<i64>)
    requires
        target.well_formed(),
    ensures
        opt_int(r) == pair_score(py@, abi@, target.py_tag@, is_pure),
{
    score_pair(&chars::of(py), &chars::of(abi), target, is_pure)
}

fn score_pair(py: &[char], abi: &[char], target: &TargetTag, is_pure: bool) -> (r: Option<i64>)
    requires
        target.well_formed(),
    ensures
        opt_int(r) == pair_score(py@, abi@, target.py_tag@, is_pure),
{
    if chars::is(py, target.py_tag.as_str()) {
        if chars::starts_with(abi, target.py_tag.as_str()) {
            Some(100)
        } else if chars::is(abi, "abi3") {
            Some(95)
        } else if chars::is(abi, "none") {
            Some(90)
        } else {
            None
        }
    } else if chars::is(abi, "abi3") && chars::starts_with(py, target.impl_prefix.as_str()) {
        match (parse_minor(py), target.abi_minor) {
            (Some(built), Some(runs)) => {
                if built <= runs {
                    Some(70 + built as i64)
                } else {
                    None
                }
            },
            _ => None,
        }
    } else if chars::is(abi, "none") && is_pure {
        if chars::is(py, "py3") || chars::is(py, "cp3") {
            Some(50)
        } else if chars::is(py, "py2.py3") {
            Some(45)
        } else if chars::starts_with(py, "py3") {
            Some(48)
        } else {
            None
        }
    } else {
        None
    }
}

/// A score as an integer.
pub open spec fn opt_int(s: Option<i64>) -> Option<int> {
    match s {
        Some(n) => Some(n as int),
        None => None,
    }
}

fn higher_score(a: Option<i64>, b: Option<i64>) -> (r: Option<i64>)
    ensures
        opt_int(r) == higher(opt_int(a), opt_int(b)),
{
    match (a, b) {
        (Some(x), Some(y)) => if x < y {
            Some(y)
        } else {
            Some(x)
        },
        (Some(x), None) => Some(x),
        (None, b) => b,
    }
}

fn score_row(py: &[char], abis: &Vec<&[char]>, target: &TargetTag, is_pure: bool) -> (r: Option<
    i64,
>)
    requires
        target.well_formed(),
    ensures
        opt_int(r) == row_score(py@, chars::slice_views(abis@), target.py_tag@, is_pure),
{
    let ghost texts = chars::slice_views(abis@);
    let mut best: Option<i64> = None;
    let mut i: usize = 0;
    while i < abis.len()
        invariant
            i <= abis.len(),
            target.well_formed(),
            texts == chars::slice_views(abis@),
            opt_int(best) == row_score(py@, texts.take(i as int), target.py_tag@, is_pure),
        decreases abis.len() - i,
    {
        proof {
            assert(texts.take(i + 1).drop_last() =~= texts.take(i as int));
            assert(texts.take(i + 1).last() == abis@[i as int]@);
        }
        best = higher_score(best, score_pair(py, abis[i], target, is_pure));
        i = i + 1;
    }
    assert(texts.take(i as int) =~= texts);
    best
}

/// The score of a wheel for the target interpreter on a platform; none where the
/// wheel does not run there. A higher score is more specific.
pub fn score_wheel(filename: &str, target: &TargetTag, platform_tag: &str, arch_suffix: &str) -> (r:
    Option<i64>)
    requires
        target.well_formed(),
    ensures
        opt_int(r) == wheel_score(filename@, target.py_tag@, platform_tag@, arch_suffix@),
{
    let whole = chars::of(filename);
    let stem = match chars::strip_suffix(&whole, ".whl") {
        Some(stem) => stem,
        None => {
            return None;
        },
    };
    let parts = chars::split(stem, '-');
    let ghost fields = chars::slice_views(parts@);
    let n: usize = parts.len();
    if n < 3 {
        return None;
    }
    assert(fields[n - 3] == parts@[n - 3]@);
    assert(fields[n - 2] == parts@[n - 2]@);
    assert(fields[n - 1] == parts@[n - 1]@);
    let platform = TargetPlatform::derive(platform_tag, arch_suffix);
    let platforms = chars::split(parts[n - 1], '.');
    let ghost tags = chars::slice_views(platforms@);
    let mut fits = false;
    let mut is_pure = false;
    let mut i: usize = 0;
    while i < platforms.len()
        invariant
            i <= platforms.len(),
            tags == chars::slice_views(platforms@),
            fits == exists|k: int|
                0 <= k < i && platform_fits(platform.family, platform.arch@, #[trigger] tags[k]),
            is_pure == exists|k: int| 0 <= k < i && #[trigger] tags[k] == "any"@,
        decreases platforms.len() - i,
    {
        assert(tags[i as int] == platforms@[i as int]@);
        let tag = chars::to_string(platforms[i]);
        if platform.accepts(tag.as_str()) {
            fits = true;
        }
        if chars::is(platforms[i], "any") {
            is_pure = true;
        }
        i = i + 1;
    }
    assert(is_pure == tags.contains("any"@));
    if !fits {
        return None;
    }
    let pys = chars::split(parts[n - 3], '.');
    let abis = chars::split(parts[n - 2], '.');
    let ghost py_texts = chars::slice_views(pys@);
    let ghost abi_texts = chars::slice_views(abis@);
    let mut best: Option<i64> = None;
    let mut i: usize = 0;
    while i < pys.len()
        invariant
            i <= pys.len(),
            target.well_formed(),
            py_texts == chars::slice_views(pys@),
            abi_texts == chars::slice_views(abis@),
            opt_int(best) == table_score(
                py_texts.take(i as int),
                abi_texts,
                target.py_tag@,
                is_pure,
            ),
        decreases pys.len() - i,
    {
        proof {
            assert(py_texts.take(i + 1).drop_last() =~= py_texts.take(i as int));
            assert(py_texts.take(i + 1).last() == pys@[i as int]@);
        }
        best = higher_score(best, score_row(pys[i], &abis, target, is_pure));
        i = i + 1;
    }
    assert(py_texts.take(i as int) =~= py_texts);
    best
}

// ── Files ───────────────────────────────────────────────────────────────────
/// The digests of a file.
#[derive(Debug)]
pub struct PypiDigests {
    pub sha256: String,
}

/// A file of a release.
#[derive(Debug)]
pub struct PypiFileEntry {
    pub filename: String,
    pub url: String,
    pub digests: PypiDigests,
    pub packagetype: String,
    pub requires_python: Option<String>,
}

/// The score of a file that is a wheel and runs on the target.
pub open spec fn file_score(
    f: PypiFileEntry,
    target: Seq<char>,
    platform_tag: Seq<char>,
    arch_suffix: Seq<char>,
) -> Option<int> {
    if f.packagetype@ == "bdist_wheel"@ {
        wheel_score(f.filename@, target, platform_tag, arch_suffix)
    } else {
        None
    }
}

/// The file at `i` is the wheel to take: it has the highest score, and of those
/// with that score the first name, and of those of that name the first place.
pub open spec fn is_best_wheel(
    files: Seq<PypiFileEntry>,
    target: Seq<char>,
    platform_tag: Seq<char>,
    arch_suffix: Seq<char>,
    i: int,
) -> bool {
    &&& 0 <= i < files.len()
    &&& file_score(files[i], target, platform_tag, arch_suffix) is Some
    &&& forall|j: int|
        0 <= j < files.len() && j != i ==> {
            let mine = file_score(files[i], target, platform_tag, arch_suffix)->0;
            match file_score(#[trigger] files[j], target, platform_tag, arch_suffix) {
                None => true,
                Some(s) => {
                    ||| s < mine
                    ||| s == mine && text::less(files[i].filename@, files[j].filename@)
                    ||| s == mine && files[i].filename@ == files[j].filename@ && i < j
                },
            }
        }
}

/// No file is a wheel that runs on the target.
pub open spec fn no_wheel_fits(
    files: Seq<PypiFileEntry>,
    target: Seq<char>,
    platform_tag: Seq<char>,
    arch_suffix: Seq<char>,
) -> bool {
    forall|j: int|
        0 <= j < files.len() ==> file_score(
            #[trigger] files[j],
            target,
            platform_tag,
            arch_suffix,
        ) is None
}

/// The file at `i` is the first source distribution.
pub open spec fn is_first_sdist(files: Seq<PypiFileEntry>, i: int) -> bool {
    &&& 0 <= i < files.len()
    &&& files[i].packagetype@ == "sdist"@
    &&& forall|j: int| 0 <= j < i ==> (#[trigger] files[j]).packagetype@ != "sdist"@
}

/// The file at `i` is the one to install: the best wheel, or where no wheel runs
/// on the target the first source distribution.
pub open spec fn is_chosen(
    files: Seq<PypiFileEntry>,
    target: Seq<char>,
    platform_tag: Seq<char>,
    arch_suffix: Seq<char>,
    i: int,
) -> bool {
    ||| is_best_wheel(files, target, platform_tag, arch_suffix, i)
    ||| no_wheel_fits(files, target, platform_tag, arch_suffix) && is_first_sdist(files, i)
}

/// The wheel at `i` goes before the wheel at `j`.
spec fn beats(
    files: Seq<PypiFileEntry>,
    target: Seq<char>,
    platform_tag: Seq<char>,
    arch_suffix: Seq<char>,
    i: int,
    j: int,
) -> bool {
    let mine = file_score(files[i], target, platform_tag, arch_suffix)->0;
    match file_score(files[j], target, platform_tag, arch_suffix) {
        None => true,
        Some(s) => {
            ||| s < mine
            ||| s == mine && text::less(files[i].filename@, files[j].filename@)
            ||| s == mine && files[i].filename@ == files[j].filename@ && i < j
        },
    }
}

proof fn beats_transitive(
    files: Seq<PypiFileEntry>,
    target: Seq<char>,
    platform_tag: Seq<char>,
    arch_suffix: Seq<char>,
    i: int,
    j: int,
    k: int,
)
    requires
        beats(files, target, platform_tag, arch_suffix, i, j),
        beats(files, target, platform_tag, arch_suffix, j, k),
        file_score(files[j], target, platform_tag, arch_suffix) is Some,
    ensures
        beats(files, target, platform_tag, arch_suffix, i, k),
{
    let (a, b, c) = (files[i].filename@, files[j].filename@, files[k].filename@);
    if text::less(a, b) && text::less(b, c) {
        text::less_transitive(a, b, c);
    }
}

/// The file to install for the target interpreter on a platform: the wheel with
/// the highest score, the first by name of those with the same score, or without
/// a wheel that runs there the first source distribution.
pub fn select_best_file_for<'a>(
    files: &'a [PypiFileEntry],
    target_py_tag: &str,
    platform_tag: &str,
    arch_suffix: &str,
) -> (r: Option<&'a PypiFileEntry>)
    ensures
        match r {
            Some(f) => exists|i: int| #[trigger]
                is_chosen(files@, target_py_tag@, platform_tag@, arch_suffix@, i) && *f
                    == files@[i],
            None => forall|i: int|
                !#[trigger] is_chosen(files@, target_py_tag@, platform_tag@, arch_suffix@, i),
        },
{
    let target = TargetTag::parse(target_py_tag);
    let mut best: Option<(i64, usize)> = None;
    let mut i: usize = 0;
    while i < files.len()
        invariant
            i <= files.len(),
            target.well_formed(),
            target.py_tag@ == target_py_tag@,
            match best {
                Some((s, b)) => {
                    &&& b < i
                    &&& file_score(files@[b as int], target_py_tag@, platform_tag@, arch_suffix@)
                        == Some(s as int)
                    &&& forall|j: int|
                        0 <= j < i && j != b ==> #[trigger] beats(
                            files@,
                            target_py_tag@,
                            platform_tag@,
                            arch_suffix@,
                            b as int,
                            j,
                        )
                },
                None => forall|j: int|
                    0 <= j < i ==> file_score(
                        #[trigger] files@[j],
                        target_py_tag@,
                        platform_tag@,
                        arch_suffix@,
                    ) is None,
            },
        decreases files.len() - i,
    {
        let f = &files[i];
        if chars::str_same(f.packagetype.as_str(), "bdist_wheel") {
            if let Some(score) = score_wheel(
                f.filename.as_str(),
                &target,
                platform_tag,
                arch_suffix,
            ) {
                let better = match best {
                    None => true,
                    Some((s, b)) => {
                        let mine = chars::of(f.filename.as_str());
                        let other = chars::of(files[b].filename.as_str());
                        proof {
                            text::less_total(f.filename@, files@[b as int].filename@);
                        }
                        score > s || (score == s && chars::less(&mine, &other))
                    },
                };
                if better {
                    proof {
                        if let Some((s, b)) = best {
                            assert(beats(
                                files@,
                                target_py_tag@,
                                platform_tag@,
                                arch_suffix@,
                                i as int,
                                b as int,
                            ));
                            assert forall|j: int| 0 <= j < i implies #[trigger] beats(
                                files@,
                                target_py_tag@,
                                platform_tag@,
                                arch_suffix@,
                                i as int,
                                j,
                            ) by {
                                if j != b {
                                    beats_transitive(
                                        files@,
                                        target_py_tag@,
                                        platform_tag@,
                                        arch_suffix@,
                                        i as int,
                                        b as int,
                                        j,
                                    );
                                }
                            }
                        }
                    }
                    best = Some((score, i));
                }
            }
        }
        i = i + 1;
    }
    if let Some((_, b)) = best {
        proof {
            assert forall|j: int| 0 <= j < files@.len() && j != b implies beats(
                files@,
                target_py_tag@,
                platform_tag@,
                arch_suffix@,
                b as int,
                j,
            ) by {}
            assert forall|j: int| 0 <= j < files@.len() && j != b implies ({
                let mine = file_score(
                    files@[b as int],
                    target_py_tag@,
                    platform_tag@,
                    arch_suffix@,
                )->0;
                match file_score(
                    #[trigger] files@[j],
                    target_py_tag@,
                    platform_tag@,
                    arch_suffix@,
                ) {
                    None => true,
                    Some(s) => {
                        ||| s < mine
                        ||| s == mine && text::less(
                            files@[b as int].filename@,
                            files@[j].filename@,
                        )
                        ||| s == mine && files@[b as int].filename@ == files@[j].filename@ && b < j
                    },
                }
            }) by {
                assert(beats(
                    files@,
                    target_py_tag@,
                    platform_tag@,
                    arch_suffix@,
                    b as int,
                    j,
                ));
            }
            assert(is_best_wheel(
                files@,
                target_py_tag@,
                platform_tag@,
                arch_suffix@,
                b as int,
            ));
            assert(is_chosen(files@, target_py_tag@, platform_tag@, arch_suffix@, b as int));
        }
        return Some(&files[b]);
    }
    assert(no_wheel_fits(files@, target_py_tag@, platform_tag@, arch_suffix@));
    let mut i: usize = 0;
    while i < files.len()
        invariant
            i <= files.len(),
            no_wheel_fits(files@, target_py_tag@, platform_tag@, arch_suffix@),
            forall|j: int| 0 <= j < i ==> (#[trigger] files@[j]).packagetype@ != "sdist"@,
        decreases files.len() - i,
    {
        if chars::str_same(files[i].packagetype.as_str(), "sdist") {
            assert(is_chosen(files@, target_py_tag@, platform_tag@, arch_suffix@, i as int));
            return Some(&files[i]);
        }
        i = i + 1;
    }
    None
}

/// At most one file is chosen.
pub proof fn choice_is_unique(
    files: Seq<PypiFileEntry>,
    target: Seq<char>,
    platform_tag: Seq<char>,
    arch_suffix: Seq<char>,
    i: int,
    j: int,
)
    requires
        is_chosen(files, target, platform_tag, arch_suffix, i),
        is_chosen(files, target, platform_tag, arch_suffix, j),
    ensures
        i == j,
{
    if is_best_wheel(files, target, platform_tag, arch_suffix, i) && i != j {
        text::less_total(files[i].filename@, files[j].filename@);
    }
}

// ── Laws ────────────────────────────────────────────────────────────────────
/// A wheel none of whose platforms is that of the target has no score: one for
/// another operating system or another architecture is never chosen.
pub proof fn foreign_platform_has_no_score(
    filename: Seq<char>,
    target: Seq<char>,
    platform_tag: Seq<char>,
    arch_suffix: Seq<char>,
)
    requires
        tag_fields(filename) matches Some((py, abi, plat)) && forall|i: int|
            0 <= i < text::split(plat, '.').len() ==> {
                let tag = #[trigger] text::split(plat, '.')[i];
                tag != "any"@ && (family(tag) != family(platform_tag) || !arch_fits(
                    target_arch(platform_tag, arch_suffix),
                    arch(tag),
                ))
            },
    ensures
        wheel_score(filename, target, platform_tag, arch_suffix) is None,
{
}

/// A combination for another interpreter has no score unless it uses the stable
/// interface, or the file is for every platform.
pub proof fn foreign_interpreter_has_no_score(
    py: Seq<char>,
    abi: Seq<char>,
    target: Seq<char>,
    pure: bool,
)
    requires
        py != target,
        abi != "abi3"@,
        !pure || abi != "none"@,
    ensures
        pair_score(py, abi, target, pure) is None,
{
}

/// A wheel all of whose combinations are for other interpreters has no score.
pub proof fn rejected_pairs_reject_wheel(
    pys: Seq<Seq<char>>,
    abis: Seq<Seq<char>>,
    target: Seq<char>,
    pure: bool,
)
    requires
        forall|i: int, j: int|
            #![trigger pys[i], abis[j]]
            0 <= i < pys.len() && 0 <= j < abis.len() ==> pair_score(
                pys[i],
                abis[j],
                target,
                pure,
            ) is None,
    ensures
        table_score(pys, abis, target, pure) is None,
    decreases pys.len(),
{
    if pys.len() > 0 {
        rejected_pairs_reject_wheel(pys.drop_last(), abis, target, pure);
        rejected_pairs_reject_row(pys.last(), abis, target, pure);
    }
}

proof fn rejected_pairs_reject_row(
    py: Seq<char>,
    abis: Seq<Seq<char>>,
    target: Seq<char>,
    pure: bool,
)
    requires
        forall|j: int|
            0 <= j < abis.len() ==> pair_score(py, #[trigger] abis[j], target, pure) is None,
    ensures
        row_score(py, abis, target, pure) is None,
    decreases abis.len(),
{
    if abis.len() > 0 {
        rejected_pairs_reject_row(py, abis.drop_last(), target, pure);
    }
}

/// A wheel that uses the stable interface of a newer interpreter than the target
/// has no score.
pub proof fn newer_stable_interface_has_no_score(py: Seq<char>, target: Seq<char>, pure: bool)
    requires
        py != target,
        tag_minor(py) matches Some(built) && (tag_minor(target) matches Some(runs) && runs < built),
        tag_prefix(target).is_prefix_of(py),
    ensures
        pair_score(py, "abi3"@, target, pure) is None,
{
}

/// The most specific wins: a build for the interpreter's own interface scores
/// above one for its own stable interface, that above one for the stable
/// interface of an older interpreter, and that above one for every platform.
///
/// The stable interface of an older interpreter reaches the score of the
/// target's own at minor version 25, and that of its own interface at 30; from
/// there on the order is left out.
pub proof fn specific_scores_higher(
    abi: Seq<char>,
    py: Seq<char>,
    pure_py: Seq<char>,
    target: Seq<char>,
    pure: bool,
)
    requires
        target.is_prefix_of(abi),
        !target.is_prefix_of("abi3"@),
        py != target,
        pair_score(py, "abi3"@, target, pure) is Some,
        pure_py != target,
        pair_score(pure_py, "none"@, target, true) is Some,
    ensures
        ({
            let exact = pair_score(target, abi, target, pure)->0;
            let own_stable = pair_score(target, "abi3"@, target, pure)->0;
            let older_stable = pair_score(py, "abi3"@, target, pure)->0;
            let plain = pair_score(pure_py, "none"@, target, true)->0;
            &&& pair_score(target, abi, target, pure) is Some
            &&& pair_score(target, "abi3"@, target, pure) is Some
            &&& exact > own_stable
            &&& tag_minor(py)->0 < 25 ==> own_stable > older_stable
            &&& tag_minor(py)->0 < 30 ==> exact > older_stable
            &&& older_stable > plain
        }),
{
    reveal_strlit("none");
    reveal_strlit("abi3");
    assert("none"@[0] == 'n' && "abi3"@[0] == 'a');
}

/// Among the builds for the stable interfaces of older interpreters, the one for
/// the newest scores highest.
pub proof fn newer_of_older_scores_higher(
    a: Seq<char>,
    b: Seq<char>,
    target: Seq<char>,
    pure: bool,
)
    requires
        a != target,
        b != target,
        pair_score(a, "abi3"@, target, pure) is Some,
        pair_score(b, "abi3"@, target, pure) is Some,
        tag_minor(a)->0 < tag_minor(b)->0,
    ensures
        pair_score(a, "abi3"@, target, pure)->0 < pair_score(b, "abi3"@, target, pure)->0,
{
    reveal_strlit("none");
    reveal_strlit("abi3");
    assert("none"@[0] == 'n' && "abi3"@[0] == 'a');
}

/// The tag of an interpreter of CPython 3, by its minor version.
pub open spec fn cpython_tag(minor: nat) -> Seq<char> {
    "cp3"@ + text::decimal(minor)
}

/// The parts of such a tag.
pub proof fn cpython_tag_parts(minor: nat)
    ensures
        ({
            let tag = cpython_tag(minor);
            &&& tag.len() > 3
            &&& tag[0] == 'c' && tag[1] == 'p'
            &&& tag_prefix(tag) == seq!['c', 'p']
            &&& tag_minor(tag) == if minor <= u32::MAX {
                Some(minor)
            } else {
                None
            }
        }),
{
    reveal_strlit("cp3");
    text::decimal_is_read(minor);
    let d = text::decimal(minor);
    let tag = cpython_tag(minor);
    assert(tag.skip(1).skip(1) =~= seq!['3'] + d);
    assert(before_digits(seq!['3'] + d) == 0);
    assert(before_digits(tag.skip(1)) == 1);
    assert(before_digits(tag) == 2);
    assert(tag.take(2) =~= seq!['c', 'p']);
    assert(tag.skip(2).skip(1) =~= d);
    assert(text::is_digit(d[0]));
}

/// Tags of two minor versions are two.
pub proof fn cpython_tags_differ(a: nat, b: nat)
    requires
        cpython_tag(a) == cpython_tag(b),
    ensures
        a == b,
{
    text::decimal_is_read(a);
    text::decimal_is_read(b);
    assert(cpython_tag(a).skip("cp3"@.len() as int) =~= text::decimal(a));
    assert(cpython_tag(b).skip("cp3"@.len() as int) =~= text::decimal(b));
}

/// The order of the builds for an interpreter of CPython 3: its own interface, its own
/// stable interface, the stable interface of an older interpreter, every platform.
/// Among older interpreters the newer comes first. A build for the stable interface of
/// a newer interpreter, or for the interface of another one, does not run.
///
/// From minor version 26 on the stable interface of an older interpreter reaches the
/// score of the interpreter's own; those are left out.
pub proof fn interpreter_builds_are_ordered(runs: nat, built: nat, later: nat)
    requires
        runs <= 25,
    ensures
        ({
            let target = cpython_tag(runs);
            let own = pair_score(target, target, target, true);
            let own_stable = pair_score(target, "abi3"@, target, true);
            let stable = |n: nat| pair_score(cpython_tag(n), "abi3"@, target, true);
            let plain = pair_score("py3"@, "none"@, target, true);
            &&& own is Some && own_stable is Some && plain is Some
            &&& own->0 > own_stable->0 > plain->0
            &&& built < runs ==> stable(built) is Some && own_stable->0 > stable(built)->0
                > plain->0
            &&& built < later < runs ==> stable(built)->0 < stable(later)->0
            &&& built > runs ==> stable(built) is None
            &&& built != runs ==> pair_score(
                cpython_tag(built),
                cpython_tag(built),
                target,
                true,
            ) is None
        }),
{
    let target = cpython_tag(runs);
    cpython_tag_parts(runs);
    cpython_tag_parts(built);
    cpython_tag_parts(later);
    if cpython_tag(built) == target {
        cpython_tags_differ(built, runs);
    }
    if cpython_tag(later) == target {
        cpython_tags_differ(later, runs);
    }
    reveal_strlit("abi3");
    reveal_strlit("none");
    reveal_strlit("py3");
    assert("abi3"@[0] == 'a' && "none"@[0] == 'n' && "py3"@[0] == 'p');
    assert(target.is_prefix_of(target));
    assert(seq!['c', 'p'].is_prefix_of(cpython_tag(built))) by {
        assert(seq!['c', 'p'] =~= cpython_tag(built).subrange(0, 2));
    }
    assert(seq!['c', 'p'].is_prefix_of(cpython_tag(later))) by {
        assert(seq!['c', 'p'] =~= cpython_tag(later).subrange(0, 2));
    }
}

} // verus!
