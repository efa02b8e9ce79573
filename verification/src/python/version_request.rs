//! Which Python interpreter a project asks for.
//!
//! The first line of `.python-version` that says something decides. Without it,
//! `requires-python` of `pyproject.toml` decides where it leaves exactly one
//! minor version; otherwise the latest interpreter is taken.
use vstd::prelude::*;

use crate::chars;
use crate::doc;
use crate::doc::Doc;
use crate::doc::DocModel;
use crate::paths;
use crate::text;

verus! {

/// The numbers of a version of two or three parts, such as `3.11` or `3.11.9`.
pub open spec fn parts_of(s: Seq<char>) -> Option<Seq<u32>> {
    let parts = text::split(s, '.');
    if 2 <= parts.len() <= 3 && forall|i: int|
        0 <= i < parts.len() ==> text::bounded_value(#[trigger] parts[i], u32::MAX as nat) is Some {
        Some(
            Seq::new(
                parts.len(),
                |i: int| text::bounded_value(parts[i], u32::MAX as nat)->0 as u32,
            ),
        )
    } else {
        None
    }
}

/// The place of a version of three parts in the order of versions.
pub open spec fn code(major: int, minor: int, patch: int) -> int {
    major * 0x1_0000_0000_0000_0000 + minor * 0x1_0000_0000 + patch
}

/// What lies above every version that is looked at.
pub open spec fn top() -> int {
    code(u32::MAX as int, u32::MAX as int, u32::MAX as int)
}

/// The minor version that a version belongs to, as one number.
pub open spec fn minor_of(x: int) -> int {
    x / 0x1_0000_0000
}

/// What a clause says: the versions from `lo` to before `hi` are the ones it
/// admits, or the ones it excludes.
pub enum Range {
    Within { lo: int, hi: int },
    Outside { lo: int, hi: int },
}

/// The operators, in the order in which they are looked for.
pub open spec fn operator(clause: Seq<char>) -> Option<Seq<char>> {
    if "~="@.is_prefix_of(clause) {
        Some("~="@)
    } else if "=="@.is_prefix_of(clause) {
        Some("=="@)
    } else if "!="@.is_prefix_of(clause) {
        Some("!="@)
    } else if ">="@.is_prefix_of(clause) {
        Some(">="@)
    } else if "<="@.is_prefix_of(clause) {
        Some("<="@)
    } else if ">"@.is_prefix_of(clause) {
        Some(">"@)
    } else if "<"@.is_prefix_of(clause) {
        Some("<"@)
    } else {
        None
    }
}

/// The patch number of a version, zero where it has none.
pub open spec fn patch_of(parts: Seq<u32>) -> u32 {
    if parts.len() == 3 {
        parts[2]
    } else {
        0
    }
}

/// The place of a version of two or three parts.
pub open spec fn place(parts: Seq<u32>) -> int {
    code(parts[0] as int, parts[1] as int, patch_of(parts) as int)
}

/// The place of the next patch version, if its number fits.
pub open spec fn next_patch(parts: Seq<u32>) -> Option<int> {
    if patch_of(parts) < u32::MAX {
        Some(code(parts[0] as int, parts[1] as int, patch_of(parts) + 1))
    } else {
        None
    }
}

/// The place of the first version of the next minor version, if its number fits.
pub open spec fn next_minor(parts: Seq<u32>) -> Option<int> {
    if parts[1] < u32::MAX {
        Some(code(parts[0] as int, parts[1] + 1, 0))
    } else {
        None
    }
}

/// The place of the first version of the next major version, if its number fits.
pub open spec fn next_major(parts: Seq<u32>) -> Option<int> {
    if parts[0] < u32::MAX {
        Some(code(parts[0] + 1, 0, 0))
    } else {
        None
    }
}

/// Where the versions that a clause names end.
pub open spec fn named_end(op: Seq<char>, parts: Seq<u32>, wildcard: bool) -> Option<int> {
    if op == "~="@ {
        if parts.len() == 3 {
            next_minor(parts)
        } else {
            next_major(parts)
        }
    } else if wildcard {
        next_minor(parts)
    } else {
        next_patch(parts)
    }
}

/// What an operator says of a version, with `.*` behind it or without.
pub open spec fn range_of(op: Seq<char>, parts: Seq<u32>, wildcard: bool) -> Option<Range> {
    if wildcard && (!(op == "=="@ || op == "!="@) || parts.len() != 2) {
        None
    } else if op == ">="@ {
        Some(Range::Within { lo: place(parts), hi: top() })
    } else if op == "<"@ {
        Some(Range::Within { lo: 0, hi: place(parts) })
    } else {
        match named_end(op, parts, wildcard) {
            None => None,
            Some(end) => if op == ">"@ {
                Some(Range::Within { lo: end, hi: top() })
            } else if op == "<="@ {
                Some(Range::Within { lo: 0, hi: end })
            } else if op == "!="@ {
                Some(Range::Outside { lo: place(parts), hi: end })
            } else {
                Some(Range::Within { lo: place(parts), hi: end })
            },
        }
    }
}

/// What a clause such as `>=3.11` or `!=3.11.*` says, if it is one of those that
/// are understood.
pub open spec fn clause_range(part: Seq<char>) -> Option<Range> {
    let clause = text::trim(part);
    match operator(clause) {
        None => None,
        Some(op) => {
            let raw = text::trim(clause.skip(op.len() as int));
            let wildcard = ".*"@.is_suffix_of(raw);
            let base = if wildcard {
                raw.take(raw.len() - ".*"@.len())
            } else {
                raw
            };
            match parts_of(base) {
                None => None,
                Some(parts) => range_of(op, parts, wildcard),
            }
        },
    }
}

/// The version at `x` is admitted by what a clause says.
pub open spec fn in_range(r: Range, x: int) -> bool {
    match r {
        Range::Within { lo, hi } => lo <= x < hi,
        Range::Outside { lo, hi } => !(lo <= x < hi),
    }
}

/// Every part is a clause that is understood.
pub open spec fn all_understood(parts: Seq<Seq<char>>) -> bool {
    forall|i: int| 0 <= i < parts.len() ==> clause_range(#[trigger] parts[i]) is Some
}

/// The version at `x` is admitted by every clause.
pub open spec fn admitted(parts: Seq<Seq<char>>, x: int) -> bool {
    &&& 0 <= x < top()
    &&& forall|i: int| 0 <= i < parts.len() ==> in_range(clause_range(#[trigger] parts[i])->0, x)
}

/// The clauses admit versions, and all of them belong to the minor version `m`.
pub open spec fn only_minor(parts: Seq<Seq<char>>, m: int) -> bool {
    &&& exists|x: int| admitted(parts, x)
    &&& forall|x: int| #[trigger] admitted(parts, x) ==> minor_of(x) == m
}

/// A minor version as text, such as `3.11`.
pub open spec fn minor_text(m: int) -> Seq<char> {
    text::decimal((m / 0x1_0000_0000) as nat) + "."@ + text::decimal((m % 0x1_0000_0000) as nat)
}

/// The minor version that a specifier leaves: all its clauses are understood, and
/// the versions that it admits are of that one minor version, which is not the
/// last that there can be.
pub open spec fn leaves_minor(spec: Seq<char>, m: int) -> bool {
    let parts = text::split(spec, ',');
    all_understood(parts) && only_minor(parts, m) && m % 0x1_0000_0000 < u32::MAX
}

/// A specifier leaves at most one minor version.
pub proof fn left_minor_is_unique(spec: Seq<char>, m: int, n: int)
    requires
        leaves_minor(spec, m),
        leaves_minor(spec, n),
    ensures
        m == n,
{
    let x = choose|x: int| admitted(text::split(spec, ','), x);
    assert(admitted(text::split(spec, ','), x));
}

/// The minor version that a specifier leaves, as text.
pub open spec fn minor_left(spec: Seq<char>) -> Option<Seq<char>> {
    if exists|m: int| leaves_minor(spec, m) {
        Some(minor_text(choose|m: int| leaves_minor(spec, m)))
    } else {
        None
    }
}

/// The numbers of a version of two or three parts.
pub fn version_parts(value: &str) -> (r: Option<Vec<u32>>)
    ensures
        match r {
            Some(v) => parts_of(value@) == Some(v@),
            None => parts_of(value@) is None,
        },
{
    let value = chars::of(value);
    parse_parts(&value)
}

fn parse_parts(value: &[char]) -> (r: Option<Vec<u32>>)
    ensures
        match r {
            Some(v) => parts_of(value@) == Some(v@),
            None => parts_of(value@) is None,
        },
{
    let parts = chars::split(value, '.');
    let ghost texts = chars::slice_views(parts@);
    if parts.len() < 2 || parts.len() > 3 {
        return None;
    }
    let mut out: Vec<u32> = Vec::new();
    let mut i: usize = 0;
    while i < parts.len()
        invariant
            i <= parts.len(),
            out@.len() == i,
            texts == chars::slice_views(parts@),
            texts == text::split(value@, '.'),
            forall|k: int|
                0 <= k < i ==> text::bounded_value(#[trigger] texts[k], u32::MAX as nat) == Some(
                    out@[k] as nat,
                ),
        decreases parts.len() - i,
    {
        assert(texts[i as int] == parts@[i as int]@);
        match chars::bounded_value(parts[i], u32::MAX as u64) {
            Some(n) => out.push(n as u32),
            None => {
                return None;
            },
        }
        i = i + 1;
    }
    assert(parts_of(value@)->0 =~= out@);
    Some(out)
}

/// The operator at the start of a clause.
fn find_operator(clause: &[char]) -> (r: Option<&'static str>)
    ensures
        match r {
            Some(op) => operator(clause@) == Some(op@) && op@.len() <= clause@.len(),
            None => operator(clause@) is None,
        },
{
    if chars::starts_with(clause, "~=") {
        Some("~=")
    } else if chars::starts_with(clause, "==") {
        Some("==")
    } else if chars::starts_with(clause, "!=") {
        Some("!=")
    } else if chars::starts_with(clause, ">=") {
        Some(">=")
    } else if chars::starts_with(clause, "<=") {
        Some("<=")
    } else if chars::starts_with(clause, ">") {
        Some(">")
    } else if chars::starts_with(clause, "<") {
        Some("<")
    } else {
        None
    }
}

/// A range of places, admitted or excluded.
struct Bounds {
    lo: u128,
    hi: u128,
    excluded: bool,
}

impl Bounds {
    spec fn range(&self) -> Range {
        if self.excluded {
            Range::Outside { lo: self.lo as int, hi: self.hi as int }
        } else {
            Range::Within { lo: self.lo as int, hi: self.hi as int }
        }
    }
}

fn encode(major: u32, minor: u32, patch: u32) -> (r: u128)
    ensures
        r == code(major as int, minor as int, patch as int),
        r <= top(),
{
    major as u128 * 0x1_0000_0000_0000_0000 + minor as u128 * 0x1_0000_0000 + patch as u128
}

fn end_of(op: &str, parts: &Vec<u32>, wildcard: bool) -> (r: Option<u128>)
    requires
        2 <= parts@.len() <= 3,
    ensures
        match r {
            Some(n) => named_end(op@, parts@, wildcard) == Some(n as int) && n <= top(),
            None => named_end(op@, parts@, wildcard) is None,
        },
{
    let patch: u32 = if parts.len() == 3 {
        parts[2]
    } else {
        0
    };
    if chars::str_same(op, "~=") {
        if parts.len() == 3 {
            if parts[1] < u32::MAX {
                Some(encode(parts[0], parts[1] + 1, 0))
            } else {
                None
            }
        } else if parts[0] < u32::MAX {
            Some(encode(parts[0] + 1, 0, 0))
        } else {
            None
        }
    } else if wildcard {
        if parts[1] < u32::MAX {
            Some(encode(parts[0], parts[1] + 1, 0))
        } else {
            None
        }
    } else if patch < u32::MAX {
        Some(encode(parts[0], parts[1], patch + 1))
    } else {
        None
    }
}

/// What an operator says of a version.
fn bounds_of(op: &str, parts: &Vec<u32>, wildcard: bool) -> (r: Option<Bounds>)
    requires
        2 <= parts@.len() <= 3,
    ensures
        match r {
            Some(b) => range_of(op@, parts@, wildcard) == Some(b.range()) && b.lo <= top() && b.hi
                <= top(),
            None => range_of(op@, parts@, wildcard) is None,
        },
{
    if wildcard && (!(chars::str_same(op, "==") || chars::str_same(op, "!=")) || parts.len() != 2) {
        return None;
    }
    let patch: u32 = if parts.len() == 3 {
        parts[2]
    } else {
        0
    };
    let at: u128 = encode(parts[0], parts[1], patch);
    let last: u128 = encode(u32::MAX, u32::MAX, u32::MAX);
    if chars::str_same(op, ">=") {
        return Some(Bounds { lo: at, hi: last, excluded: false });
    }
    if chars::str_same(op, "<") {
        return Some(Bounds { lo: 0, hi: at, excluded: false });
    }
    match end_of(op, parts, wildcard) {
        None => None,
        Some(end) => {
            if chars::str_same(op, ">") {
                Some(Bounds { lo: end, hi: last, excluded: false })
            } else if chars::str_same(op, "<=") {
                Some(Bounds { lo: 0, hi: end, excluded: false })
            } else if chars::str_same(op, "!=") {
                Some(Bounds { lo: at, hi: end, excluded: true })
            } else {
                Some(Bounds { lo: at, hi: end, excluded: false })
            }
        },
    }
}

/// What a clause says.
fn clause_bounds(part: &[char]) -> (r: Option<Bounds>)
    ensures
        match r {
            Some(b) => clause_range(part@) == Some(b.range()) && b.lo <= top() && b.hi <= top(),
            None => clause_range(part@) is None,
        },
{
    let clause = chars::trim(part);
    let op = match find_operator(clause) {
        Some(op) => op,
        None => {
            return None;
        },
    };
    let op_chars = chars::of(op);
    let raw = chars::trim(chars::skip(clause, op_chars.len()));
    let (base, wildcard) = match chars::strip_suffix(raw, ".*") {
        Some(base) => (base, true),
        None => (raw, false),
    };
    match parse_parts(base) {
        Some(parts) => bounds_of(op, &parts, wildcard),
        None => None,
    }
}

/// The place `x` lies in one of the intervals.
spec fn covered(intervals: Seq<(u128, u128)>, x: int) -> bool {
    exists|k: int|
        0 <= k < intervals.len() && (#[trigger] intervals[k]).0 <= x < intervals[k].1
}

spec fn well_formed(intervals: Seq<(u128, u128)>) -> bool {
    forall|k: int|
        0 <= k < intervals.len() ==> (#[trigger] intervals[k]).0 < intervals[k].1
            && intervals[k].1 <= top()
}

proof fn covered_push(intervals: Seq<(u128, u128)>, last: (u128, u128), x: int)
    ensures
        covered(intervals.push(last), x) <==> covered(intervals, x) || last.0 <= x < last.1,
{
    let all = intervals.push(last);
    if covered(intervals, x) {
        let k = choose|k: int|
            0 <= k < intervals.len() && (#[trigger] intervals[k]).0 <= x < intervals[k].1;
        assert(all[k] == intervals[k]);
    }
    if last.0 <= x < last.1 {
        assert(all[intervals.len() as int] == last);
    }
    if covered(all, x) {
        let k = choose|k: int| 0 <= k < all.len() && (#[trigger] all[k]).0 <= x < all[k].1;
        if k < intervals.len() {
            assert(all[k] == intervals[k]);
        }
    }
}

/// Takes the places from `start` to before `end` out of the intervals.
fn exclude(intervals: &Vec<(u128, u128)>, start: u128, end: u128) -> (r: Vec<(u128, u128)>)
    requires
        well_formed(intervals@),
        start <= end,
    ensures
        well_formed(r@),
        forall|x: int| #[trigger]
            covered(r@, x) <==> covered(intervals@, x) && !(start <= x < end),
{
    let mut remaining: Vec<(u128, u128)> = Vec::new();
    let mut i: usize = 0;
    while i < intervals.len()
        invariant
            i <= intervals.len(),
            start <= end,
            well_formed(intervals@),
            well_formed(remaining@),
            forall|x: int| #[trigger]
                covered(remaining@, x) <==> covered(intervals@.take(i as int), x) && !(start <= x
                    < end),
        decreases intervals.len() - i,
    {
        let (lo, hi) = intervals[i];
        let ghost before = remaining@;
        if end <= lo || start >= hi {
            remaining.push((lo, hi));
        } else {
            if lo < start {
                remaining.push((lo, start));
            }
            if end < hi {
                remaining.push((end, hi));
            }
        }
        proof {
            let now = intervals@.take(i + 1);
            let was = intervals@.take(i as int);
            assert forall|x: int| #[trigger] covered(remaining@, x) <==> covered(now, x) && !(start
                <= x < end) by {
                if covered(remaining@, x) {
                    let k = choose|k: int|
                        0 <= k < remaining@.len() && (#[trigger] remaining@[k]).0 <= x
                            < remaining@[k].1;
                    if k < before.len() {
                        assert(before[k] == remaining@[k]);
                        assert(covered(before, x));
                        let j = choose|j: int|
                            0 <= j < was.len() && (#[trigger] was[j]).0 <= x < was[j].1;
                        assert(now[j] == was[j]);
                    } else {
                        assert(now[i as int] == (lo, hi));
                    }
                }
                if covered(now, x) && !(start <= x < end) {
                    let j = choose|j: int|
                        0 <= j < now.len() && (#[trigger] now[j]).0 <= x < now[j].1;
                    if j < i {
                        assert(was[j] == now[j]);
                        assert(covered(was, x));
                        assert(covered(before, x));
                        let k = choose|k: int|
                            0 <= k < before.len() && (#[trigger] before[k]).0 <= x < before[k].1;
                        assert(remaining@[k] == before[k]);
                    } else if end <= lo || start >= hi {
                        assert(remaining@[before.len() as int] == (lo, hi));
                    } else if x < start {
                        assert(remaining@[before.len() as int] == (lo, start));
                    } else {
                        assert(remaining@[remaining@.len() - 1] == (end, hi));
                    }
                }
            }
        }
        i = i + 1;
    }
    assert(intervals@.take(intervals@.len() as int) =~= intervals@);
    remaining
}

/// What the clauses say together: the first places that are admitted and the end
/// of them, and what is excluded between.
fn collect_bounds(parts: &Vec<&[char]>) -> (r: Option<(u128, u128, Vec<(u128, u128)>)>)
    ensures
        ({
            let texts = chars::slice_views(parts@);
            match r {
                None => !all_understood(texts),
                Some((lower, upper, exclusions)) => {
                    &&& all_understood(texts)
                    &&& lower <= top()
                    &&& upper <= top()
                    &&& forall|x: int| #[trigger]
                        admitted(texts, x) <==> lower <= x < upper && !covered(exclusions@, x)
                },
            }
        }),
{
    let ghost texts = chars::slice_views(parts@);
    let mut lower: u128 = 0;
    let mut upper: u128 = encode(u32::MAX, u32::MAX, u32::MAX);
    let mut exclusions: Vec<(u128, u128)> = Vec::new();
    let mut i: usize = 0;
    while i < parts.len()
        invariant
            i <= parts.len(),
            texts == chars::slice_views(parts@),
            lower <= top(),
            upper <= top(),
            all_understood(texts.take(i as int)),
            forall|x: int| #[trigger]
                admitted(texts.take(i as int), x) <==> lower <= x < upper && !covered(
                    exclusions@,
                    x,
                ),
        decreases parts.len() - i,
    {
        let ghost was = texts.take(i as int);
        let ghost now = texts.take(i + 1);
        let ghost (lower0, upper0, ex0) = (lower, upper, exclusions@);
        assert(texts[i as int] == parts@[i as int]@);
        let b = match clause_bounds(parts[i]) {
            Some(b) => b,
            None => {
                assert(!all_understood(texts));
                return None;
            },
        };
        if b.excluded {
            exclusions.push((b.lo, b.hi));
        } else {
            if b.lo > lower {
                lower = b.lo;
            }
            if b.hi < upper {
                upper = b.hi;
            }
        }
        proof {
            assert(now[i as int] == texts[i as int]);
            assert forall|k: int| 0 <= k < now.len() implies clause_range(
                #[trigger] now[k],
            ) is Some by {
                if k < i {
                    assert(now[k] == was[k]);
                }
            }
            assert forall|x: int| #[trigger] admitted(now, x) <==> lower <= x < upper && !covered(
                exclusions@,
                x,
            ) by {
                let last = in_range(b.range(), x);
                assert(admitted(now, x) <==> admitted(was, x) && last) by {
                    if admitted(now, x) {
                        assert forall|k: int| 0 <= k < was.len() implies in_range(
                            clause_range(#[trigger] was[k])->0,
                            x,
                        ) by {
                            assert(now[k] == was[k]);
                        }
                    }
                    if admitted(was, x) && last {
                        assert forall|k: int| 0 <= k < now.len() implies in_range(
                            clause_range(#[trigger] now[k])->0,
                            x,
                        ) by {
                            if k < i {
                                assert(now[k] == was[k]);
                            }
                        }
                    }
                }
                if b.excluded {
                    covered_push(ex0, (b.lo, b.hi), x);
                }
            }
        }
        i = i + 1;
    }
    assert(texts.take(i as int) =~= texts);
    Some((lower, upper, exclusions))
}

/// The one minor version, such as `3.11`, that a specifier leaves, if it leaves
/// exactly one. Clauses that are not understood leave none.
pub fn single_minor(spec: &str) -> (r: Option<String>)
    ensures
        match r {
            Some(s) => exists|m: int| #[trigger] leaves_minor(spec@, m) && s@ == minor_text(m),
            None => forall|m: int| !#[trigger] leaves_minor(spec@, m),
        },
        text::opt_view(r) == minor_left(spec@),
{
    let whole = chars::of(spec);
    let parts = chars::split(&whole, ',');
    let ghost texts = chars::slice_views(parts@);
    let (lower, upper, exclusions) = match collect_bounds(&parts) {
        Some(t) => t,
        None => {
            return None;
        },
    };
    if lower >= upper {
        proof {
            assert forall|m: int| !#[trigger] leaves_minor(spec@, m) by {
                if leaves_minor(spec@, m) {
                    let x = choose|x: int| admitted(texts, x);
                    assert(admitted(texts, x));
                }
            }
        }
        return None;
    }
    let mut intervals: Vec<(u128, u128)> = Vec::new();
    intervals.push((lower, upper));
    proof {
        assert forall|x: int| #[trigger] covered(intervals@, x) <==> lower <= x < upper by {
            assert(intervals@[0] == (lower, upper));
        }
    }
    let mut i: usize = 0;
    while i < exclusions.len()
        invariant
            i <= exclusions.len(),
            well_formed(intervals@),
            forall|x: int| #[trigger]
                covered(intervals@, x) <==> lower <= x < upper && !covered(
                    exclusions@.take(i as int),
                    x,
                ),
        decreases exclusions.len() - i,
    {
        let (start, end) = exclusions[i];
        if start <= end {
            intervals = exclude(&intervals, start, end);
        }
        proof {
            assert(exclusions@.take(i + 1) =~= exclusions@.take(i as int).push((start, end)));
            assert forall|x: int| #[trigger] covered(intervals@, x) <==> lower <= x < upper
                && !covered(exclusions@.take(i + 1), x) by {
                covered_push(exclusions@.take(i as int), (start, end), x);
            }
        }
        i = i + 1;
    }
    assert(exclusions@.take(i as int) =~= exclusions@);
    assert(forall|x: int| #[trigger] admitted(texts, x) <==> covered(intervals@, x));
    if intervals.len() == 0 {
        proof {
            assert forall|m: int| !#[trigger] leaves_minor(spec@, m) by {
                if leaves_minor(spec@, m) {
                    let x = choose|x: int| admitted(texts, x);
                    assert(admitted(texts, x));
                    assert(covered(intervals@, x));
                }
            }
        }
        return None;
    }
    let first: u128 = intervals[0].0;
    let major: u64 = (first / 0x1_0000_0000_0000_0000) as u64;
    let minor: u64 = ((first / 0x1_0000_0000) % 0x1_0000_0000) as u64;
    let ghost m = minor_of(first as int);
    assert(covered(intervals@, first as int)) by {
        assert(intervals@[0].0 <= first < intervals@[0].1);
    }
    assert(admitted(texts, first as int));
    assert(m % 0x1_0000_0000 == minor && m / 0x1_0000_0000 == major);
    proof {
        assert forall|n: int| #[trigger] leaves_minor(spec@, n) implies n == m by {
            assert(admitted(texts, first as int));
        }
    }
    if minor >= u32::MAX as u64 {
        return None;
    }
    let next: u128 = (first / 0x1_0000_0000 + 1) * 0x1_0000_0000;
    let mut i: usize = 0;
    while i < intervals.len()
        invariant
            i <= intervals.len(),
            well_formed(intervals@),
            texts == text::split(spec@, ','),
            m == minor_of(first as int),
            next == (m + 1) * 0x1_0000_0000,
            forall|x: int| #[trigger] admitted(texts, x) <==> covered(intervals@, x),
            forall|n: int| #[trigger] leaves_minor(spec@, n) ==> n == m,
            forall|k: int|
                0 <= k < i ==> minor_of((#[trigger] intervals@[k]).0 as int) == m
                    && intervals@[k].1 <= next,
        decreases intervals.len() - i,
    {
        let (lo, hi) = intervals[i];
        if lo / 0x1_0000_0000 != first / 0x1_0000_0000 || hi > next {
            proof {
                let x: int = if minor_of(lo as int) != m {
                    lo as int
                } else {
                    hi - 1
                };
                assert(intervals@[i as int].0 <= x < intervals@[i as int].1);
                assert(covered(intervals@, x));
                assert(admitted(texts, x));
                assert(minor_of(x) != m);
            }
            return None;
        }
        i = i + 1;
    }
    proof {
        assert forall|x: int| #[trigger] admitted(texts, x) implies minor_of(x) == m by {
            assert(covered(intervals@, x));
            let k = choose|k: int|
                0 <= k < intervals@.len() && (#[trigger] intervals@[k]).0 <= x < intervals@[k].1;
            assert(minor_of(intervals@[k].0 as int) == m);
        }
        assert(leaves_minor(spec@, m));
        left_minor_is_unique(spec@, m, choose|n: int| leaves_minor(spec@, n));
    }
    let mut out = chars::to_string(&chars::decimal(major as u128));
    out.append(".");
    out.append(chars::to_string(&chars::decimal(minor as u128)).as_str());
    Some(out)
}

// ── The request of a project ────────────────────────────────────────────────
/// What a project asks for cannot be told.
#[derive(Debug)]
pub enum RequestError {
    /// A line of `.python-version` that is no version of two or three numbers.
    InvalidVersion { line: String, path: String },
    /// A `pyproject.toml` that is not TOML.
    InvalidProject { path: String },
}

/// What an error says.
pub enum RequestErrorModel {
    InvalidVersion { line: Seq<char>, path: Seq<char> },
    InvalidProject { path: Seq<char> },
}

impl View for RequestError {
    type V = RequestErrorModel;

    open spec fn view(&self) -> RequestErrorModel {
        match *self {
            RequestError::InvalidVersion { line, path } => RequestErrorModel::InvalidVersion {
                line: line@,
                path: path@,
            },
            RequestError::InvalidProject { path } => RequestErrorModel::InvalidProject {
                path: path@,
            },
        }
    }
}

impl RequestError {
    /// The error in words.
    pub fn message(&self) -> (r: String)
        ensures
            r@ == match self@ {
                RequestErrorModel::InvalidVersion { line, path } => "Invalid Python version '"@
                    + line + "' in "@ + path + ": expected major.minor or major.minor.patch"@,
                RequestErrorModel::InvalidProject { path } => "parsing "@ + path,
            },
    {
        match self {
            RequestError::InvalidVersion { line, path } => {
                let mut m = String::from_str("Invalid Python version '");
                m.append(line.as_str());
                m.append("' in ");
                m.append(path.as_str());
                m.append(": expected major.minor or major.minor.patch");
                m
            },
            RequestError::InvalidProject { path } => {
                let mut m = String::from_str("parsing ");
                m.append(path.as_str());
                m
            },
        }
    }
}

/// The first line that is neither empty nor a comment, without the space around
/// it.
pub open spec fn telling_line(lines: Seq<Seq<char>>) -> Option<Seq<char>>
    decreases lines.len(),
{
    if lines.len() == 0 {
        None
    } else {
        let line = text::trim(lines[0]);
        if line.len() > 0 && line[0] != '#' {
            Some(line)
        } else {
            telling_line(lines.skip(1))
        }
    }
}

/// The specifier under `requires-python` of a `pyproject.toml`.
pub open spec fn requires_python(project: DocModel) -> Option<Seq<char>> {
    doc::as_text(doc::get_opt(doc::get(project, "project"@), "requires-python"@))
}

/// What a `pyproject.toml` asks for: the one minor version that it leaves, or the
/// latest.
pub open spec fn project_request(project: DocModel) -> Seq<char> {
    match requires_python(project) {
        Some(spec) => match minor_left(spec) {
            Some(minor) => minor,
            None => "latest"@,
        },
        None => "latest"@,
    }
}

/// What the `.python-version` at a path asks for, if it says anything.
pub open spec fn file_request(content: Seq<char>, path: Seq<char>) -> Option<
    Result<Seq<char>, RequestErrorModel>,
> {
    match telling_line(text::lines(content)) {
        Some(line) => Some(
            if parts_of(line) is Some {
                Ok(line)
            } else {
                Err(RequestErrorModel::InvalidVersion { line, path })
            },
        ),
        None => None,
    }
}

/// What a project in a directory asks for, by the content of its `.python-version` and
/// its `pyproject.toml`, where it has them.
pub open spec fn project_asks(
    dir: Seq<char>,
    version_file: Option<Seq<char>>,
    pyproject: Option<Seq<char>>,
) -> Result<Seq<char>, RequestErrorModel> {
    match (match version_file {
        Some(content) => file_request(content, paths::joined(dir, ".python-version"@)),
        None => None,
    }) {
        Some(answer) => answer,
        None => match pyproject {
            Some(content) => match doc::toml_document(content) {
                Some(project) => Ok(project_request(project)),
                None => Err(
                    RequestErrorModel::InvalidProject {
                        path: paths::joined(dir, "pyproject.toml"@),
                    },
                ),
            },
            None => Ok("latest"@),
        },
    }
}

/// The view of an answer.
pub open spec fn answer_view(r: Result<String, RequestError>) -> Result<
    Seq<char>,
    RequestErrorModel,
> {
    match r {
        Ok(s) => Ok(s@),
        Err(e) => Err(e@),
    }
}

/// What a `pyproject.toml` asks for.
pub fn request_from_project(project: &Doc) -> (r: String)
    ensures
        r@ == project_request(project@),
{
    let spec = doc::text_of(doc::get_in(project.get("project"), "requires-python"));
    if let Some(spec) = spec {
        if let Some(minor) = single_minor(spec.as_str()) {
            return minor;
        }
    }
    String::from_str("latest")
}

/// What the `.python-version` at a path asks for, if it says anything.
pub fn request_from_file(content: &str, path: &str) -> (r: Option<Result<String, RequestError>>)
    ensures
        match r {
            Some(answer) => file_request(content@, path@) == Some(answer_view(answer)),
            None => file_request(content@, path@) is None,
        },
{
    let content_chars = chars::of(content);
    let lines = chars::lines(&content_chars);
    let ghost texts = chars::slice_views(lines@);
    assert(texts.skip(0) =~= texts);
    let mut i: usize = 0;
    while i < lines.len()
        invariant
            i <= lines.len(),
            texts == chars::slice_views(lines@),
            texts == text::lines(content@),
            telling_line(texts) == telling_line(texts.skip(i as int)),
        decreases lines.len() - i,
    {
        assert(texts.skip(i as int)[0] == lines@[i as int]@);
        let line = chars::trim(lines[i]);
        if line.len() > 0 && line[0] != '#' {
            let valid = parse_parts(line).is_some();
            let line = chars::to_string(line);
            return Some(
                if valid {
                    Ok(line)
                } else {
                    Err(RequestError::InvalidVersion { line, path: String::from_str(path) })
                },
            );
        }
        assert(texts.skip(i as int).skip(1) =~= texts.skip(i + 1));
        i = i + 1;
    }
    None
}

/// The interpreter that a project in a directory asks for: `major.minor`,
/// `major.minor.patch` or `latest`. The contents of `.python-version` and
/// `pyproject.toml` are given where the project has those files.
pub fn requested_version(
    dir: &str,
    version_file: Option<&str>,
    pyproject: Option<&str>,
) -> (r: Result<String, RequestError>)
    ensures
        answer_view(r) == project_asks(
            dir@,
            text::opt_str_view(version_file),
            text::opt_str_view(pyproject),
        ),
{
    if let Some(content) = version_file {
        if let Some(answer) = request_from_file(content, paths::join(dir, ".python-version").as_str()) {
            return answer;
        }
    }
    match pyproject {
        Some(content) => match doc::parse_toml(content) {
            Some(project) => Ok(request_from_project(&project)),
            None => Err(
                RequestError::InvalidProject { path: paths::join(dir, "pyproject.toml") },
            ),
        },
        None => Ok(String::from_str("latest")),
    }
}

} // verus!
