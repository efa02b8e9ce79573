//! Paths as texts with slashes.
use vstd::prelude::*;

use crate::chars;
use crate::text;

verus! {

/// The path `b` seen from the directory `a`. An absolute `b` stands for itself.
pub open spec fn joined(a: Seq<char>, b: Seq<char>) -> Seq<char> {
    if (b.len() > 0 && b[0] == '/') || a.len() == 0 {
        b
    } else if a.last() == '/' {
        a + b
    } else {
        a + "/"@ + b
    }
}

/// The path `b` seen from the directory `a`.
pub fn join(a: &str, b: &str) -> (r: String)
    ensures
        r@ == joined(a@, b@),
{
    let left = chars::of(a);
    let right = chars::of(b);
    if (right.len() > 0 && right[0] == '/') || left.len() == 0 {
        return String::from_str(b);
    }
    let mut out = String::from_str(a);
    if left[left.len() - 1] != '/' {
        out.append("/");
    }
    out.append(b);
    out
}

/// What stands behind the last slash.
pub open spec fn last_part(s: Seq<char>) -> Seq<char> {
    match text::rfind(s, '/') {
        Some(i) => s.skip(i + 1),
        None => s,
    }
}

/// What stands behind the last slash.
pub fn last_of(s: &[char]) -> (r: &[char])
    ensures
        r@ == last_part(s@),
{
    match chars::rfind(s, '/') {
        Some(i) => chars::skip(s, i + 1),
        None => s,
    }
}

/// What stands before the last slash, as a directory.
pub open spec fn parent_part(s: Seq<char>) -> Seq<char> {
    match text::rfind(s, '/') {
        Some(i) => if i == 0 {
            "/"@
        } else {
            s.take(i)
        },
        None => Seq::empty(),
    }
}

/// The directory that a path is in.
pub fn parent_of(s: &str) -> (r: String)
    ensures
        r@ == parent_part(s@),
{
    let whole = chars::of(s);
    match chars::rfind(&whole, '/') {
        Some(i) => if i == 0 {
            String::from_str("/")
        } else {
            chars::to_string(chars::take(&whole, i))
        },
        None => String::new(),
    }
}

/// The texts of `names` contain `name`.
pub fn listed(names: &[String], name: &str) -> (r: bool)
    ensures
        r == text::views(names@).contains(name@),
{
    let ghost texts = text::views(names@);
    let mut i: usize = 0;
    while i < names.len()
        invariant
            i <= names.len(),
            texts == text::views(names@),
            forall|k: int| 0 <= k < i ==> texts[k] != name@,
        decreases names.len() - i,
    {
        assert(texts[i as int] == names@[i as int]@);
        if chars::str_same(names[i].as_str(), name) {
            return true;
        }
        i = i + 1;
    }
    false
}

/// The first of some relative paths that exists in a directory. `existing` lists
/// the relative paths that do.
pub open spec fn first_existing(
    dir: Seq<char>,
    candidates: Seq<Seq<char>>,
    existing: Seq<Seq<char>>,
) -> Option<Seq<char>>
    decreases candidates.len(),
{
    if candidates.len() == 0 {
        None
    } else if existing.contains(candidates[0]) {
        Some(joined(dir, candidates[0]))
    } else {
        first_existing(dir, candidates.skip(1), existing)
    }
}

/// The first of some relative paths that exists in a directory.
pub fn find_existing(dir: &str, candidates: &[&str], existing: &[String]) -> (r: Option<String>)
    ensures
        text::opt_view(r) == first_existing(dir@, str_views(candidates@), text::views(existing@)),
{
    let ghost texts = str_views(candidates@);
    let mut i: usize = 0;
    assert(texts.skip(0) =~= texts);
    while i < candidates.len()
        invariant
            i <= candidates.len(),
            texts == str_views(candidates@),
            first_existing(dir@, texts, text::views(existing@)) == first_existing(
                dir@,
                texts.skip(i as int),
                text::views(existing@),
            ),
        decreases candidates.len() - i,
    {
        assert(texts.skip(i as int)[0] == candidates@[i as int]@);
        if listed(existing, candidates[i]) {
            return Some(join(dir, candidates[i]));
        }
        assert(texts.skip(i as int).skip(1) =~= texts.skip(i + 1));
        i = i + 1;
    }
    None
}

/// The texts of a list.
pub open spec fn str_views(v: Seq<&str>) -> Seq<Seq<char>> {
    Seq::new(v.len(), |i: int| v[i]@)
}

// ── Paths of a machine ──────────────────────────────────────────────────────
/// A path with slashes in the place of backslashes.
pub open spec fn slashed(path: Seq<char>) -> Seq<char> {
    text::replace_char(path, '\\', "/"@)
}

/// A path of a machine as a text with slashes. On Windows a backslash is a slash, and
/// the sign of a path that is taken literally, `\\?\`, is left out.
pub open spec fn from_machine(path: Seq<char>, windows: bool) -> Seq<char> {
    if !windows {
        path
    } else {
        let s = slashed(path);
        match text::strip_prefix(s, "//?/UNC/"@) {
            Some(share) => "//"@ + share,
            None => match text::strip_prefix(s, "//?/"@) {
                Some(rest) => rest,
                None => s,
            },
        }
    }
}

/// A path of a machine as a text with slashes.
pub fn from_native(path: &str, windows: bool) -> (r: String)
    ensures
        r@ == from_machine(path@, windows),
{
    if !windows {
        return String::from_str(path);
    }
    let s = chars::replace_char(&chars::of(path), '\\', "/");
    if let Some(share) = chars::strip_prefix(&s, "//?/UNC/") {
        let mut out = String::from_str("//");
        out.append(chars::to_string(share).as_str());
        return out;
    }
    match chars::strip_prefix(&s, "//?/") {
        Some(rest) => chars::to_string(rest),
        None => chars::to_string(&s),
    }
}

/// The length of a share at the start of a path, such as `//server/share`.
pub open spec fn share_len(path: Seq<char>) -> Option<int> {
    match text::strip_prefix(path, "//"@) {
        Some(rest) => match text::split_once(rest, seq!['/']) {
            Some((server, behind)) => if server.len() > 0 && behind.len() > 0 && behind[0] != '/' {
                Some(path.len() - behind.len() + text::before(behind, '/').len())
            } else {
                None
            },
            None => None,
        },
        None => None,
    }
}

/// The length of a share at the start of a path.
pub fn share_at(path: &[char]) -> (r: Option<usize>)
    ensures
        match r {
            Some(n) => share_len(path@) == Some(n as int) && n <= path@.len(),
            None => share_len(path@) is None,
        },
{
    let rest = match chars::strip_prefix(path, "//") {
        Some(rest) => rest,
        None => {
            return None;
        },
    };
    assert(rest@.len() <= path@.len());
    match chars::find_char(rest, '/') {
        Some(i) => {
            let behind = chars::skip(rest, i + 1);
            if i > 0 && behind.len() > 0 && behind[0] != '/' {
                let share = match chars::find_char(behind, '/') {
                    Some(j) => j,
                    None => behind.len(),
                };
                Some(path.len() - behind.len() + share)
            } else {
                None
            }
        },
        None => None,
    }
}

/// The path behind a drive or a share, for a path of Windows with slashes.
pub open spec fn behind_volume(path: Seq<char>) -> Seq<char> {
    if path.len() >= 2 && text::is_ascii_alnum(path[0]) && !text::is_digit(path[0]) && path[1]
        == ':' {
        path.skip(2)
    } else {
        match share_len(path) {
            Some(n) => path.skip(n),
            None => path,
        }
    }
}

/// The path behind a drive or a share.
pub fn without_volume(path: &[char]) -> (r: &[char])
    ensures
        r@ == behind_volume(path@),
{
    if path.len() >= 2 && (('a' <= path[0] && path[0] <= 'z') || ('A' <= path[0] && path[0] <= 'Z'))
        && path[1] == ':' {
        return chars::skip(path, 2);
    }
    match share_at(path) {
        Some(n) => chars::skip(path, n),
        None => path,
    }
}

} // verus!
