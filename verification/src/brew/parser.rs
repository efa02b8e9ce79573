//! The `Brewfile` of a project.
use vstd::prelude::*;

use crate::chars;
use crate::text;

verus! {

/// What a line of a `Brewfile` asks for.
#[derive(Debug, Clone, Copy, PartialEq, Eq, Structural)]
pub enum BrewDepKind {
    Formula,
    Cask,
    Tap,
}

/// A dependency in a `Brewfile`.
#[derive(Debug)]
pub struct BrewDep {
    pub name: String,
    pub kind: BrewDepKind,
}

/// The names and kinds of dependencies.
pub open spec fn dep_views(v: Seq<BrewDep>) -> Seq<(Seq<char>, BrewDepKind)> {
    Seq::new(v.len(), |i: int| (v[i].name@, v[i].kind))
}

/// The kind that a line starts with, and what stands behind it.
pub open spec fn directive(line: Seq<char>) -> Option<(BrewDepKind, Seq<char>)> {
    match text::strip_prefix(line, "brew "@) {
        Some(rest) => Some((BrewDepKind::Formula, rest)),
        None => match text::strip_prefix(line, "cask "@) {
            Some(rest) => Some((BrewDepKind::Cask, rest)),
            None => match text::strip_prefix(line, "tap "@) {
                Some(rest) => Some((BrewDepKind::Tap, rest)),
                None => None,
            },
        },
    }
}

/// The name at the start of a text: between quotes, or up to a comma or space.
pub open spec fn quoted_name(rest: Seq<char>) -> Seq<char> {
    if rest.len() > 0 && rest[0] == '"' {
        text::before(text::trim_start_set(rest, "\""@), '"')
    } else if rest.len() > 0 && rest[0] == '\'' {
        text::before(text::trim_start_set(rest, "'"@), '\'')
    } else {
        let words = text::words(text::before(rest, ','));
        if words.len() > 0 {
            words[0]
        } else {
            Seq::empty()
        }
    }
}

/// The dependency that a line declares, if it declares one.
pub open spec fn line_dep(line: Seq<char>) -> Option<(Seq<char>, BrewDepKind)> {
    match directive(line) {
        Some((kind, rest)) => {
            let name = quoted_name(text::trim(rest));
            if name.len() == 0 {
                None
            } else {
                Some((name, kind))
            }
        },
        None => None,
    }
}

/// The dependencies that lines declare. Comments declare none.
pub open spec fn lines_deps(lines: Seq<Seq<char>>) -> Seq<(Seq<char>, BrewDepKind)>
    decreases lines.len(),
{
    if lines.len() == 0 {
        Seq::empty()
    } else {
        let front = lines_deps(lines.drop_last());
        let line = text::trim(lines.last());
        if line.len() == 0 || line[0] == '#' {
            front
        } else {
            match line_dep(line) {
                Some(d) => front.push(d),
                None => front,
            }
        }
    }
}

fn read_name(rest: &[char]) -> (r: String)
    ensures
        r@ == quoted_name(rest@),
{
    if rest.len() > 0 && rest[0] == '"' {
        chars::to_string(chars::before(chars::trim_start_set(rest, "\""), '"'))
    } else if rest.len() > 0 && rest[0] == '\'' {
        chars::to_string(chars::before(chars::trim_start_set(rest, "'"), '\''))
    } else {
        let words = chars::words(chars::before(rest, ','));
        if words.len() > 0 {
            assert(chars::slice_views(words@)[0] == words@[0]@);
            chars::to_string(words[0])
        } else {
            String::new()
        }
    }
}

fn parse_trimmed(line: &[char]) -> (r: Option<BrewDep>)
    ensures
        match r {
            Some(d) => line_dep(line@) == Some((d.name@, d.kind)),
            None => line_dep(line@) is None,
        },
{
    let (kind, rest) = match chars::strip_prefix(line, "brew ") {
        Some(rest) => (BrewDepKind::Formula, rest),
        None => match chars::strip_prefix(line, "cask ") {
            Some(rest) => (BrewDepKind::Cask, rest),
            None => match chars::strip_prefix(line, "tap ") {
                Some(rest) => (BrewDepKind::Tap, rest),
                None => {
                    return None;
                },
            },
        },
    };
    let name = read_name(chars::trim(rest));
    if name.as_str().is_empty() {
        None
    } else {
        Some(BrewDep { name, kind })
    }
}

/// The dependency that a line of a `Brewfile` declares, if it declares one.
pub fn parse_line(line: &str) -> (r: Option<BrewDep>)
    ensures
        match r {
            Some(d) => line_dep(line@) == Some((d.name@, d.kind)),
            None => line_dep(line@) is None,
        },
{
    let whole = chars::of(line);
    parse_trimmed(&whole)
}

/// The dependencies in a `Brewfile`.
pub fn parse_brewfile(content: &str) -> (r: Vec<BrewDep>)
    ensures
        dep_views(r@) == lines_deps(text::lines(content@)),
{
    let whole = chars::of(content);
    let lines = chars::lines(&whole);
    let ghost texts = chars::slice_views(lines@);
    let mut deps: Vec<BrewDep> = Vec::new();
    let mut i: usize = 0;
    assert(dep_views(deps@) =~= lines_deps(texts.take(0)));
    while i < lines.len()
        invariant
            i <= lines.len(),
            texts == chars::slice_views(lines@),
            dep_views(deps@) == lines_deps(texts.take(i as int)),
        decreases lines.len() - i,
    {
        let ghost before = deps@;
        proof {
            assert(texts.take(i + 1).drop_last() =~= texts.take(i as int));
            assert(texts.take(i + 1).last() == lines@[i as int]@);
        }
        let line = chars::trim(lines[i]);
        if line.len() > 0 && line[0] != '#' {
            if let Some(d) = parse_trimmed(line) {
                let ghost model = (d.name@, d.kind);
                deps.push(d);
                assert(dep_views(deps@) =~= dep_views(before).push(model));
            }
        }
        i = i + 1;
    }
    assert(texts.take(i as int) =~= texts);
    deps
}

/// The Homebrew dependencies of a project, by its `Brewfile` where it has one.
pub fn detect_and_parse(brewfile: Option<&str>) -> (r: Vec<BrewDep>)
    ensures
        dep_views(r@) == match brewfile {
            Some(content) => lines_deps(text::lines(content@)),
            None => Seq::empty(),
        },
{
    match brewfile {
        Some(content) => parse_brewfile(content),
        None => {
            let none: Vec<BrewDep> = Vec::new();
            assert(dep_views(none@) =~= Seq::empty());
            none
        },
    }
}

/// Every dependency has a name.
pub proof fn dependencies_have_names(lines: Seq<Seq<char>>, i: int)
    requires
        0 <= i < lines_deps(lines).len(),
    ensures
        lines_deps(lines)[i].0.len() > 0,
    decreases lines.len(),
{
    if lines.len() > 0 && i < lines_deps(lines.drop_last()).len() {
        dependencies_have_names(lines.drop_last(), i);
    }
}

} // verus!
