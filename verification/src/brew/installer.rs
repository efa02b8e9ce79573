//! What is left to the `brew` command: which taps, formulae and casks it is asked
//! for.
use vstd::prelude::*;

use crate::brew::parser::BrewDep;
use crate::brew::parser::BrewDepKind;
use crate::chars;
use crate::paths;
use crate::text;

verus! {

/// The names among lines: those that are not blank.
pub open spec fn names_among(lines: Seq<Seq<char>>) -> Seq<Seq<char>>
    decreases lines.len(),
{
    if lines.len() == 0 {
        Seq::empty()
    } else {
        let front = names_among(lines.drop_last());
        let name = text::trim(lines.last());
        if name.len() > 0 {
            front.push(name)
        } else {
            front
        }
    }
}

/// The names in what `brew list` or `brew tap` printed, one in each line.
pub fn listed_names(output: &str) -> (r: Vec<String>)
    ensures
        text::views(r@) == names_among(text::lines(output@)),
{
    let whole = chars::of(output);
    let lines = chars::lines(&whole);
    let ghost texts = chars::slice_views(lines@);
    let mut out: Vec<String> = Vec::new();
    let mut i: usize = 0;
    assert(text::views(out@) =~= names_among(texts.take(0)));
    while i < lines.len()
        invariant
            i <= lines.len(),
            texts == chars::slice_views(lines@),
            text::views(out@) == names_among(texts.take(i as int)),
        decreases lines.len() - i,
    {
        let ghost before = out@;
        proof {
            assert(texts.take(i + 1).drop_last() =~= texts.take(i as int));
            assert(texts.take(i + 1).last() == lines@[i as int]@);
        }
        let name = chars::trim(lines[i]);
        if name.len() > 0 {
            let name = chars::to_string(name);
            let ghost model = name@;
            out.push(name);
            assert(text::views(out@) =~= text::views(before).push(model));
        }
        i = i + 1;
    }
    assert(texts.take(i as int) =~= texts);
    out
}

/// A run of `brew`.
#[derive(Debug)]
pub struct BrewCommand {
    pub args: Vec<String>,
    /// What is reported when it succeeds.
    pub report: String,
}

/// A run of `brew`.
#[verifier::ext_equal]
pub struct CommandModel {
    pub args: Seq<Seq<char>>,
    pub report: Seq<char>,
}

impl View for BrewCommand {
    type V = CommandModel;

    open spec fn view(&self) -> CommandModel {
        CommandModel { args: text::views(self.args@), report: self.report@ }
    }
}

/// Runs of `brew`.
pub open spec fn command_views(v: Seq<BrewCommand>) -> Seq<CommandModel> {
    Seq::new(v.len(), |i: int| v[i]@)
}

/// The run that brings a dependency.
pub open spec fn command_for(d: BrewDep) -> CommandModel {
    match d.kind {
        BrewDepKind::Tap => CommandModel { args: seq!["tap"@, d.name@], report: "tap:"@ + d.name@ },
        BrewDepKind::Formula => CommandModel { args: seq!["install"@, d.name@], report: d.name@ },
        BrewDepKind::Cask => CommandModel {
            args: seq!["install"@, "--cask"@, d.name@],
            report: d.name@,
        },
    }
}

/// The runs for the taps, or for all but the taps, that are not there yet.
pub open spec fn commands(deps: Seq<BrewDep>, taps: bool, there: Seq<Seq<char>>) -> Seq<
    CommandModel,
>
    decreases deps.len(),
{
    if deps.len() == 0 {
        Seq::empty()
    } else {
        let front = commands(deps.drop_last(), taps, there);
        let d = deps.last();
        if (d.kind is Tap) == taps && !there.contains(d.name@) {
            front.push(command_for(d))
        } else {
            front
        }
    }
}

fn build_command(d: &BrewDep) -> (r: BrewCommand)
    ensures
        r@ == command_for(*d),
{
    let mut args: Vec<String> = Vec::new();
    let report = match d.kind {
        BrewDepKind::Tap => {
            args.push(String::from_str("tap"));
            args.push(d.name.clone());
            let mut report = String::from_str("tap:");
            report.append(d.name.as_str());
            report
        },
        BrewDepKind::Formula => {
            args.push(String::from_str("install"));
            args.push(d.name.clone());
            d.name.clone()
        },
        BrewDepKind::Cask => {
            args.push(String::from_str("install"));
            args.push(String::from_str("--cask"));
            args.push(d.name.clone());
            d.name.clone()
        },
    };
    assert(text::views(args@) =~= command_for(*d).args);
    BrewCommand { args, report }
}

fn add_commands(out: &mut Vec<BrewCommand>, deps: &Vec<BrewDep>, taps: bool, there: &[String])
    ensures
        command_views(final(out)@) == command_views(old(out)@) + commands(
            deps@,
            taps,
            text::views(there@),
        ),
{
    let ghost start = command_views(out@);
    let mut i: usize = 0;
    assert(start =~= start + commands(deps@.take(0), taps, text::views(there@)));
    while i < deps.len()
        invariant
            i <= deps.len(),
            start == command_views(old(out)@),
            command_views(out@) == start + commands(
                deps@.take(i as int),
                taps,
                text::views(there@),
            ),
        decreases deps.len() - i,
    {
        let ghost before = out@;
        proof {
            assert(deps@.take(i + 1).drop_last() =~= deps@.take(i as int));
            assert(deps@.take(i + 1).last() == deps@[i as int]);
        }
        let d = &deps[i];
        if (d.kind == BrewDepKind::Tap) == taps && !paths::listed(there, d.name.as_str()) {
            let c = build_command(d);
            let ghost model = c@;
            out.push(c);
            assert(command_views(out@) =~= command_views(before).push(model));
        }
        i = i + 1;
        assert(command_views(out@) =~= start + commands(
            deps@.take(i as int),
            taps,
            text::views(there@),
        ));
    }
    assert(deps@.take(i as int) =~= deps@);
}

/// The runs of `brew` that bring the dependencies that are not there: taps first,
/// since formulae and casks may come from them.
pub fn ensure_installed(deps: &Vec<BrewDep>, installed: &[String], taps: &[String]) -> (r: Vec<
    BrewCommand,
>)
    ensures
        command_views(r@) == commands(deps@, true, text::views(taps@)) + commands(
            deps@,
            false,
            text::views(installed@),
        ),
{
    let mut out: Vec<BrewCommand> = Vec::new();
    assert(command_views(out@) =~= Seq::empty());
    add_commands(&mut out, deps, true, taps);
    assert(command_views(out@) =~= commands(deps@, true, text::views(taps@)));
    add_commands(&mut out, deps, false, installed);
    out
}

/// What is reported of runs: those that succeeded. One that failed does not stop
/// the others.
pub open spec fn successes(runs: Seq<CommandModel>, outcomes: Seq<bool>) -> Seq<Seq<char>>
    decreases runs.len(),
{
    if runs.len() == 0 {
        Seq::empty()
    } else {
        let front = successes(runs.drop_last(), outcomes);
        if outcomes[runs.len() - 1] {
            front.push(runs.last().report)
        } else {
            front
        }
    }
}

/// What is reported of runs, by whether each succeeded.
pub fn newly_installed(runs: &Vec<BrewCommand>, outcomes: &Vec<bool>) -> (r: Vec<String>)
    requires
        outcomes@.len() == runs@.len(),
    ensures
        text::views(r@) == successes(command_views(runs@), outcomes@),
{
    let ghost models = command_views(runs@);
    let mut out: Vec<String> = Vec::new();
    let mut i: usize = 0;
    assert(text::views(out@) =~= successes(models.take(0), outcomes@));
    while i < runs.len()
        invariant
            i <= runs.len(),
            outcomes@.len() == runs@.len(),
            models == command_views(runs@),
            text::views(out@) == successes(models.take(i as int), outcomes@),
        decreases runs.len() - i,
    {
        let ghost before = out@;
        proof {
            assert(models.take(i + 1).drop_last() =~= models.take(i as int));
            assert(models.take(i + 1).last() == runs@[i as int]@);
        }
        if outcomes[i] {
            out.push(runs[i].report.clone());
            assert(text::views(out@) =~= text::views(before).push(models[i as int].report));
        }
        i = i + 1;
    }
    assert(models.take(i as int) =~= models);
    out
}

/// Where everything is there, nothing is run: installing can be repeated.
pub proof fn nothing_is_installed_twice(deps: Seq<BrewDep>, taps: bool, there: Seq<Seq<char>>)
    requires
        forall|i: int| 0 <= i < deps.len() ==> there.contains((#[trigger] deps[i]).name@),
    ensures
        commands(deps, taps, there).len() == 0,
    decreases deps.len(),
{
    if deps.len() > 0 {
        assert forall|i: int| 0 <= i < deps.drop_last().len() implies there.contains(
            (#[trigger] deps.drop_last()[i]).name@,
        ) by {
            assert(deps.drop_last()[i] == deps[i]);
        }
        nothing_is_installed_twice(deps.drop_last(), taps, there);
        assert(there.contains(deps[deps.len() - 1].name@));
    }
}

} // verus!
