//! The launchers of console scripts.
//!
//! A distribution declares its commands under `[console_scripts]` and
//! `[gui_scripts]` of `entry_points.txt`. For each of them the `bin` directory of
//! an environment gets a launcher that runs the declared callable with the
//! environment's own interpreter.
use vstd::prelude::*;

use crate::actions;
use crate::actions::ActionModel;
use crate::actions::FsAction;
use crate::chars;
use crate::paths;
use crate::text;

verus! {

/// A command that a distribution declares: `name = module:attr`.
#[derive(Debug, PartialEq, Eq)]
pub struct ConsoleScript {
    /// The name of the launcher.
    pub name: String,
    /// The module to import.
    pub module: String,
    /// What is called in the module, `main` where nothing is given.
    pub attr: Option<String>,
}

/// What a declared command holds.
pub struct ScriptModel {
    pub name: Seq<char>,
    pub module: Seq<char>,
    pub attr: Option<Seq<char>>,
}

impl View for ConsoleScript {
    type V = ScriptModel;

    open spec fn view(&self) -> ScriptModel {
        ScriptModel {
            name: self.name@,
            module: self.module@,
            attr: text::opt_view(self.attr),
        }
    }
}

/// What a list of declared commands holds.
pub open spec fn script_views(v: Seq<ConsoleScript>) -> Seq<ScriptModel> {
    Seq::new(v.len(), |i: int| v[i]@)
}

/// The name of the section that a line opens, if it opens one.
pub open spec fn section_of(line: Seq<char>) -> Option<Seq<char>> {
    if line.len() >= 2 && line[0] == '[' && line.last() == ']' {
        Some(text::trim(line.subrange(1, line.len() - 1)))
    } else {
        None
    }
}

/// The sections whose entries are commands, whatever the case of their names.
pub open spec fn is_script_section(name: Seq<char>) -> bool {
    text::ascii_lower(name) == "console_scripts"@ || text::ascii_lower(name) == "gui_scripts"@
}

/// The target of an entry, without the extras that may follow it.
pub open spec fn target_of(raw: Seq<char>) -> Seq<char> {
    let words = text::words(text::trim(raw));
    if words.len() > 0 {
        words[0]
    } else {
        text::trim(raw)
    }
}

/// The command that an entry declares, if it is one.
pub open spec fn script_of(line: Seq<char>) -> Option<ScriptModel> {
    match text::split_once(line, seq!['=']) {
        None => None,
        Some((left, right)) => {
            let name = text::trim(left);
            let target = target_of(right);
            let (module, attr) = match text::split_once(target, seq![':']) {
                Some((m, a)) => (text::trim(m), Some(text::trim(a))),
                None => (target, None),
            };
            if name.len() == 0 || target.len() == 0 || module.len() == 0 {
                None
            } else {
                Some(ScriptModel { name, module, attr })
            }
        },
    }
}

/// The commands that some lines declare, and whether the last of them stands in a
/// section of commands.
pub open spec fn scanned(lines: Seq<Seq<char>>) -> (Seq<ScriptModel>, bool)
    decreases lines.len(),
{
    if lines.len() == 0 {
        (Seq::empty(), false)
    } else {
        let (found, inside) = scanned(lines.drop_last());
        let line = text::trim(lines.last());
        if line.len() == 0 || line[0] == '#' || line[0] == ';' {
            (found, inside)
        } else {
            match section_of(line) {
                Some(name) => (found, is_script_section(name)),
                None => if inside {
                    match script_of(line) {
                        Some(s) => (found.push(s), inside),
                        None => (found, inside),
                    }
                } else {
                    (found, inside)
                },
            }
        }
    }
}

/// The commands that an `entry_points.txt` declares.
pub open spec fn declared_scripts(content: Seq<char>) -> Seq<ScriptModel> {
    scanned(text::lines(content)).0
}

fn parse_script(line: &[char]) -> (r: Option<ConsoleScript>)
    ensures
        match r {
            Some(s) => script_of(line@) == Some(s@),
            None => script_of(line@) is None,
        },
{
    let eq: usize = match chars::find_char(line, '=') {
        Some(i) => i,
        None => {
            return None;
        },
    };
    let name = chars::trim(chars::take(line, eq));
    let right = chars::trim(chars::skip(line, eq + 1));
    let words = chars::words(right);
    let ghost texts = chars::slice_views(words@);
    let target = if words.len() > 0 {
        assert(texts[0] == words@[0]@);
        words[0]
    } else {
        right
    };
    let (module, attr) = match chars::find_char(target, ':') {
        Some(i) => (
            chars::trim(chars::take(target, i)),
            Some(chars::trim(chars::skip(target, i + 1))),
        ),
        None => (target, None),
    };
    if name.len() == 0 || target.len() == 0 || module.len() == 0 {
        return None;
    }
    let attr: Option<String> = match attr {
        Some(a) => Some(chars::to_string(a)),
        None => None,
    };
    Some(ConsoleScript { name: chars::to_string(name), module: chars::to_string(module), attr })
}

/// The commands that an `entry_points.txt` declares, in their order.
pub fn parse_console_scripts(content: &str) -> (r: Vec<ConsoleScript>)
    ensures
        script_views(r@) == declared_scripts(content@),
{
    let whole = chars::of(content);
    let lines = chars::lines(&whole);
    let ghost texts = chars::slice_views(lines@);
    let mut scripts: Vec<ConsoleScript> = Vec::new();
    let mut inside = false;
    let mut i: usize = 0;
    assert(script_views(scripts@) =~= Seq::empty());
    while i < lines.len()
        invariant
            i <= lines.len(),
            texts == chars::slice_views(lines@),
            (script_views(scripts@), inside) == scanned(texts.take(i as int)),
        decreases lines.len() - i,
    {
        let ghost before = scripts@;
        proof {
            assert(texts.take(i + 1).drop_last() =~= texts.take(i as int));
            assert(texts.take(i + 1).last() == lines@[i as int]@);
        }
        let line = chars::trim(lines[i]);
        if line.len() == 0 || line[0] == '#' || line[0] == ';' {
        } else if line.len() >= 2 && line[0] == '[' && line[line.len() - 1] == ']' {
            let name = chars::ascii_lower(chars::trim(chars::range(line, 1, line.len() - 1)));
            inside = chars::is(&name, "console_scripts") || chars::is(&name, "gui_scripts");
        } else if inside {
            if let Some(s) = parse_script(line) {
                let ghost model = s@;
                scripts.push(s);
                assert(script_views(scripts@) =~= script_views(before).push(model));
            }
        }
        i = i + 1;
    }
    assert(texts.take(i as int) =~= texts);
    scripts
}

// ── Launchers ───────────────────────────────────────────────────────────────
/// The line of a launcher that imports what it calls.
pub open spec fn import_line(s: ScriptModel) -> Seq<char> {
    match s.attr {
        Some(attr) => "from "@ + s.module + " import "@ + text::before(attr, '.'),
        None => "import "@ + s.module,
    }
}

/// What a launcher calls.
pub open spec fn call_target(s: ScriptModel) -> Seq<char> {
    match s.attr {
        Some(attr) => attr,
        None => s.module + ".main"@,
    }
}

/// The text of a launcher that the interpreter at `python` runs.
pub open spec fn launcher_text(python: Seq<char>, s: ScriptModel) -> Seq<char> {
    "#!"@ + text::replace_char(python, '\\', "/"@)
        + "\n# -*- coding: utf-8 -*-\nimport re\nimport sys\n"@ + import_line(s)
        + "\nif __name__ == '__main__':\n    sys.argv[0] = re.sub(r'(-script\\.pyw?|\\.exe)?$', '', sys.argv[0])\n    sys.exit("@
        + call_target(s) + "())\n"@
}

/// The text of the launcher of a command, which the interpreter at `python_exe`
/// runs. The path is written with slashes.
pub fn launcher_source(python_exe: &str, script: &ConsoleScript) -> (r: String)
    ensures
        r@ == launcher_text(python_exe@, script@),
{
    let python = chars::of(python_exe);
    let python = chars::to_string(&chars::replace_char(&python, '\\', "/"));
    let mut import = String::new();
    let mut call = String::new();
    match &script.attr {
        Some(attr) => {
            let whole = chars::of(attr.as_str());
            let top = chars::to_string(chars::before(&whole, '.'));
            import.append("from ");
            import.append(script.module.as_str());
            import.append(" import ");
            import.append(top.as_str());
            call.append(attr.as_str());
            assert(import@ =~= import_line(script@));
            assert(call@ =~= call_target(script@));
        },
        None => {
            import.append("import ");
            import.append(script.module.as_str());
            call.append(script.module.as_str());
            call.append(".main");
            assert(import@ =~= import_line(script@));
            assert(call@ =~= call_target(script@));
        },
    }
    let mut out = String::from_str("#!");
    out.append(python.as_str());
    out.append("\n# -*- coding: utf-8 -*-\nimport re\nimport sys\n");
    out.append(import.as_str());
    out.append(
        "\nif __name__ == '__main__':\n    sys.argv[0] = re.sub(r'(-script\\.pyw?|\\.exe)?$', '', sys.argv[0])\n    sys.exit(",
    );
    out.append(call.as_str());
    out.append("())\n");
    out
}

/// The text of the wrapper that runs the launcher of a command on Windows.
pub open spec fn batch_text(python: Seq<char>, s: ScriptModel) -> Seq<char> {
    "@echo off\r\n\""@ + text::replace_char(python, '/', "\\"@) + "\" \"%~dp0"@ + s.name
        + "-script.py\" %*\r\n"@
}

/// The text of the batch file that runs a launcher on Windows with the
/// interpreter at `python`. The path is written with backslashes.
pub fn batch_source(venv_python: &str, script: &ConsoleScript) -> (r: String)
    ensures
        r@ == batch_text(venv_python@, script@),
{
    let python = chars::of(venv_python);
    let python = chars::to_string(&chars::replace_char(&python, '/', "\\"));
    let mut out = String::from_str("@echo off\r\n\"");
    out.append(python.as_str());
    out.append("\" \"%~dp0");
    out.append(script.name.as_str());
    out.append("-script.py\" %*\r\n");
    out
}

/// An entry of a `site-packages` directory.
#[derive(Debug)]
pub struct SiteEntry {
    pub name: String,
    pub is_dir: bool,
    /// The content of the `entry_points.txt` in it, where there is one.
    pub entry_points: Option<String>,
}

/// The commands that an entry of `site-packages` declares: only the metadata
/// directories of distributions declare any.
pub open spec fn entry_scripts(e: SiteEntry) -> Seq<ScriptModel> {
    if ".dist-info"@.is_suffix_of(e.name@) && e.is_dir {
        match e.entry_points {
            Some(content) => declared_scripts(content@),
            None => Seq::empty(),
        }
    } else {
        Seq::empty()
    }
}

/// The commands that the entries of a `site-packages` directory declare.
pub open spec fn site_scripts(entries: Seq<SiteEntry>) -> Seq<ScriptModel>
    decreases entries.len(),
{
    if entries.len() == 0 {
        Seq::empty()
    } else {
        site_scripts(entries.drop_last()) + entry_scripts(entries.last())
    }
}

/// The commands for which launchers are generated, by the entries of a
/// `site-packages` directory.
pub fn generate_console_scripts(entries: &Vec<SiteEntry>) -> (r: Vec<ConsoleScript>)
    ensures
        script_views(r@) == site_scripts(entries@),
{
    let mut scripts: Vec<ConsoleScript> = Vec::new();
    let mut i: usize = 0;
    assert(script_views(scripts@) =~= Seq::empty());
    while i < entries.len()
        invariant
            i <= entries.len(),
            script_views(scripts@) == site_scripts(entries@.take(i as int)),
        decreases entries.len() - i,
    {
        let e = &entries[i];
        let ghost before = scripts@;
        proof {
            assert(entries@.take(i + 1).drop_last() =~= entries@.take(i as int));
            assert(entries@.take(i + 1).last() == *e);
            assert(script_views(before) + Seq::<ScriptModel>::empty() =~= script_views(before));
        }
        let name = chars::of(e.name.as_str());
        if chars::ends_with(&name, ".dist-info") && e.is_dir {
            if let Some(content) = &e.entry_points {
                let mut found = parse_console_scripts(content.as_str());
                let ghost models = found@;
                scripts.append(&mut found);
                assert(script_views(scripts@) =~= script_views(before) + script_views(models));
            }
        }
        i = i + 1;
    }
    assert(entries@.take(i as int) =~= entries@);
    scripts
}

// ── Files ───────────────────────────────────────────────────────────────────
/// The files of the launcher of a command, in the directory of commands.
pub open spec fn launcher_files(
    bin_dir: Seq<char>,
    python: Seq<char>,
    s: ScriptModel,
    windows: bool,
) -> Seq<ActionModel> {
    if windows {
        seq![
            ActionModel::Write(
                paths::joined(bin_dir, s.name + "-script.py"@),
                launcher_text(python, s),
            ),
            ActionModel::Write(paths::joined(bin_dir, s.name + ".bat"@), batch_text(python, s)),
        ]
    } else {
        seq![
            ActionModel::Write(paths::joined(bin_dir, s.name), launcher_text(python, s)),
            ActionModel::MakeExecutable(paths::joined(bin_dir, s.name)),
        ]
    }
}

/// The files of the launchers of commands.
pub open spec fn all_launcher_files(
    bin_dir: Seq<char>,
    python: Seq<char>,
    scripts: Seq<ScriptModel>,
    windows: bool,
) -> Seq<ActionModel>
    decreases scripts.len(),
{
    if scripts.len() == 0 {
        Seq::empty()
    } else {
        all_launcher_files(bin_dir, python, scripts.drop_last(), windows) + launcher_files(
            bin_dir,
            python,
            scripts.last(),
            windows,
        )
    }
}

/// Adds the steps that write the launcher of a command.
pub fn write_launcher(
    steps: &mut Vec<FsAction>,
    bin_dir: &str,
    venv_python: &str,
    script: &ConsoleScript,
    windows: bool,
)
    ensures
        actions::action_views(final(steps)@) == actions::action_views(old(steps)@)
            + launcher_files(bin_dir@, venv_python@, script@, windows),
{
    let content = launcher_source(venv_python, script);
    if windows {
        let mut script_name = script.name.clone();
        script_name.append("-script.py");
        let mut batch_name = script.name.clone();
        batch_name.append(".bat");
        let path = paths::join(bin_dir, script_name.as_str());
        actions::add_step(steps, FsAction::Write { path, content });
        let path = paths::join(bin_dir, batch_name.as_str());
        let content = batch_source(venv_python, script);
        actions::add_step(steps, FsAction::Write { path, content });
    } else {
        let path = paths::join(bin_dir, script.name.as_str());
        actions::add_step(steps, FsAction::Write { path: path.clone(), content });
        actions::add_step(steps, FsAction::MakeExecutable { path });
    }
    assert(actions::action_views(steps@) =~= actions::action_views(old(steps)@) + launcher_files(
        bin_dir@,
        venv_python@,
        script@,
        windows,
    ));
}

/// The steps that write the launchers of the commands that the entries of a
/// `site-packages` directory declare.
pub fn console_script_steps(
    entries: &Vec<SiteEntry>,
    bin_dir: &str,
    venv_python: &str,
    windows: bool,
) -> (r: Vec<FsAction>)
    ensures
        actions::action_views(r@) == all_launcher_files(
            bin_dir@,
            venv_python@,
            site_scripts(entries@),
            windows,
        ),
{
    let scripts = generate_console_scripts(entries);
    let ghost models = script_views(scripts@);
    let mut steps: Vec<FsAction> = Vec::new();
    let mut i: usize = 0;
    assert(actions::action_views(steps@) =~= all_launcher_files(
        bin_dir@,
        venv_python@,
        models.take(0),
        windows,
    ));
    while i < scripts.len()
        invariant
            i <= scripts.len(),
            models == script_views(scripts@),
            actions::action_views(steps@) == all_launcher_files(
                bin_dir@,
                venv_python@,
                models.take(i as int),
                windows,
            ),
        decreases scripts.len() - i,
    {
        proof {
            assert(models.take(i + 1).drop_last() =~= models.take(i as int));
            assert(models.take(i + 1).last() == scripts@[i as int]@);
        }
        write_launcher(&mut steps, bin_dir, venv_python, &scripts[i], windows);
        i = i + 1;
    }
    assert(models.take(i as int) =~= models);
    steps
}

} // verus!
