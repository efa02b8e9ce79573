//! What the program is asked for, and what the answers are made of.
use vstd::prelude::*;

use crate::chars;
use crate::config;
use crate::extract;
use crate::paths;
use crate::text;

verus! {

/// A call of the program.
#[derive(Debug)]
pub struct Cli {
    pub verbose: bool,
    pub command: Option<Commands>,
}

/// What the program is asked to do.
#[derive(Debug)]
pub enum Commands {
    /// Clone a repository, and set the project up where that is asked for.
    Clone(CloneCmd),
    /// Read the manifests of a project and write its rules.
    Rules(RulesCmd),
    /// Make the environments of a project by its rules.
    Use(UseCmd),
    /// Run a script in the environments of a project.
    Run(RunCmd),
    /// Clone a repository, set the project up and run its scripts.
    Setup(SetupCmd),
    /// Start, stop and watch services.
    Service(ServiceCmd),
    /// Look at the store.
    Store(StoreCmd),
    /// Remove the environments of a project.
    Delete(DeleteCmd),
    /// Take over a project with its installed packages.
    Import(ImportCmd),
    /// Make a project independent of the store.
    Solidify(SolidifyCmd),
    /// Let a project go, with what only it has in the store.
    Eject(EjectCmd),
    /// Open the graphical interface.
    Gui(GuiCmd),
    /// Look for what is wrong.
    Doctor(DoctorCmd),
}

#[derive(Debug)]
pub struct RulesCmd {
    /// Download packages that are in the store too.
    pub force: bool,
    pub path: Option<String>,
}

#[derive(Debug)]
pub struct UseCmd {
    pub rules_path: String,
    /// Remove the environments first.
    pub clean: bool,
}

#[derive(Debug)]
pub struct RunCmd {
    pub script: String,
    pub args: Vec<String>,
    pub path: Option<String>,
    /// Build nothing first.
    pub no_build: bool,
}

#[derive(Debug)]
pub struct StoreCmd {
    pub action: StoreAction,
}

#[derive(Debug)]
pub enum StoreAction {
    /// Print the root of the store.
    Path,
}

#[derive(Debug)]
pub struct DoctorCmd;

#[derive(Debug)]
pub struct GuiCmd {
    pub path: Option<String>,
}

#[derive(Debug)]
pub struct DeleteCmd {
    pub path: Option<String>,
}

#[derive(Debug)]
pub struct CloneCmd {
    pub url: String,
    pub directory: Option<String>,
    /// Set the project up behind the clone.
    pub setup: bool,
}

#[derive(Debug)]
pub struct SetupCmd {
    pub url: String,
    pub directory: Option<String>,
    /// The scripts to run; all of them where none is named.
    pub run: Vec<String>,
    pub no_build: bool,
}

#[derive(Debug)]
pub struct ServiceCmd {
    pub action: ServiceAction,
    pub path: Option<String>,
}

#[derive(Debug)]
pub enum ServiceAction {
    Start { name: Option<String>, port: Option<u16> },
    Stop { name: Option<String> },
    Status,
    Logs { name: String, lines: usize },
}

#[derive(Debug)]
pub struct ImportCmd {
    pub path: Option<String>,
}

#[derive(Debug)]
pub struct SolidifyCmd {
    pub path: Option<String>,
}

#[derive(Debug)]
pub struct EjectCmd {
    pub path: Option<String>,
}

// ── Destinations ────────────────────────────────────────────────────────────
/// The name of a repository by its address.
pub open spec fn repository_name(url: Seq<char>) -> Seq<char> {
    text::trim_end_text(paths::last_part(text::trim_end_set(url, "/"@)), ".git"@)
}

/// The directory into which a repository is cloned: the one that is asked for, or
/// one with the name of the repository.
pub fn clone_destination(url: &str, directory: Option<&str>) -> (r: String)
    ensures
        r@ == match directory {
            Some(d) => d@,
            None => repository_name(url@),
        },
{
    match directory {
        Some(d) => String::from_str(d),
        None => {
            let whole = chars::of(url);
            let trimmed = chars::trim_end_set(&whole, "/");
            proof {
                reveal_strlit(".git");
            }
            chars::to_string(chars::trim_end_text(paths::last_of(trimmed), ".git"))
        },
    }
}

/// The name of a directory of a machine. On Windows a drive or a share is no part of
/// it.
pub open spec fn dir_name(dir: Seq<char>, windows: bool) -> Option<Seq<char>> {
    let path = paths::from_machine(dir, windows);
    extract::file_name(
        if windows {
            paths::behind_volume(path)
        } else {
            path
        },
    )
}

/// The name of a project by its directory.
pub fn project_name(dir: &str, fallback: &str, windows: bool) -> (r: String)
    ensures
        r@ == match dir_name(dir@, windows) {
            Some(name) => name,
            None => fallback@,
        },
{
    let path = chars::of(paths::from_native(dir, windows).as_str());
    let name = if windows {
        extract::name_of(paths::without_volume(&path))
    } else {
        extract::name_of(&path)
    };
    match name {
        Some(name) => name,
        None => String::from_str(fallback),
    }
}

// ── Scripts ─────────────────────────────────────────────────────────────────
/// The names of scripts.
pub open spec fn script_names(scripts: Seq<(Seq<char>, Seq<char>)>) -> Seq<Seq<char>> {
    Seq::new(scripts.len(), |i: int| scripts[i].0)
}

/// The scripts that are run behind a setup: those that are named, or all of them.
pub fn scripts_to_run(named: &Vec<String>, scripts: &Vec<(String, String)>) -> (r: Vec<String>)
    ensures
        text::views(r@) == if named@.len() > 0 {
            text::views(named@)
        } else {
            script_names(config::script_views(scripts@))
        },
{
    let mut out: Vec<String> = Vec::new();
    let mut i: usize = 0;
    if named.len() > 0 {
        while i < named.len()
            invariant
                i <= named.len(),
                out@.len() == i,
                forall|k: int| 0 <= k < i ==> (#[trigger] out@[k])@ == named@[k]@,
            decreases named.len() - i,
        {
            out.push(named[i].clone());
            i = i + 1;
        }
        assert(text::views(out@) =~= text::views(named@));
    } else {
        while i < scripts.len()
            invariant
                i <= scripts.len(),
                out@.len() == i,
                forall|k: int| 0 <= k < i ==> (#[trigger] out@[k])@ == scripts@[k].0@,
            decreases scripts.len() - i,
        {
            out.push(scripts[i].0.clone());
            i = i + 1;
        }
        assert(text::views(out@) =~= script_names(config::script_views(scripts@)));
    }
    out
}

} // verus!
