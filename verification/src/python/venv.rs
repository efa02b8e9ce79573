//! The environment of a project, `.venv`: what is put into it, and how a new one
//! takes the place of an old one.
use vstd::prelude::*;

use crate::actions;
use crate::actions::ActionModel;
use crate::actions::FsAction;
use crate::chars;
use crate::config;
use crate::config::KongRules;
use crate::config::PackageEntry;
use crate::config::PythonSection;
use crate::paths;
use crate::text;

verus! {

// ── Names ───────────────────────────────────────────────────────────────────
/// The directory of the environment of a project.
pub open spec fn venv_path(project_dir: Seq<char>) -> Seq<char> {
    paths::joined(project_dir, ".venv"@)
}

/// The directory beside an environment in which its successor is built. The
/// number of the process keeps two runs apart.
pub open spec fn temp_path(venv: Seq<char>, pid: nat) -> Seq<char> {
    paths::joined(paths::parent_part(venv), ".venv.kong-tmp-"@ + text::decimal(pid))
}

/// The directory to which an environment is moved before its successor takes its
/// place.
pub open spec fn aside_path(venv: Seq<char>, pid: nat) -> Seq<char> {
    paths::joined(paths::parent_part(venv), ".venv.kong-old-"@ + text::decimal(pid))
}

/// The directory in which an environment will be when it is in use.
pub open spec fn final_path(venv: Seq<char>) -> Seq<char> {
    if ".venv.kong-tmp-"@.is_prefix_of(paths::last_part(venv)) {
        paths::joined(paths::parent_part(venv), ".venv"@)
    } else {
        venv
    }
}

fn numbered(prefix: &str, pid: u32) -> (r: String)
    ensures
        r@ == prefix@ + text::decimal(pid as nat),
{
    let mut name = String::from_str(prefix);
    let digits = chars::to_string(&chars::decimal(pid as u128));
    name.append(digits.as_str());
    name
}

/// The directory beside an environment in which its successor is built.
pub fn temp_sibling(venv: &str, pid: u32) -> (r: String)
    ensures
        r@ == temp_path(venv@, pid as nat),
{
    let parent = paths::parent_of(venv);
    paths::join(parent.as_str(), numbered(".venv.kong-tmp-", pid).as_str())
}

/// The directory to which an environment is moved before its successor takes its
/// place.
pub fn aside_sibling(venv: &str, pid: u32) -> (r: String)
    ensures
        r@ == aside_path(venv@, pid as nat),
{
    let parent = paths::parent_of(venv);
    paths::join(parent.as_str(), numbered(".venv.kong-old-", pid).as_str())
}

/// The directory in which an environment will be when it is in use.
pub fn final_venv_path(venv: &str) -> (r: String)
    ensures
        r@ == final_path(venv@),
{
    let whole = chars::of(venv);
    if chars::starts_with(paths::last_of(&whole), ".venv.kong-tmp-") {
        let parent = paths::parent_of(venv);
        paths::join(parent.as_str(), ".venv")
    } else {
        String::from_str(venv)
    }
}

/// What is built beside an environment is built for the place of that environment.
pub proof fn built_for_its_final_place(dir: Seq<char>, pid: nat)
    requires
        dir.len() > 0,
        dir.last() != '/',
    ensures
        final_path(temp_path(venv_path(dir), pid)) == venv_path(dir),
{
    reveal_strlit("/");
    reveal_strlit(".venv");
    reveal_strlit(".venv.kong-tmp-");
    digits_have_no_slash(pid);
    let name = ".venv.kong-tmp-"@ + text::decimal(pid);
    assert(dir + "/"@ + ".venv"@ == dir + ("/"@ + ".venv"@));
    parent_of_joined(dir, ".venv"@);
    parent_of_joined(dir, name);
    assert(".venv.kong-tmp-"@.is_prefix_of(name));
}

proof fn digits_have_no_slash(n: nat)
    ensures
        forall|i: int| 0 <= i < text::decimal(n).len() ==> #[trigger] text::decimal(n)[i] != '/',
    decreases n,
{
    assert(text::digit_char(n % 10) != '/');
    if n >= 10 {
        digits_have_no_slash(n / 10);
    }
    assert forall|i: int| 0 <= i < text::decimal(n).len() implies #[trigger] text::decimal(n)[i]
        != '/' by {
        if n >= 10 && i < text::decimal(n / 10).len() {
            assert(text::decimal(n)[i] == text::decimal(n / 10)[i]);
        }
    }
}

proof fn no_slash_behind(s: Seq<char>, n: int, i: int)
    requires
        0 <= n < i <= s.len(),
        s[n] == '/',
        forall|j: int| n < j < s.len() ==> #[trigger] s[j] != '/',
    ensures
        text::rfind_before(s, '/', i) == Some(n),
    decreases i,
{
    if i - 1 > n {
        no_slash_behind(s, n, i - 1);
    }
}

/// A name in a directory is the last part of its path, and the directory is what
/// stands before it.
proof fn parent_of_joined(dir: Seq<char>, name: Seq<char>)
    requires
        dir.len() > 0,
        dir.last() != '/',
        name.len() > 0,
        forall|i: int| 0 <= i < name.len() ==> #[trigger] name[i] != '/',
    ensures
        paths::parent_part(paths::joined(dir, name)) == dir,
        paths::last_part(paths::joined(dir, name)) == name,
{
    reveal_strlit("/");
    let s = paths::joined(dir, name);
    let n = dir.len() as int;
    assert(s[n] == '/');
    assert forall|j: int| n < j < s.len() implies #[trigger] s[j] != '/' by {
        assert(s[j] == name[j - n - 1]);
    }
    no_slash_behind(s, n, s.len() as int);
    assert(s.take(n) =~= dir);
    assert(s.skip(n + 1) =~= name);
}

/// The directory of the packages in an environment.
pub open spec fn site_path(venv: Seq<char>, version: Seq<char>, windows: bool) -> Seq<char> {
    if windows {
        paths::joined(paths::joined(venv, "Lib"@), "site-packages"@)
    } else {
        paths::joined(
            paths::joined(
                paths::joined(venv, "lib"@),
                "python"@ + config::minor_version(version),
            ),
            "site-packages"@,
        )
    }
}

/// The directory of the commands in an environment.
pub open spec fn bin_path(venv: Seq<char>, windows: bool) -> Seq<char> {
    if windows {
        paths::joined(venv, "Scripts"@)
    } else {
        paths::joined(venv, "bin"@)
    }
}

/// The interpreter of an environment.
pub open spec fn python_in(venv: Seq<char>, windows: bool) -> Seq<char> {
    if windows {
        paths::joined(bin_path(venv, windows), "python.exe"@)
    } else {
        paths::joined(bin_path(venv, windows), "python"@)
    }
}

/// The directory of the packages in an environment for a Python version.
pub fn site_packages(venv: &str, version: &str, windows: bool) -> (r: String)
    ensures
        r@ == site_path(venv@, version@, windows),
{
    if windows {
        paths::join(paths::join(venv, "Lib").as_str(), "site-packages")
    } else {
        let mut name = String::from_str("python");
        name.append(config::major_minor(version).as_str());
        let lib = paths::join(venv, "lib");
        paths::join(paths::join(lib.as_str(), name.as_str()).as_str(), "site-packages")
    }
}

/// The directory of the commands in an environment.
pub fn bin_dir(venv: &str, windows: bool) -> (r: String)
    ensures
        r@ == bin_path(venv@, windows),
{
    if windows {
        paths::join(venv, "Scripts")
    } else {
        paths::join(venv, "bin")
    }
}

/// The interpreter of an environment.
pub fn venv_python(venv: &str, windows: bool) -> (r: String)
    ensures
        r@ == python_in(venv@, windows),
{
    let bin = bin_dir(venv, windows);
    if windows {
        paths::join(bin.as_str(), "python.exe")
    } else {
        paths::join(bin.as_str(), "python")
    }
}

// ── Texts ───────────────────────────────────────────────────────────────────
/// The activation script for shells, before the path of the environment.
pub const UNIX_HEAD: &'static str = "# KONG-generated Python venv activation script\nVIRTUAL_ENV=\"";

/// The activation script for shells, behind the path of the environment.
pub const UNIX_TAIL: &'static str = "\"\nexport VIRTUAL_ENV\n\n_KONG_OLD_PATH=\"$PATH\"\nPATH=\"$VIRTUAL_ENV/bin:$PATH\"\nexport PATH\n\n_KONG_OLD_PS1=\"${PS1:-}\"\nPS1=\"(.venv) ${PS1:-}\"\nexport PS1\n\ndeactivate() {\n    PATH=\"$_KONG_OLD_PATH\"\n    export PATH\n    PS1=\"$_KONG_OLD_PS1\"\n    export PS1\n    unset VIRTUAL_ENV _KONG_OLD_PATH _KONG_OLD_PS1\n    unset -f deactivate\n}\n";

/// The activation script for PowerShell, before the path of the environment.
pub const POWERSHELL_HEAD: &'static str = "# KONG-generated Python venv activation script\n$script:VENV = \"";

/// The activation script for PowerShell, behind the path of the environment.
pub const POWERSHELL_TAIL: &'static str = "\"\n\nfunction global:deactivate([switch]$NonDestructive) {\n    if (Test-Path Env:_KONG_OLD_PATH) {\n        $env:PATH = $env:_KONG_OLD_PATH\n        Remove-Item Env:_KONG_OLD_PATH -ErrorAction SilentlyContinue\n    }\n    if (Test-Path Function:_KONG_OLD_PROMPT) {\n        Copy-Item Function:_KONG_OLD_PROMPT Function:prompt\n        Remove-Item Function:_KONG_OLD_PROMPT -ErrorAction SilentlyContinue\n    }\n    Remove-Item Env:VIRTUAL_ENV -ErrorAction SilentlyContinue\n    Remove-Item Env:VIRTUAL_ENV_PROMPT -ErrorAction SilentlyContinue\n    if (!$NonDestructive) { Remove-Item Function:deactivate -ErrorAction SilentlyContinue }\n}\n\ndeactivate -NonDestructive\n\n$env:VIRTUAL_ENV = $script:VENV\n$env:VIRTUAL_ENV_PROMPT = \".venv\"\n$env:_KONG_OLD_PATH = $env:PATH\n$env:PATH = \"$env:VIRTUAL_ENV\\Scripts;$env:PATH\"\n\nCopy-Item Function:prompt Function:_KONG_OLD_PROMPT -ErrorAction SilentlyContinue\nfunction global:prompt {\n    Write-Host -NoNewline -ForegroundColor Green \"(.venv) \"\n    & $Function:_KONG_OLD_PROMPT\n}\n";

/// The activation script for the command interpreter of Windows, before the path
/// of the environment.
pub const BATCH_HEAD: &'static str = "@echo off\r\nset \"VIRTUAL_ENV=";

/// The activation script for the command interpreter of Windows, behind the path
/// of the environment.
pub const BATCH_TAIL: &'static str = "\"\r\nset \"PATH=%VIRTUAL_ENV%\\Scripts;%PATH%\"\r\n";

/// The content of `pyvenv.cfg`.
pub open spec fn cfg_text(home: Seq<char>, version: Seq<char>) -> Seq<char> {
    "home = "@ + home + "\ninclude-system-site-packages = false\nversion = "@ + version + "\n"@
}

/// The content of `pyvenv.cfg` for an interpreter in the directory `home`.
pub fn pyvenv_cfg(home: &str, version: &str) -> (r: String)
    ensures
        r@ == cfg_text(home@, version@),
{
    let mut out = String::from_str("home = ");
    out.append(home);
    out.append("\ninclude-system-site-packages = false\nversion = ");
    out.append(version);
    out.append("\n");
    out
}

fn around(head: &str, middle: &str, tail: &str) -> (r: String)
    ensures
        r@ == head@ + middle@ + tail@,
{
    let mut out = String::from_str(head);
    out.append(middle);
    out.append(tail);
    out
}

// ── Building ────────────────────────────────────────────────────────────────
/// The directory of an interpreter, or nothing where there is none.
pub open spec fn home_of(exe: Option<Seq<char>>) -> Seq<char> {
    match exe {
        Some(e) => paths::parent_part(e),
        None => Seq::empty(),
    }
}

/// The steps that make an environment, but for its packages. Whatever path is
/// written into it is the one that it will have when it is in use.
pub open spec fn frame_steps(
    venv: Seq<char>,
    version: Seq<char>,
    exe: Option<Seq<char>>,
    windowed: bool,
    windows: bool,
) -> Seq<ActionModel> {
    let bin = bin_path(venv, windows);
    let start = seq![
        ActionModel::CreateDir(site_path(venv, version, windows)),
        ActionModel::Write(paths::joined(venv, "pyvenv.cfg"@), cfg_text(home_of(exe), version)),
        ActionModel::CreateDir(bin),
    ];
    if windows {
        start + interpreter_files(bin, exe, windowed) + seq![
            ActionModel::WriteNew(
                paths::joined(bin, "Activate.ps1"@),
                POWERSHELL_HEAD@ + final_path(venv) + POWERSHELL_TAIL@,
                false,
            ),
            ActionModel::WriteNew(
                paths::joined(bin, "activate.bat"@),
                BATCH_HEAD@ + final_path(venv) + BATCH_TAIL@,
                false,
            ),
        ]
    } else {
        start + interpreter_links(bin, exe) + seq![
            ActionModel::WriteNew(
                paths::joined(bin, "activate"@),
                UNIX_HEAD@ + final_path(venv) + UNIX_TAIL@,
                true,
            ),
        ]
    }
}

/// The links to the interpreter in the directory of commands.
pub open spec fn interpreter_links(bin: Seq<char>, exe: Option<Seq<char>>) -> Seq<ActionModel> {
    match exe {
        Some(e) => seq![
            ActionModel::Symlink(paths::joined(bin, "python3"@), e),
            ActionModel::Symlink(paths::joined(bin, "python"@), e),
        ],
        None => Seq::empty(),
    }
}

/// The interpreter in the directory of commands on Windows, and beside it the one
/// without a console, where the runtime has that.
pub open spec fn interpreter_files(
    bin: Seq<char>,
    exe: Option<Seq<char>>,
    windowed: bool,
) -> Seq<ActionModel> {
    match exe {
        Some(e) => {
            let console = seq![ActionModel::PlaceFile(paths::joined(bin, "python.exe"@), e)];
            if windowed {
                console + seq![
                    ActionModel::PlaceFile(
                        paths::joined(bin, "pythonw.exe"@),
                        paths::joined(paths::parent_part(e), "pythonw.exe"@),
                    ),
                ]
            } else {
                console
            }
        },
        None => Seq::empty(),
    }
}

/// The steps that put packages into the directory of packages. One that is not in
/// the store is left out.
pub open spec fn package_steps(
    packages: Seq<PackageEntry>,
    site: Seq<char>,
    store_root: Seq<char>,
    in_store: Seq<Seq<char>>,
) -> Seq<ActionModel>
    decreases packages.len(),
{
    if packages.len() == 0 {
        Seq::empty()
    } else {
        let front = package_steps(packages.drop_last(), site, store_root, in_store);
        let store_path = packages.last().store_path@;
        if in_store.contains(store_path) {
            front.push(ActionModel::LinkTree(site, paths::joined(store_root, store_path)))
        } else {
            front
        }
    }
}

/// The steps that make a whole environment, but for the launchers of commands.
pub open spec fn venv_steps(
    venv: Seq<char>,
    python: PythonSection,
    store_root: Seq<char>,
    in_store: Seq<Seq<char>>,
    exe: Option<Seq<char>>,
    windowed: bool,
    windows: bool,
) -> Seq<ActionModel> {
    frame_steps(venv, python.version@, exe, windowed, windows) + package_steps(
        python.packages@,
        site_path(venv, python.version@, windows),
        store_root,
        in_store,
    )
}

fn add_interpreter(
    steps: &mut Vec<FsAction>,
    bin: &str,
    exe: Option<&str>,
    windowed: bool,
    windows: bool,
)
    ensures
        actions::action_views(final(steps)@) == actions::action_views(old(steps)@) + if windows {
            interpreter_files(bin@, text::opt_str_view(exe), windowed)
        } else {
            interpreter_links(bin@, text::opt_str_view(exe))
        },
{
    if let Some(e) = exe {
        if windows {
            let path = paths::join(bin, "python.exe");
            actions::add_step(steps, FsAction::PlaceFile { path, source: String::from_str(e) });
            if windowed {
                let path = paths::join(bin, "pythonw.exe");
                let source = paths::join(paths::parent_of(e).as_str(), "pythonw.exe");
                actions::add_step(steps, FsAction::PlaceFile { path, source });
            }
        } else {
            let path = paths::join(bin, "python3");
            actions::add_step(steps, FsAction::Symlink { path, target: String::from_str(e) });
            let path = paths::join(bin, "python");
            actions::add_step(steps, FsAction::Symlink { path, target: String::from_str(e) });
        }
    }
    assert(actions::action_views(steps@) =~= actions::action_views(old(steps)@) + if windows {
        interpreter_files(bin@, text::opt_str_view(exe), windowed)
    } else {
        interpreter_links(bin@, text::opt_str_view(exe))
    });
}

fn add_frame(
    steps: &mut Vec<FsAction>,
    venv: &str,
    version: &str,
    exe: Option<&str>,
    windowed: bool,
    windows: bool,
)
    ensures
        actions::action_views(final(steps)@) == actions::action_views(old(steps)@) + frame_steps(
            venv@,
            version@,
            text::opt_str_view(exe),
            windowed,
            windows,
        ),
{
    let path = site_packages(venv, version, windows);
    actions::add_step(steps, FsAction::CreateDir { path });
    let home = match exe {
        Some(e) => paths::parent_of(e),
        None => String::new(),
    };
    let path = paths::join(venv, "pyvenv.cfg");
    let content = pyvenv_cfg(home.as_str(), version);
    actions::add_step(steps, FsAction::Write { path, content });
    let bin = bin_dir(venv, windows);
    actions::add_step(steps, FsAction::CreateDir { path: bin.clone() });
    add_interpreter(steps, bin.as_str(), exe, windowed, windows);
    let place = final_venv_path(venv);
    if windows {
        let path = paths::join(bin.as_str(), "Activate.ps1");
        let content = around(POWERSHELL_HEAD, place.as_str(), POWERSHELL_TAIL);
        actions::add_step(steps, FsAction::WriteNew { path, content, executable: false });
        let path = paths::join(bin.as_str(), "activate.bat");
        let content = around(BATCH_HEAD, place.as_str(), BATCH_TAIL);
        actions::add_step(steps, FsAction::WriteNew { path, content, executable: false });
    } else {
        let path = paths::join(bin.as_str(), "activate");
        let content = around(UNIX_HEAD, place.as_str(), UNIX_TAIL);
        actions::add_step(steps, FsAction::WriteNew { path, content, executable: true });
    }
    assert(actions::action_views(steps@) =~= actions::action_views(old(steps)@) + frame_steps(
        venv@,
        version@,
        text::opt_str_view(exe),
        windowed,
        windows,
    ));
}

fn add_packages(
    steps: &mut Vec<FsAction>,
    packages: &Vec<PackageEntry>,
    site: &str,
    store_root: &str,
    in_store: &[String],
)
    ensures
        actions::action_views(final(steps)@) == actions::action_views(old(steps)@) + package_steps(
            packages@,
            site@,
            store_root@,
            text::views(in_store@),
        ),
{
    let ghost start = actions::action_views(steps@);
    let mut i: usize = 0;
    assert(start =~= start + package_steps(
        packages@.take(0),
        site@,
        store_root@,
        text::views(in_store@),
    ));
    while i < packages.len()
        invariant
            i <= packages.len(),
            start == actions::action_views(old(steps)@),
            actions::action_views(steps@) == start + package_steps(
                packages@.take(i as int),
                site@,
                store_root@,
                text::views(in_store@),
            ),
        decreases packages.len() - i,
    {
        let ghost before = actions::action_views(steps@);
        proof {
            assert(packages@.take(i + 1).drop_last() =~= packages@.take(i as int));
            assert(packages@.take(i + 1).last() == packages@[i as int]);
        }
        let store_path = packages[i].store_path.as_str();
        if paths::listed(in_store, store_path) {
            let source = paths::join(store_root, store_path);
            actions::add_step(steps, FsAction::LinkTree { path: String::from_str(site), source });
        }
        i = i + 1;
        assert(actions::action_views(steps@) =~= start + package_steps(
            packages@.take(i as int),
            site@,
            store_root@,
            text::views(in_store@),
        ));
    }
    assert(packages@.take(i as int) =~= packages@);
}

/// The steps that make an environment in the directory `venv`, but for the
/// launchers of commands: these depend on what the packages declare once they are
/// there. `exe` is the interpreter in the store, `windowed` says that there is
/// one without a console beside it, and `in_store` lists the packages that are in
/// the store.
pub fn build_venv_at(
    venv: &str,
    python: &PythonSection,
    store_root: &str,
    in_store: &[String],
    exe: Option<&str>,
    windowed: bool,
    windows: bool,
) -> (r: Vec<FsAction>)
    ensures
        actions::action_views(r@) == venv_steps(
            venv@,
            *python,
            store_root@,
            text::views(in_store@),
            text::opt_str_view(exe),
            windowed,
            windows,
        ),
{
    let mut steps: Vec<FsAction> = Vec::new();
    assert(actions::action_views(steps@) =~= Seq::empty());
    add_frame(&mut steps, venv, python.version.as_str(), exe, windowed, windows);
    assert(actions::action_views(steps@) =~= frame_steps(
        venv@,
        python.version@,
        text::opt_str_view(exe),
        windowed,
        windows,
    ));
    let site = site_packages(venv, python.version.as_str(), windows);
    add_packages(&mut steps, &python.packages, site.as_str(), store_root, in_store);
    steps
}

/// How an environment is made.
#[derive(Debug)]
pub struct VenvPlan {
    /// The directory of the environment when it is in use.
    pub venv: String,
    /// The directory in which it is built.
    pub temp: String,
    /// The steps that build it there.
    pub steps: Vec<FsAction>,
}

/// How the environment of a project is made: in a directory beside the one that
/// is in use. `leftover` says that something is there from an earlier attempt. The
/// exchange of the two is then up to [`atomic_swap_venv`].
pub fn build_venv(
    project_dir: &str,
    pid: u32,
    leftover: bool,
    python: &PythonSection,
    store_root: &str,
    in_store: &[String],
    exe: Option<&str>,
    windowed: bool,
    windows: bool,
) -> (r: VenvPlan)
    ensures
        r.venv@ == venv_path(project_dir@),
        r.temp@ == temp_path(venv_path(project_dir@), pid as nat),
        actions::action_views(r.steps@) == (if leftover {
            seq![ActionModel::RemoveTree(r.temp@)]
        } else {
            Seq::empty()
        }) + venv_steps(
            r.temp@,
            *python,
            store_root@,
            text::views(in_store@),
            text::opt_str_view(exe),
            windowed,
            windows,
        ),
{
    let venv = paths::join(project_dir, ".venv");
    let temp = temp_sibling(venv.as_str(), pid);
    let mut steps: Vec<FsAction> = Vec::new();
    if leftover {
        steps.push(FsAction::RemoveTree { path: temp.clone() });
    }
    let ghost start = actions::action_views(steps@);
    let mut build = build_venv_at(
        temp.as_str(),
        python,
        store_root,
        in_store,
        exe,
        windowed,
        windows,
    );
    let ghost built = actions::action_views(build@);
    let ghost all = steps@ + build@;
    steps.append(&mut build);
    assert(steps@ =~= all);
    assert(actions::action_views(steps@) =~= start + built);
    assert(start =~= if leftover {
        seq![ActionModel::RemoveTree(temp@)]
    } else {
        Seq::empty()
    });
    VenvPlan { venv, temp, steps }
}

/// The directory of the Python runtime that the rules name, in the store.
pub open spec fn runtime_dir(rules: KongRules, store_root: Seq<char>) -> Option<Seq<char>> {
    match rules.runtimes {
        Some(section) => match section.python {
            Some(runtime) => Some(paths::joined(store_root, runtime.store_path@)),
            None => None,
        },
        None => None,
    }
}

/// The directory of the Python runtime that the rules name, in the store.
pub fn python_runtime_dir(store_root: &str, rules: &KongRules) -> (r: Option<String>)
    ensures
        text::opt_view(r) == runtime_dir(*rules, store_root@),
{
    match &rules.runtimes {
        Some(section) => match &section.python {
            Some(runtime) => Some(paths::join(store_root, runtime.store_path.as_str())),
            None => None,
        },
        None => None,
    }
}

// ── Taking the place of an old environment ──────────────────────────────────
/// A step of the exchange of environments.
#[derive(Debug, Clone, Copy, PartialEq, Eq, Structural)]
pub enum SwapStep {
    /// Look whether there is an environment in use.
    LookForLive,
    /// Move the new environment to its place, where there was none.
    MoveInFirst,
    /// Look whether something is left where the old environment goes.
    LookForAside,
    /// Remove what is left there.
    ClearAside,
    /// Move the old environment aside.
    MoveAside,
    /// Move the new environment to the place of the old one.
    MoveIn,
    /// Remove the old environment.
    RemoveOld,
    /// Move the old environment back.
    RollBack,
    /// The new environment is in use.
    Done,
    /// The new environment could not be moved to its place.
    FailedToMoveIn,
    /// The old environment could not be moved aside.
    FailedToMoveAside,
    /// The new environment could not take the place of the old one.
    FailedToReplace,
}

/// Which environments are where: in use, built beside it, and moved aside.
pub struct Places {
    pub live: Option<int>,
    pub fresh: Option<int>,
    pub aside: Option<int>,
}

/// The exchange has come to its end.
pub open spec fn is_end(step: SwapStep) -> bool {
    step is Done || step is FailedToMoveIn || step is FailedToMoveAside || step is FailedToReplace
}

/// What may come of a step: a look finds what is there, and moving an environment
/// works only where one is there and nothing stands in its way.
pub open spec fn may_come(step: SwapStep, p: Places, outcome: bool) -> bool {
    match step {
        SwapStep::LookForLive => outcome == (p.live is Some),
        SwapStep::LookForAside => outcome == (p.aside is Some),
        SwapStep::MoveInFirst => outcome ==> p.fresh is Some && p.live is None,
        SwapStep::MoveIn => outcome ==> p.fresh is Some && p.live is None,
        SwapStep::MoveAside => outcome ==> p.live is Some && p.aside is None,
        SwapStep::RollBack => outcome ==> p.aside is Some && p.live is None,
        _ => true,
    }
}

/// Which environments are where when a step has been taken.
pub open spec fn after_step(step: SwapStep, p: Places, outcome: bool) -> Places {
    if !outcome {
        p
    } else {
        match step {
            SwapStep::MoveInFirst => Places { live: p.fresh, fresh: None, ..p },
            SwapStep::MoveIn => Places { live: p.fresh, fresh: None, ..p },
            SwapStep::MoveAside => Places { live: None, aside: p.live, ..p },
            SwapStep::ClearAside => Places { aside: None, ..p },
            SwapStep::RemoveOld => Places { aside: None, ..p },
            SwapStep::RollBack => Places { live: p.aside, aside: None, ..p },
            _ => p,
        }
    }
}

/// The step that follows a step, by what came of it. That something is left aside
/// or that the old environment cannot be removed is no failure.
pub open spec fn following(step: SwapStep, outcome: bool) -> SwapStep {
    match step {
        SwapStep::LookForLive => if outcome {
            SwapStep::LookForAside
        } else {
            SwapStep::MoveInFirst
        },
        SwapStep::MoveInFirst => if outcome {
            SwapStep::Done
        } else {
            SwapStep::FailedToMoveIn
        },
        SwapStep::LookForAside => if outcome {
            SwapStep::ClearAside
        } else {
            SwapStep::MoveAside
        },
        SwapStep::ClearAside => SwapStep::MoveAside,
        SwapStep::MoveAside => if outcome {
            SwapStep::MoveIn
        } else {
            SwapStep::FailedToMoveAside
        },
        SwapStep::MoveIn => if outcome {
            SwapStep::RemoveOld
        } else {
            SwapStep::RollBack
        },
        SwapStep::RemoveOld => SwapStep::Done,
        SwapStep::RollBack => SwapStep::FailedToReplace,
        _ => step,
    }
}

/// The step that follows a step of the exchange, by what came of it: whether it
/// was done, or whether something was found.
pub fn atomic_swap_venv(step: SwapStep, outcome: bool) -> (r: SwapStep)
    ensures
        r == following(step, outcome),
{
    match step {
        SwapStep::LookForLive => if outcome {
            SwapStep::LookForAside
        } else {
            SwapStep::MoveInFirst
        },
        SwapStep::MoveInFirst => if outcome {
            SwapStep::Done
        } else {
            SwapStep::FailedToMoveIn
        },
        SwapStep::LookForAside => if outcome {
            SwapStep::ClearAside
        } else {
            SwapStep::MoveAside
        },
        SwapStep::ClearAside => SwapStep::MoveAside,
        SwapStep::MoveAside => if outcome {
            SwapStep::MoveIn
        } else {
            SwapStep::FailedToMoveAside
        },
        SwapStep::MoveIn => if outcome {
            SwapStep::RemoveOld
        } else {
            SwapStep::RollBack
        },
        SwapStep::RemoveOld => SwapStep::Done,
        SwapStep::RollBack => SwapStep::FailedToReplace,
        SwapStep::Done => SwapStep::Done,
        SwapStep::FailedToMoveIn => SwapStep::FailedToMoveIn,
        SwapStep::FailedToMoveAside => SwapStep::FailedToMoveAside,
        SwapStep::FailedToReplace => SwapStep::FailedToReplace,
    }
}

/// What holds at each step of an exchange of the environment `new` for the
/// environment `old`, if there was one.
pub open spec fn swap_invariant(step: SwapStep, p: Places, old_env: Option<int>, new: int) -> bool {
    match step {
        SwapStep::LookForLive => p.live == old_env && p.fresh == Some(new),
        SwapStep::MoveInFirst => old_env is None && p.live is None && p.fresh == Some(new),
        SwapStep::LookForAside => old_env is Some && p.live == old_env && p.fresh == Some(new),
        SwapStep::ClearAside => old_env is Some && p.live == old_env && p.fresh == Some(new),
        SwapStep::MoveAside => old_env is Some && p.live == old_env && p.fresh == Some(new),
        SwapStep::MoveIn => old_env is Some && p.live is None && p.aside == old_env && p.fresh
            == Some(new),
        SwapStep::RemoveOld => old_env is Some && p.live == Some(new) && p.aside == old_env
            && p.fresh is None,
        SwapStep::RollBack => old_env is Some && p.live is None && p.aside == old_env && p.fresh
            == Some(new),
        SwapStep::Done => p.live == Some(new) && p.fresh is None,
        SwapStep::FailedToMoveIn => old_env is None && p.live is None && p.fresh == Some(new),
        SwapStep::FailedToMoveAside => old_env is Some && p.live == old_env && p.fresh
            == Some(new),
        SwapStep::FailedToReplace => old_env is Some && p.fresh == Some(new) && (p.live == old_env
            || (p.live is None && p.aside == old_env)),
    }
}

/// Whatever comes of a step of an exchange, no environment is lost: what is in
/// use stays the old environment until it is moved aside, the old one is removed
/// only when the new one is in use, and where the new one cannot be moved the old
/// one is moved back.
pub proof fn swap_loses_nothing(
    step: SwapStep,
    p: Places,
    outcome: bool,
    old_env: Option<int>,
    new: int,
)
    requires
        swap_invariant(step, p, old_env, new),
        may_come(step, p, outcome),
    ensures
        swap_invariant(following(step, outcome), after_step(step, p, outcome), old_env, new),
{
}

/// An environment is missing only between the two moves: where one was in use,
/// one is in use at every other step, but for an exchange in which the old one
/// could not even be moved back.
pub proof fn live_is_missing_only_between_moves(
    step: SwapStep,
    p: Places,
    old_env: Option<int>,
    new: int,
)
    requires
        swap_invariant(step, p, old_env, new),
        old_env is Some,
        p.live is None,
    ensures
        step is MoveIn || step is RollBack || (step is FailedToReplace && p.aside == old_env),
{
}

/// The steps that are at most still to come.
pub open spec fn steps_left(step: SwapStep) -> nat {
    match step {
        SwapStep::LookForLive => 6,
        SwapStep::LookForAside => 5,
        SwapStep::ClearAside => 4,
        SwapStep::MoveAside => 3,
        SwapStep::MoveIn => 2,
        SwapStep::RemoveOld => 1,
        SwapStep::RollBack => 1,
        SwapStep::MoveInFirst => 1,
        _ => 0,
    }
}

/// An exchange comes to its end.
pub proof fn swap_ends(step: SwapStep, outcome: bool)
    ensures
        !is_end(step) ==> steps_left(following(step, outcome)) < steps_left(step),
        is_end(step) <==> steps_left(step) == 0,
{
}

/// What an undisturbed exchange comes to from a step on: looks find what is there,
/// and everything else is done.
pub open spec fn undisturbed(step: SwapStep, p: Places) -> (SwapStep, Places)
    decreases steps_left(step),
{
    if is_end(step) {
        (step, p)
    } else {
        let outcome = match step {
            SwapStep::LookForLive => p.live is Some,
            SwapStep::LookForAside => p.aside is Some,
            _ => true,
        };
        undisturbed(following(step, outcome), after_step(step, p, outcome))
    }
}

/// Where every step can be done, the new environment is in use in the end, and
/// nothing is left of the old one.
pub proof fn undisturbed_swap_succeeds(p: Places, new: int)
    requires
        p.fresh == Some(new),
    ensures
        ({
            let (step, q) = undisturbed(SwapStep::LookForLive, p);
            &&& step is Done
            &&& q.live == Some(new)
            &&& q.fresh is None
            &&& p.live is Some ==> q.aside is None
            &&& p.live is None ==> q.aside == p.aside
        }),
{
    reveal_with_fuel(undisturbed, 7);
}

/// What an exchange that failed is answered with, or nothing for one that did not.
pub fn swap_error(step: SwapStep, temp_venv: &str, final_venv: &str) -> (r: Option<String>)
    ensures
        text::opt_view(r) == match step {
            SwapStep::FailedToMoveIn => Some(
                "swap failed: "@ + temp_venv@ + " -> "@ + final_venv@,
            ),
            SwapStep::FailedToMoveAside => Some(
                "could not move old .venv aside: "@ + final_venv@,
            ),
            SwapStep::FailedToReplace => Some(
                "swap failed (old .venv restored): "@ + temp_venv@ + " -> "@ + final_venv@,
            ),
            _ => None,
        },
{
    match step {
        SwapStep::FailedToMoveIn => {
            let mut out = String::from_str("swap failed: ");
            out.append(temp_venv);
            out.append(" -> ");
            out.append(final_venv);
            Some(out)
        },
        SwapStep::FailedToMoveAside => {
            let mut out = String::from_str("could not move old .venv aside: ");
            out.append(final_venv);
            Some(out)
        },
        SwapStep::FailedToReplace => {
            let mut out = String::from_str("swap failed (old .venv restored): ");
            out.append(temp_venv);
            out.append(" -> ");
            out.append(final_venv);
            Some(out)
        },
        _ => None,
    }
}

// ── Building beside the environment in use ──────────────────────────────────
/// The path lies in the directory.
pub open spec fn lies_in(path: Seq<char>, dir: Seq<char>) -> bool {
    (dir + "/"@).is_prefix_of(path)
}

proof fn name_lies_in(dir: Seq<char>, name: Seq<char>)
    requires
        dir.len() > 0,
        dir.last() != '/',
        name.len() > 0,
        name[0] != '/',
    ensures
        lies_in(paths::joined(dir, name), dir),
{
    reveal_strlit("/");
    let path = paths::joined(dir, name);
    assert(dir + "/"@ =~= path.subrange(0, (dir + "/"@).len() as int));
}

proof fn name_below_lies_in(dir: Seq<char>, path: Seq<char>, name: Seq<char>)
    requires
        lies_in(path, dir),
        name.len() > 0,
        name[0] != '/',
    ensures
        lies_in(paths::joined(path, name), dir),
{
    reveal_strlit("/");
    let n = (dir + "/"@).len() as int;
    let below = paths::joined(path, name);
    assert(below.subrange(0, n) =~= path.subrange(0, n));
}

proof fn places_lie_in(venv: Seq<char>, version: Seq<char>, windows: bool)
    requires
        venv.len() > 0,
        venv.last() != '/',
    ensures
        lies_in(site_path(venv, version, windows), venv),
        lies_in(bin_path(venv, windows), venv),
        lies_in(paths::joined(venv, "pyvenv.cfg"@), venv),
{
    reveal_strlit("Lib");
    reveal_strlit("lib");
    reveal_strlit("python");
    reveal_strlit("site-packages");
    reveal_strlit("Scripts");
    reveal_strlit("bin");
    reveal_strlit("pyvenv.cfg");
    name_lies_in(venv, "Lib"@);
    name_lies_in(venv, "lib"@);
    name_lies_in(venv, "Scripts"@);
    name_lies_in(venv, "bin"@);
    name_lies_in(venv, "pyvenv.cfg"@);
    name_below_lies_in(venv, paths::joined(venv, "Lib"@), "site-packages"@);
    let named = "python"@ + config::minor_version(version);
    assert(named[0] == 'p');
    name_below_lies_in(venv, paths::joined(venv, "lib"@), named);
    name_below_lies_in(
        venv,
        paths::joined(paths::joined(venv, "lib"@), named),
        "site-packages"@,
    );
}

proof fn commands_lie_in(venv: Seq<char>, windows: bool)
    requires
        venv.len() > 0,
        venv.last() != '/',
    ensures
        ({
            let bin = bin_path(venv, windows);
            &&& lies_in(paths::joined(bin, "python3"@), venv)
            &&& lies_in(paths::joined(bin, "python"@), venv)
            &&& lies_in(paths::joined(bin, "python.exe"@), venv)
            &&& lies_in(paths::joined(bin, "pythonw.exe"@), venv)
            &&& lies_in(paths::joined(bin, "Activate.ps1"@), venv)
            &&& lies_in(paths::joined(bin, "activate.bat"@), venv)
            &&& lies_in(paths::joined(bin, "activate"@), venv)
        }),
{
    reveal_strlit("python3");
    reveal_strlit("python");
    reveal_strlit("python.exe");
    reveal_strlit("pythonw.exe");
    reveal_strlit("Activate.ps1");
    reveal_strlit("activate.bat");
    reveal_strlit("activate");
    places_lie_in(venv, Seq::empty(), windows);
    let bin = bin_path(venv, windows);
    name_below_lies_in(venv, bin, "python3"@);
    name_below_lies_in(venv, bin, "python"@);
    name_below_lies_in(venv, bin, "python.exe"@);
    name_below_lies_in(venv, bin, "pythonw.exe"@);
    name_below_lies_in(venv, bin, "Activate.ps1"@);
    name_below_lies_in(venv, bin, "activate.bat"@);
    name_below_lies_in(venv, bin, "activate"@);
}

proof fn package_steps_work_on_site(
    packages: Seq<PackageEntry>,
    site: Seq<char>,
    store_root: Seq<char>,
    in_store: Seq<Seq<char>>,
    i: int,
)
    requires
        0 <= i < package_steps(packages, site, store_root, in_store).len(),
    ensures
        actions::path_of(package_steps(packages, site, store_root, in_store)[i]) == site,
    decreases packages.len(),
{
    if packages.len() > 0 {
        let front = package_steps(packages.drop_last(), site, store_root, in_store);
        if i < front.len() {
            package_steps_work_on_site(packages.drop_last(), site, store_root, in_store, i);
            assert(package_steps(packages, site, store_root, in_store)[i] == front[i]);
        }
    }
}

/// While an environment is built, the one that is in use is left alone: every step
/// works in the directory beside it, and on nothing at its place or below.
pub proof fn building_leaves_live_alone(
    dir: Seq<char>,
    pid: nat,
    python: PythonSection,
    store_root: Seq<char>,
    in_store: Seq<Seq<char>>,
    exe: Option<Seq<char>>,
    windowed: bool,
    windows: bool,
    i: int,
)
    requires
        dir.len() > 0,
        dir.last() != '/',
        0 <= i < venv_steps(
            temp_path(venv_path(dir), pid),
            python,
            store_root,
            in_store,
            exe,
            windowed,
            windows,
        ).len(),
    ensures
        ({
            let temp = temp_path(venv_path(dir), pid);
            let steps = venv_steps(temp, python, store_root, in_store, exe, windowed, windows);
            let path = actions::path_of(steps[i]);
            lies_in(path, temp) && path != venv_path(dir) && !lies_in(path, venv_path(dir))
        }),
{
    reveal_strlit("/");
    reveal_strlit(".venv");
    reveal_strlit(".venv.kong-tmp-");
    text::decimal_is_read(pid);
    digits_have_no_slash(pid);
    let live = venv_path(dir);
    let name = ".venv.kong-tmp-"@ + text::decimal(pid);
    parent_of_joined(dir, ".venv"@);
    let temp = temp_path(live, pid);
    assert(temp == dir + "/"@ + name);
    assert(temp.last() == text::decimal(pid).last());
    places_lie_in(temp, python.version@, windows);
    commands_lie_in(temp, windows);
    let site = site_path(temp, python.version@, windows);
    let frame = frame_steps(temp, python.version@, exe, windowed, windows);
    let packages = package_steps(python.packages@, site, store_root, in_store);
    let steps = venv_steps(temp, python, store_root, in_store, exe, windowed, windows);
    let path = actions::path_of(steps[i]);
    if i < frame.len() {
        assert(steps[i] == frame[i]);
        frame_lies_in(temp, python.version@, exe, windowed, windows, i);
    } else {
        assert(steps[i] == packages[i - frame.len()]);
        package_steps_work_on_site(python.packages@, site, store_root, in_store, i - frame.len());
    }
    assert(path[live.len() as int] == temp[live.len() as int]) by {
        assert((temp + "/"@)[live.len() as int] == path[live.len() as int]);
    }
    assert(temp[live.len() as int] == '.') by {
        assert(temp[live.len() as int] == name[5]);
    }
    if lies_in(path, live) {
        assert((live + "/"@)[live.len() as int] == path[live.len() as int]);
    }
}

proof fn frame_lies_in(
    venv: Seq<char>,
    version: Seq<char>,
    exe: Option<Seq<char>>,
    windowed: bool,
    windows: bool,
    i: int,
)
    requires
        venv.len() > 0,
        venv.last() != '/',
        0 <= i < frame_steps(venv, version, exe, windowed, windows).len(),
    ensures
        lies_in(
            actions::path_of(frame_steps(venv, version, exe, windowed, windows)[i]),
            venv,
        ),
{
    places_lie_in(venv, version, windows);
    commands_lie_in(venv, windows);
}

} // verus!
