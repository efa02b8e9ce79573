//! What holds of the store's places, of services, of scripts that are run and of the
//! links that projects have.
use vstd::prelude::*;

use crate::actions::ActionModel;
use crate::cli;
use crate::config::KongRules;
use crate::config::PackageEntry;
use crate::config::ServiceEntry;
use crate::link::Environments;
use crate::link::JunctionState;
use crate::link::TreeEntry;
use crate::link;
use crate::path_laws;
use crate::paths;
use crate::runner;
use crate::service::ServicePaths;
use crate::service::ServiceStatus;
use crate::service::StartModel;
use crate::service;
use crate::store::StoreItem;
use crate::store;
use crate::text;
use crate::text_laws;

verus! {

// ── Places of the store ─────────────────────────────────────────────────────
proof fn systems_differ()
    ensures
        "windows"@ != "macos"@ && "windows"@ != "linux"@ && "macos"@ != "linux"@,
{
    reveal_strlit("windows");
    reveal_strlit("macos");
    reveal_strlit("linux");
    assert("windows"@[0] == 'w' && "macos"@[0] == 'm' && "linux"@[0] == 'l');
}

/// The store is where it is set to be; where nothing is set it is in the place of the
/// system, below the home directory except on Windows, and nowhere without a home.
pub proof fn store_is_found(
    set: Seq<char>,
    os: Seq<char>,
    home: Seq<char>,
    other: Option<Seq<char>>,
    project: Seq<char>,
)
    ensures
        store::root_of(Some(set), os, other) == Some(set),
        store::root_of(None, "linux"@, Some(home)) == Some(paths::joined(home, ".kong"@)),
        store::root_of(None, "macos"@, Some(home)) == Some(
            paths::joined(paths::joined(home, "Library/Application Support/kong"@), "store"@),
        ),
        store::root_of(None, "windows"@, other) == Some("C:\\kong\\store"@),
        os != "windows"@ ==> store::root_of(None, os, None) is None,
        store::env_dir_of(Some(set), os, other, project) == Some(
            paths::joined(paths::joined(set, "RULEZ"@), project),
        ),
        store::env_dir_of(None, "linux"@, Some(home), project) == Some(
            paths::joined(paths::joined(paths::joined(home, ".kong"@), "RULEZ"@), project),
        ),
        store::env_dir_of(None, "macos"@, Some(home), project) == Some(
            paths::joined(
                paths::joined(
                    paths::joined(home, "Library/Application Support/kong"@),
                    "RULEZ"@,
                ),
                project,
            ),
        ),
        store::env_dir_of(None, "windows"@, other, project) == Some("C:\\kong\\RULEZ\\"@ + project),
        os != "windows"@ ==> store::env_dir_of(None, os, None, project) is None,
{
    systems_differ();
    reveal_strlit("C:\\kong");
    reveal_strlit("\\store");
    reveal_strlit("C:\\kong\\store");
    reveal_strlit("\\RULEZ\\");
    reveal_strlit("C:\\kong\\RULEZ\\");
    assert("C:\\kong"@ + "\\store"@ =~= "C:\\kong\\store"@);
    assert("C:\\kong"@ + "\\RULEZ\\"@ =~= "C:\\kong\\RULEZ\\"@);
}

/// The packages of the store are its directories; each of them without the mark is
/// named as an issue, and no other is.
pub proof fn store_is_examined(before: Seq<StoreItem>, e: StoreItem)
    ensures
        store::package_count(Seq::empty()) == 0,
        store::package_count(before.push(e)) == store::package_count(before) + (if e.is_dir {
            1nat
        } else {
            0nat
        }),
        e.is_dir && !e.verified ==> store::unverified(before.push(e)) == store::unverified(
            before,
        ).push("Unverified package: "@ + e.path@),
        !e.is_dir || e.verified ==> store::unverified(before.push(e)) == store::unverified(before),
        store::unverified(Seq::empty()) == Seq::<Seq<char>>::empty(),
{
    let all = before.push(e);
    assert(all.drop_last() =~= before && all.last() == e);
}

// ── Services ────────────────────────────────────────────────────────────────
/// A port that is asked for goes before that of the service.
pub proof fn ports_have_an_order(svc: ServiceEntry, asked: u16)
    ensures
        service::port_for(svc, Some(asked)) == asked,
        svc.port is Some ==> service::port_for(svc, None) == svc.port->0,
        svc.port is None ==> service::port_for(svc, None) == 0,
{
}

proof fn no_braces(s: Seq<char>, p: Seq<char>, r: Seq<char>)
    requires
        !s.contains('{'),
        p.len() > 0,
        p[0] == '{',
    ensures
        text::replace_text(s, p, r) == s,
{
    text_laws::find_is_first(s, p);
    if text::contains(s, p) {
        let k = text::find(s, p)->0;
        assert(s.subrange(k, k + p.len())[0] == s[k]);
        assert(s.contains(s[k]));
    }
}

proof fn one_place(a: Seq<char>, p: Seq<char>, b: Seq<char>, r: Seq<char>)
    requires
        !a.contains('{'),
        !b.contains('{'),
        p.len() > 0,
        p[0] == '{',
        forall|i: int| 0 < i < p.len() ==> p[i] != '{',
    ensures
        text::replace_text(a + p + b, p, r) == a + r + b,
{
    let s = a + p + b;
    let n = a.len() as int;
    text_laws::find_is_first(s, p);
    assert(s.subrange(n, n + p.len()) =~= p);
    let k = text::find(s, p)->0;
    if k < n {
        assert(s.subrange(k, k + p.len())[0] == s[k]);
        assert(s[k] == a[k]);
        assert(a.contains(a[k]));
        assert(false);
    }
    assert(k == n);
    assert(s.take(n) =~= a);
    assert(s.skip(n + p.len()) =~= b);
    no_braces(b, p, r);
}

proof fn other_place(a: Seq<char>, q: Seq<char>, b: Seq<char>, p: Seq<char>, r: Seq<char>)
    requires
        !a.contains('{'),
        !b.contains('{'),
        q.len() > 1,
        p.len() > 1,
        q[0] == '{',
        p[0] == '{',
        forall|i: int| 0 < i < q.len() ==> q[i] != '{',
        q[1] != p[1],
    ensures
        text::replace_text(a + q + b, p, r) == a + q + b,
{
    let s = a + q + b;
    let n = a.len() as int;
    text_laws::find_is_first(s, p);
    if text::contains(s, p) {
        let k = text::find(s, p)->0;
        let sub = s.subrange(k, k + p.len());
        assert(sub[0] == s[k] && sub[1] == s[k + 1]);
        if k < n {
            assert(s[k] == a[k]);
            assert(a.contains(a[k]));
        } else if k >= n + q.len() {
            assert(s[k] == b[k - n - q.len()]);
            assert(b.contains(b[k - n - q.len()]));
        } else if k == n {
            assert(s[k + 1] == q[1]);
        } else {
            assert(s[k] == q[k - n]);
        }
        assert(false);
    }
}

proof fn no_brace_joined(a: Seq<char>, r: Seq<char>, b: Seq<char>)
    requires
        !a.contains('{'),
        !r.contains('{'),
        !b.contains('{'),
    ensures
        !(a + r + b).contains('{'),
{
    let s = a + r + b;
    assert forall|i: int| 0 <= i < s.len() implies s[i] != '{' by {
        if i < a.len() {
            assert(s[i] == a[i]);
            assert(a.contains(a[i]));
        } else if i < a.len() + r.len() {
            assert(s[i] == r[i - a.len()]);
            assert(r.contains(r[i - a.len()]));
        } else {
            assert(s[i] == b[i - a.len() - r.len()]);
            assert(b.contains(b[i - a.len() - r.len()]));
        }
    }
}

/// In the command of a service each placeholder stands for what it names: the data
/// directory, the log file and the file of the process, each quoted for the shell, and
/// the port. A command without placeholders stays as it is.
pub proof fn placeholders_are_filled(
    a: Seq<char>,
    b: Seq<char>,
    data: Seq<char>,
    log: Seq<char>,
    pid: Seq<char>,
    port: nat,
)
    requires
        !a.contains('{'),
        !b.contains('{'),
        !service::quoted(data).contains('{'),
        !service::quoted(log).contains('{'),
        !service::quoted(pid).contains('{'),
    ensures
        service::expanded(a + "{data_dir}"@ + b, data, log, pid, port) == a + service::quoted(data)
            + b,
        service::expanded(a + "{log_file}"@ + b, data, log, pid, port) == a + service::quoted(log)
            + b,
        service::expanded(a + "{pid_file}"@ + b, data, log, pid, port) == a + service::quoted(pid)
            + b,
        service::expanded(a + "{port}"@ + b, data, log, pid, port) == a + text::decimal(port) + b,
        service::expanded(a, data, log, pid, port) == a,
{
    reveal_strlit("{data_dir}");
    reveal_strlit("{log_file}");
    reveal_strlit("{pid_file}");
    reveal_strlit("{port}");
    let d = "{data_dir}"@;
    let l = "{log_file}"@;
    let p = "{pid_file}"@;
    let o = "{port}"@;
    let qd = service::quoted(data);
    let ql = service::quoted(log);
    let qp = service::quoted(pid);
    let n = text::decimal(port);
    no_brace_joined(a, qd, b);
    no_brace_joined(a, ql, b);
    no_brace_joined(a, qp, b);
    one_place(a, d, b, qd);
    no_braces(a + qd + b, l, ql);
    no_braces(a + qd + b, p, qp);
    no_braces(a + qd + b, o, n);
    other_place(a, l, b, d, qd);
    one_place(a, l, b, ql);
    no_braces(a + ql + b, p, qp);
    no_braces(a + ql + b, o, n);
    other_place(a, p, b, d, qd);
    other_place(a, p, b, l, ql);
    one_place(a, p, b, qp);
    no_braces(a + qp + b, o, n);
    other_place(a, o, b, d, qd);
    other_place(a, o, b, l, ql);
    port_is_no_pid(a, b, qp);
    one_place(a, o, b, n);
    no_braces(a, d, qd);
    no_braces(a, l, ql);
    no_braces(a, p, qp);
    no_braces(a, o, n);
}

proof fn port_is_no_pid(a: Seq<char>, b: Seq<char>, r: Seq<char>)
    requires
        !a.contains('{'),
        !b.contains('{'),
    ensures
        text::replace_text(a + "{port}"@ + b, "{pid_file}"@, r) == a + "{port}"@ + b,
{
    reveal_strlit("{pid_file}");
    reveal_strlit("{port}");
    let q = "{port}"@;
    let p = "{pid_file}"@;
    let s = a + q + b;
    let n = a.len() as int;
    text_laws::find_is_first(s, p);
    if text::contains(s, p) {
        let k = text::find(s, p)->0;
        let sub = s.subrange(k, k + p.len());
        assert(sub[0] == s[k] && sub[2] == s[k + 2]);
        if k < n {
            assert(s[k] == a[k]);
            assert(a.contains(a[k]));
        } else if k >= n + q.len() {
            assert(s[k] == b[k - n - q.len()]);
            assert(b.contains(b[k - n - q.len()]));
        } else if k == n {
            assert(s[k + 2] == q[2]);
        } else {
            assert(s[k] == q[k - n]);
        }
        assert(false);
    }
}

/// A service that runs is not started again. One that does not is prepared first where
/// it has a command for that and no data yet, and started otherwise.
pub proof fn services_are_started(
    svc: ServiceEntry,
    files: ServicePaths,
    port: nat,
    pid: u32,
    empty: bool,
    status: ServiceStatus,
)
    requires
        !(status is Running),
    ensures
        service::first_step(svc, files, port, ServiceStatus::Running(pid), empty)
            == StartModel::AlreadyRunning,
        svc.init_cmd is Some && empty ==> service::first_step(svc, files, port, status, empty)
            == StartModel::Initialize(
            service::expanded(
                svc.init_cmd->0@,
                files.data_dir@,
                files.log_file@,
                files.pid_file@,
                port,
            ),
        ),
        svc.init_cmd is None || !empty ==> service::first_step(svc, files, port, status, empty)
            == StartModel::Launch(
            service::expanded(
                svc.start_cmd@,
                files.data_dir@,
                files.log_file@,
                files.pid_file@,
                port,
            ),
        ),
{
}

/// The file of a process holds its number, with spaces and a newline round it or
/// without; anything else in it is no number, and a process that is no more is dead.
pub proof fn process_files(n: u32, pid: u32)
    ensures
        service::pid_in(Some(text::decimal(n as nat))) == Some(n as nat),
        service::pid_in(Some(text::decimal(n as nat) + seq!['\n'])) == Some(n as nat),
        service::pid_in(None) is None,
        service::pid_in(Some(Seq::empty())) is None,
        service::status_of(Some(pid), true) == ServiceStatus::Running(pid),
        service::status_of(Some(pid), false) == ServiceStatus::Dead(pid),
        service::status_of(None, true) == ServiceStatus::Stopped,
        service::status_of(None, false) == ServiceStatus::Stopped,
{
    let d = text::decimal(n as nat);
    text::decimal_is_read(n as nat);
    text_laws::numbers_are_read(n as nat, u32::MAX as nat, Seq::empty());
    assert(text::is_digit(d[0]));
    assert(text::is_digit(d[d.len() - 1]));
    assert(text::trim_start(d) == d && text::trim_end(d) == d);
    let line = d + seq!['\n'];
    assert(line[0] == d[0] && line.last() == '\n');
    assert(line.drop_last() =~= d);
    assert(text::trim_start(line) == line);
    assert(text::trim_end(line) == d);
    assert(text::trim(Seq::<char>::empty()) == Seq::<char>::empty());
}

/// Of a log the last lines are shown, as many as are asked for or all that there are.
pub proof fn last_lines_are_shown(content: Seq<char>, n: nat, i: int)
    ensures
        ({
            let all = text::lines(content);
            let shown = service::last_lines(content, n);
            &&& shown.len() == (if n < all.len() {
                n
            } else {
                all.len()
            })
            &&& 0 <= i < shown.len() ==> shown[i] == all[all.len() - shown.len() + i]
        }),
{
}

/// The columns of the table of services.
pub proof fn columns_are_padded(s: Seq<char>, width: nat, i: int)
    ensures
        service::padded(s, width).len() >= width,
        service::padded(s, width).len() >= s.len(),
        0 <= i < s.len() ==> service::padded(s, width)[i] == s[i],
        s.len() <= i < service::padded(s, width).len() ==> service::padded(s, width)[i] == ' ',
        s.len() >= width ==> service::padded(s, width) == s,
        service::status_word(ServiceStatus::Running(0)) == "running"@,
        service::status_word(ServiceStatus::Dead(0)) == "dead"@,
        service::status_word(ServiceStatus::Stopped) == "stopped"@,
{
}

// ── Scripts ─────────────────────────────────────────────────────────────────
/// A script is found by its name, the first that has it.
pub proof fn script_is_found_by_name(
    before: Seq<(Seq<char>, Seq<char>)>,
    name: Seq<char>,
    command: Seq<char>,
    behind: Seq<(Seq<char>, Seq<char>)>,
)
    requires
        forall|i: int| 0 <= i < before.len() ==> (#[trigger] before[i]).0 != name,
    ensures
        runner::script_command(before + seq![(name, command)] + behind, name) == Some(command),
        runner::script_command(before, name) is None,
    decreases before.len(),
{
    let all = before + seq![(name, command)] + behind;
    if before.len() == 0 {
        assert(all[0] == (name, command));
    } else {
        let rest = before.skip(1);
        assert(before[0].0 != name);
        assert forall|i: int| 0 <= i < rest.len() implies (#[trigger] rest[i]).0 != name by {
            assert(rest[i] == before[i + 1]);
        }
        script_is_found_by_name(rest, name, command, behind);
        assert(all[0] == before[0]);
        assert(all.skip(1) =~= rest + seq![(name, command)] + behind);
    }
}

/// The arguments of a script stand behind its command, with a space before each.
pub proof fn arguments_follow(command: Seq<char>, args: Seq<Seq<char>>, last: Seq<char>)
    ensures
        runner::with_args(command, Seq::empty()) == command,
        runner::with_args(command, args.push(last)) == runner::with_args(command, args) + " "@
            + last,
{
    let all = args.push(last);
    assert(all.drop_last() =~= args && all.last() == last);
    if args.len() == 0 {
        assert(text::join(all, " "@) == last);
        assert(command + " "@ + last =~= runner::with_args(command, args) + " "@ + last);
    } else {
        assert(text::join(all, " "@) == text::join(args, " "@) + " "@ + last);
        assert(runner::with_args(command, all) =~= runner::with_args(command, args) + " "@ + last);
    }
}

/// The directories of each Homebrew package that are there, and no others, are on the
/// path, in the order of the packages: its `bin` and then its `sbin`.
pub proof fn package_directories_are_on_the_path(
    before: Seq<PackageEntry>,
    p: PackageEntry,
    store_root: Seq<char>,
    existing: Seq<Seq<char>>,
)
    ensures
        ({
            let dir = paths::joined(store_root, p.store_path@);
            let bin = paths::joined(dir, "bin"@);
            let sbin = paths::joined(dir, "sbin"@);
            let subs = seq!["bin"@, "sbin"@];
            let front = runner::package_dirs(before, store_root, subs, existing);
            runner::package_dirs(before.push(p), store_root, subs, existing) == front + (
            if existing.contains(bin) {
                seq![bin]
            } else {
                Seq::empty()
            }) + (if existing.contains(sbin) {
                seq![sbin]
            } else {
                Seq::empty()
            })
        }),
{
    let all = before.push(p);
    assert(all.drop_last() =~= before && all.last() == p);
    let subs = seq!["bin"@, "sbin"@];
    let dir = paths::joined(store_root, p.store_path@);
    assert(subs.drop_last() =~= seq!["bin"@]);
    assert(seq!["bin"@].drop_last() =~= Seq::<Seq<char>>::empty());
    reveal_with_fuel(runner::sub_dirs, 3);
    let a = runner::if_there(paths::joined(dir, "bin"@), existing);
    let b = runner::if_there(paths::joined(dir, "sbin"@), existing);
    assert(runner::sub_dirs(dir, subs, existing) =~= a + b);
    let front = runner::package_dirs(before, store_root, subs, existing);
    assert(front + (a + b) =~= front + a + b);
}

/// On the path of a script the tools of the project come before what was there: last
/// of all the current path, before it the interpreter's directory and that of the Node
/// packages.
pub proof fn project_tools_come_first(
    env_dir: Seq<char>,
    store_root: Seq<char>,
    rules: Option<&KongRules>,
    existing: Seq<Seq<char>>,
    current: Seq<char>,
    windows: bool,
)
    requires
        current.len() > 0,
    ensures
        ({
            let parts = runner::path_parts(
                env_dir,
                store_root,
                rules,
                existing,
                current,
                windows,
            );
            let n = parts.len() as int;
            &&& n >= 3
            &&& parts[n - 1] == current
            &&& parts[n - 2] == crate::python::venv::bin_path(
                paths::joined(env_dir, ".venv"@),
                windows,
            )
            &&& parts[n - 3] == paths::joined(paths::joined(env_dir, "node_modules"@), ".bin"@)
        }),
        runner::separator(true) == ";"@,
        runner::separator(false) == ":"@,
        runner::lib_variable(true) == "DYLD_LIBRARY_PATH"@,
        runner::lib_variable(false) == "LD_LIBRARY_PATH"@,
{
}

/// A script has the path, and where they are there its environment, its Node packages
/// and the paths of libraries, each under the name that tools look for, and nothing
/// else.
pub proof fn variables_of_scripts(
    env_dir: Seq<char>,
    path: Seq<char>,
    lib: Seq<char>,
    pkg: Seq<char>,
    venv: bool,
    node: bool,
    macos: bool,
    name: Seq<char>,
    value: Seq<char>,
)
    ensures
        ({
            let vars = runner::variables(env_dir, path, lib, pkg, venv, node, macos);
            vars.contains((name, value)) == ({
                ||| name == "PATH"@ && value == path
                ||| venv && name == "VIRTUAL_ENV"@ && value == paths::joined(env_dir, ".venv"@)
                ||| node && name == "NODE_PATH"@ && value == paths::joined(
                    env_dir,
                    "node_modules"@,
                )
                ||| lib.len() > 0 && macos && name == "DYLD_LIBRARY_PATH"@ && value == lib
                ||| lib.len() > 0 && !macos && name == "LD_LIBRARY_PATH"@ && value == lib
                ||| pkg.len() > 0 && name == "PKG_CONFIG_PATH"@ && value == pkg
            })
        }),
{
    let vars = runner::variables(env_dir, path, lib, pkg, venv, node, macos);
    let a = seq![("PATH"@, path)];
    let b = if venv {
        seq![("VIRTUAL_ENV"@, paths::joined(env_dir, ".venv"@))]
    } else {
        Seq::empty()
    };
    let c = if node {
        seq![("NODE_PATH"@, paths::joined(env_dir, "node_modules"@))]
    } else {
        Seq::empty()
    };
    let d = if lib.len() > 0 {
        seq![(runner::lib_variable(macos), lib)]
    } else {
        Seq::empty()
    };
    let e = if pkg.len() > 0 {
        seq![("PKG_CONFIG_PATH"@, pkg)]
    } else {
        Seq::empty()
    };
    assert(vars == a + b + c + d + e);
    let i1 = 1int;
    let i2 = i1 + b.len();
    let i3 = i2 + c.len();
    let i4 = i3 + d.len();
    assert(vars[0] == a[0]);
    if venv {
        assert(vars[i1] == b[0]);
    }
    if node {
        assert(vars[i2] == c[0]);
    }
    if lib.len() > 0 {
        assert(vars[i3] == d[0]);
    }
    if pkg.len() > 0 {
        assert(vars[i4] == e[0]);
    }
    if vars.contains((name, value)) {
        let k = choose|k: int| 0 <= k < vars.len() && vars[k] == (name, value);
        if k == 0 {
        } else if k < i2 {
            assert(vars[k] == b[k - i1]);
        } else if k < i3 {
            assert(vars[k] == c[k - i2]);
        } else if k < i4 {
            assert(vars[k] == d[k - i3]);
        } else {
            assert(vars[k] == e[k - i4]);
        }
    }
}

/// A command that starts a binary below `./target/` names it: the first of its words
/// that does. Another command names none.
pub proof fn binary_is_named(rest: Seq<char>, args: Seq<char>, project: Seq<char>, other: Seq<char>)
    requires
        forall|i: int| 0 <= i < rest.len() ==> !text::is_whitespace(#[trigger] rest[i]),
        !text::contains(other, "target"@),
    ensures
        runner::binary_of("./target/"@ + rest, project) == Some(
            paths::joined(project, "./target/"@ + rest),
        ),
        runner::binary_of("./target/"@ + rest + seq![' '] + args, project) == Some(
            paths::joined(project, "./target/"@ + rest),
        ),
        runner::binary_of(other, project) is None,
{
    reveal_strlit("./target/");
    reveal_strlit("target/");
    reveal_strlit("target");
    reveal_strlit(".\\target\\");
    let word = "./target/"@ + rest;
    let none = Seq::<char>::empty();
    assert(text_laws::is_one_word(word)) by {
        assert forall|i: int| 0 <= i < word.len() implies !text::is_whitespace(
            #[trigger] word[i],
        ) by {
            if i >= 9 {
                assert(word[i] == rest[i - 9]);
            }
        }
    }
    text_laws::words_are_between_spaces(word, ' ', args);
    text_laws::contains_part(none, "./target/"@, rest);
    assert(none + "./target/"@ + rest =~= word);
    let all = word + seq![' '] + args;
    text_laws::contains_part(none, "./target/"@, rest + seq![' '] + args);
    assert(none + "./target/"@ + (rest + seq![' '] + args) =~= all);
    text_laws::contains_part(seq!['.', '/'], "target/"@, rest);
    assert(seq!['.', '/'] + "target/"@ + rest =~= word);
    assert(runner::names_target(word));
    assert(seq![word][0] == word);
    assert((seq![word] + text::words(args))[0] == word);
    text_laws::find_is_first(other, "target"@);
    text_laws::find_is_first(other, "./target/"@);
    text_laws::find_is_first(other, ".\\target\\"@);
    if text::contains(other, "./target/"@) {
        let k = text::find(other, "./target/"@)->0;
        let sub = other.subrange(k, k + 9);
        assert(other.subrange(k + 2, k + 2 + 6) =~= sub.subrange(2, 8));
        assert("./target/"@.subrange(2, 8) =~= "target"@);
        assert(false);
    }
    if text::contains(other, ".\\target\\"@) {
        let k = text::find(other, ".\\target\\"@)->0;
        let sub = other.subrange(k, k + 9);
        assert(other.subrange(k + 2, k + 2 + 6) =~= sub.subrange(2, 8));
        assert(".\\target\\"@.subrange(2, 8) =~= "target"@);
        assert(false);
    }
}

// ── Links ───────────────────────────────────────────────────────────────────
/// Each entry of a package that is not in the project yet is brought there, in the
/// order of the entries: a directory is made, a file is linked to that of the package,
/// behind the directory that it is in. What is there stays.
pub proof fn entries_are_linked(
    before: Seq<TreeEntry>,
    e: TreeEntry,
    src: Seq<char>,
    dst: Seq<char>,
)
    ensures
        ({
            let front = link::link_steps(before, src, dst);
            let all = link::link_steps(before.push(e), src, dst);
            let path = paths::joined(dst, e.path@);
            &&& e.exists ==> all == front
            &&& !e.exists && e.is_dir ==> all == front.push(ActionModel::CreateDir(path))
            &&& !e.exists && !e.is_dir ==> all == front.push(
                ActionModel::CreateDir(paths::parent_part(path)),
            ).push(ActionModel::LinkFile(path, paths::joined(src, e.path@)))
        }),
        link::link_steps(Seq::empty(), src, dst) == seq![ActionModel::CreateDir(dst)],
{
    let all = before.push(e);
    assert(all.drop_last() =~= before && all.last() == e);
    let front = link::link_steps(before, src, dst);
    let steps = link::entry_steps(e, src, dst);
    assert(link::link_steps(all, src, dst) =~= front + steps);
    assert(front + Seq::<ActionModel>::empty() =~= front);
    if !e.exists && !e.is_dir {
        assert(front + steps =~= front.push(steps[0]).push(steps[1]));
    }
    if !e.exists && e.is_dir {
        assert(front + steps =~= front.push(steps[0]));
    }
    assert(link::link_steps(Seq::empty(), src, dst) =~= seq![ActionModel::CreateDir(dst)]);
}

/// The environments of a project that are there are removed and nothing else is; the
/// Python environment may be kept.
pub proof fn environments_are_removed(
    dir: Seq<char>,
    keep: bool,
    e: Environments,
    a: ActionModel,
)
    ensures
        link::clean_steps(dir, keep, e).contains(a) == ({
            ||| e.venv && !keep && a == ActionModel::RemoveTree(paths::joined(dir, ".venv"@))
            ||| e.node_modules && a == ActionModel::RemoveTree(paths::joined(dir, "node_modules"@))
            ||| e.cargo_config && a == ActionModel::RemoveFile(
                paths::joined(paths::joined(dir, ".cargo"@), "config.toml"@),
            )
        }),
{
    let x = if e.venv && !keep {
        seq![ActionModel::RemoveTree(paths::joined(dir, ".venv"@))]
    } else {
        Seq::empty()
    };
    let y = if e.node_modules {
        seq![ActionModel::RemoveTree(paths::joined(dir, "node_modules"@))]
    } else {
        Seq::empty()
    };
    let z = if e.cargo_config {
        seq![ActionModel::RemoveFile(paths::joined(paths::joined(dir, ".cargo"@), "config.toml"@))]
    } else {
        Seq::empty()
    };
    let all = link::clean_steps(dir, keep, e);
    assert(all == x + y + z);
    let n = x.len() as int;
    let m = y.len() as int;
    if x.len() > 0 {
        assert(all[0] == x[0]);
    }
    if y.len() > 0 {
        assert(all[n] == y[0]);
    }
    if z.len() > 0 {
        assert(all[n + m] == z[0]);
    }
    if all.contains(a) {
        let k = choose|k: int| 0 <= k < all.len() && all[k] == a;
        if k < n {
            assert(all[k] == x[k]);
        } else if k < n + m {
            assert(all[k] == y[k - n]);
        } else {
            assert(all[k] == z[k - n - m]);
        }
    }
}

/// A link to the environment is made where there is none and put right where it points
/// elsewhere; what is no link is left alone.
pub proof fn junctions_are_put_right(path: Seq<char>, target: Seq<char>)
    ensures
        link::junction_steps(path, target, JunctionState::Missing) == seq![
            ActionModel::LinkDir(path, target),
        ],
        link::junction_steps(path, target, JunctionState::Other).len() == 2,
        link::junction_steps(path, target, JunctionState::Other)[0] == ActionModel::RemoveLink(
            path,
        ),
        link::junction_steps(path, target, JunctionState::Other)[1] == ActionModel::LinkDir(
            path,
            target,
        ),
        link::junction_steps(path, target, JunctionState::Right).len() == 0,
        link::junction_steps(path, target, JunctionState::Taken).len() == 0,
{
}

// ── Services ────────────────────────────────────────────────────────────────
/// The service of a name is the first that has it, and everything of a service lies in
/// its own directory of the environment.
pub proof fn service_is_found_by_name(
    services: Seq<ServiceEntry>,
    name: Seq<char>,
    i: int,
    j: int,
    env_dir: Seq<char>,
)
    requires
        0 <= j < services.len(),
        services[j].name@ == name,
    ensures
        service::is_named(services, name, i) ==> 0 <= i <= j && services[i].name@ == name,
        service::service_names(services).len() == services.len(),
        service::service_names(services)[j] == name,
        service::service_root(env_dir, name) == paths::joined(
            paths::joined(env_dir, "services"@),
            name,
        ),
{
}

proof fn package_is_found(packages: Seq<PackageEntry>, name: Seq<char>)
    ensures
        match service::package_named(packages, name) {
            Some(p) => p.name@ == name && packages.contains(p),
            None => forall|i: int| 0 <= i < packages.len() ==> (#[trigger] packages[i]).name@ != name,
        },
    decreases packages.len(),
{
    if packages.len() > 0 && packages[0].name@ != name {
        let rest = packages.skip(1);
        package_is_found(rest, name);
        match service::package_named(rest, name) {
            Some(p) => {
                let k = choose|k: int| 0 <= k < rest.len() && rest[k] == p;
                assert(packages[k + 1] == p);
            },
            None => {
                assert forall|i: int| 0 <= i < packages.len() implies (
                #[trigger] packages[i]).name@ != name by {
                    if i > 0 {
                        assert(rest[i - 1] == packages[i]);
                    }
                }
            },
        }
    } else if packages.len() > 0 {
        assert(packages[0].name@ == name);
    }
}

/// A service is run with the directories of all bottles in front of the path, with their
/// libraries where there are any, and with the prefix of its own bottle.
pub proof fn variables_of_services(
    svc: ServiceEntry,
    store_root: Seq<char>,
    rules: KongRules,
    packages: Seq<PackageEntry>,
    existing: Seq<Seq<char>>,
    path: Seq<char>,
    lib_path: Seq<char>,
    macos: bool,
    windows: bool,
)
    requires
        rules.brew matches Some(b) && b.packages@ == packages,
    ensures
        ({
            let sep = if windows {
                ";"@
            } else {
                ":"@
            };
            let bins = runner::package_dirs(packages, store_root, seq!["bin"@, "sbin"@], existing);
            let libs = runner::package_dirs(packages, store_root, seq!["lib"@], existing);
            let library = if macos {
                "DYLD_LIBRARY_PATH"@
            } else {
                "LD_LIBRARY_PATH"@
            };
            let vars = service::service_variables(
                svc,
                store_root,
                rules,
                existing,
                Some(path),
                Some(lib_path),
                macos,
                windows,
            );
            &&& vars[0] == ("PATH"@, text::join(bins.push(path), sep))
            &&& libs.len() > 0 ==> vars[1] == (library, text::join(libs.push(lib_path), sep))
            &&& libs.len() == 0 && (forall|i: int|
                0 <= i < packages.len() ==> (#[trigger] packages[i]).name@ != svc.brew_package@)
                ==> vars.len() == 1
            &&& (exists|i: int|
                0 <= i < packages.len() && (#[trigger] packages[i]).name@ == svc.brew_package@)
                ==> exists|i: int|
                0 <= i < packages.len() && (#[trigger] packages[i]).name@ == svc.brew_package@
                    && vars.last() == (
                    "HOMEBREW_PREFIX"@,
                    paths::joined(store_root, packages[i].store_path@),
                )
        }),
{
    let bins = runner::package_dirs(packages, store_root, seq!["bin"@, "sbin"@], existing);
    let libs = runner::package_dirs(packages, store_root, seq!["lib"@], existing);
    assert(bins + seq![path] =~= bins.push(path));
    assert(libs + seq![lib_path] =~= libs.push(lib_path));
    package_is_found(packages, svc.brew_package@);
    if let Some(p) = service::package_named(packages, svc.brew_package@) {
        let k = choose|k: int| 0 <= k < packages.len() && packages[k] == p;
        assert(packages[k].name@ == svc.brew_package@);
    }
}

/// A table of services has its columns at the same places in every row.
pub proof fn rows_have_columns(
    name: Seq<char>,
    status: Seq<char>,
    port: Seq<char>,
    pid: Seq<char>,
    n: u32,
)
    requires
        name.len() <= 12,
        status.len() <= 8,
        port.len() <= 8,
    ensures
        ({
            let r = service::row(name, status, port, pid);
            &&& r.len() == 31 + pid.len()
            &&& r.subrange(0, name.len() as int) == name
            &&& r.subrange(13, 13 + status.len() as int) == status
            &&& r.subrange(22, 22 + port.len() as int) == port
            &&& r.skip(31) == pid
        }),
        service::number_or_dash(Some(n as nat)) == text::decimal(n as nat),
        service::number_or_dash(None) == "—"@,
        service::pid_of(ServiceStatus::Running(n)) == Some(n as nat),
        service::pid_of(ServiceStatus::Dead(n)) == Some(n as nat),
        service::pid_of(ServiceStatus::Stopped) is None,
{
    reveal_strlit(" ");
    let r = service::row(name, status, port, pid);
    assert(r.subrange(0, name.len() as int) =~= name);
    assert(r.subrange(13, 13 + status.len() as int) =~= status);
    assert(r.subrange(22, 22 + port.len() as int) =~= port);
    assert(r.skip(31) =~= pid);
}

// ── Scripts of rules and of the command line ────────────────────────────────
/// The scripts of a project are those of its rules, the Cargo that builds it is that of
/// the toolchain that they name, and libraries are looked for in the bottles before the
/// places that were there.
pub proof fn rules_say_what_is_run(
    rules: &KongRules,
    store_root: Seq<char>,
    sub: Seq<char>,
    existing: Seq<Seq<char>>,
    current: Seq<char>,
)
    requires
        current.len() > 0,
    ensures
        runner::rule_scripts(Some(rules)) == crate::config::script_views(rules.scripts@),
        runner::rule_scripts(None).len() == 0,
        runner::managed_cargo(None, store_root) is None,
        rules.runtimes matches Some(s) ==> (s.rust matches Some(e) ==> runner::managed_cargo(
            Some(rules),
            store_root,
        ) == Some(
            paths::joined(
                paths::joined(paths::joined(store_root, e.store_path@), "bin"@),
                "cargo"@,
            ),
        )),
        rules.runtimes matches Some(s) ==> (s.rust is None ==> runner::managed_cargo(
            Some(rules),
            store_root,
        ) is None),
        runner::library_parts(store_root, Some(rules), sub, existing, current).last() == current,
        runner::library_parts(store_root, None, sub, existing, current) == seq![current],
        rules.brew matches Some(b) ==> runner::library_parts(
            store_root,
            Some(rules),
            sub,
            existing,
            current,
        ) == runner::package_dirs(b.packages@, store_root, seq![sub], existing).push(current),
{
    let parts = runner::library_parts(store_root, Some(rules), sub, existing, current);
    assert(runner::library_parts(store_root, None, sub, existing, current) =~= seq![current]);
    if let Some(b) = rules.brew {
        assert(parts =~= runner::package_dirs(b.packages@, store_root, seq![sub], existing).push(
            current,
        ));
    }
}

proof fn slashes_leave(s: Seq<char>, n: nat)
    requires
        s.len() > 0,
        s.last() != '/',
    ensures
        text::trim_end_set(s + Seq::new(n, |i: int| '/'), "/"@) == s,
    decreases n,
{
    reveal_strlit("/");
    let t = s + Seq::new(n, |i: int| '/');
    assert("/"@[0] == '/');
    if n == 0 {
        assert(t =~= s);
        assert(!"/"@.contains(s.last()));
    } else {
        let m = (n - 1) as nat;
        slashes_leave(s, m);
        assert(t.last() == '/');
        assert("/"@.contains('/'));
        assert(t.drop_last() =~= s + Seq::new(m, |i: int| '/'));
    }
}

/// A repository is cloned into a directory that is named as the last part of its
/// address, without slashes behind it and without `.git`.
pub proof fn repository_is_named(address: Seq<char>, name: Seq<char>, n: nat)
    requires
        name.len() > 0,
        !name.contains('/'),
        !".git"@.is_suffix_of(name),
    ensures
        ({
            let slashes = Seq::new(n, |i: int| '/');
            &&& cli::repository_name(address + seq!['/'] + name + slashes) == name
            &&& cli::repository_name(address + seq!['/'] + (name + ".git"@) + slashes) == name
            &&& cli::repository_name(name) == name
        }),
{
    reveal_strlit(".git");
    let git = name + ".git"@;
    assert(name[name.len() - 1] != '/') by {
        if name[name.len() - 1] == '/' {
            assert(name.contains('/'));
        }
    }
    assert(!git.contains('/')) by {
        if git.contains('/') {
            let k = choose|k: int| 0 <= k < git.len() && git[k] == '/';
            if k < name.len() {
                assert(name[k] == '/');
            } else {
                assert(git[k] == ".git"@[k - name.len()]);
            }
        }
    }
    slashes_leave(address + seq!['/'] + name, n);
    slashes_leave(address + seq!['/'] + git, n);
    slashes_leave(name, 0);
    assert(name + Seq::new(0, |i: int| '/') =~= name);
    crate::download_laws::file_is_named_by_address(address, name);
    crate::download_laws::file_is_named_by_address(address, git);
    text_laws::joined_ends(name, ".git"@);
    assert(git.take(git.len() - ".git"@.len()) =~= name);
    assert(text::trim_end_text(name, ".git"@) == name);
    assert(text::trim_end_text(git, ".git"@) == name);
}

/// A project is named as the last part of its directory.
pub proof fn project_is_named(parts: Seq<Seq<char>>)
    requires
        parts.len() > 0,
        path_laws::are_names(parts),
        parts.last() != ".."@,
    ensures
        cli::dir_name(text::join(parts, "/"@), false) == Some(parts.last()),
{
    path_laws::components_are_names(parts, 0);
}

/// The names of scripts, in their order.
pub proof fn scripts_are_named(scripts: Seq<(Seq<char>, Seq<char>)>, i: int)
    requires
        0 <= i < scripts.len(),
    ensures
        cli::script_names(scripts).len() == scripts.len(),
        cli::script_names(scripts)[i] == scripts[i].0,
{
}

// ── What is reported and removed ────────────────────────────────────────────
/// What a check of the store reports: where it is and what it holds, then one line for
/// each thing that is wrong with it, or that there is none.
pub proof fn report_has_lines(issues: Seq<String>, i: int, r: store::DoctorReport)
    ensures
        issues.len() == 0 ==> store::issue_lines(issues) == seq!["  ✓ No issues found"@],
        issues.len() > 0 ==> store::issue_lines(issues).len() == issues.len(),
        0 <= i < issues.len() ==> store::issue_lines(issues)[i] == "  ✗ "@ + issues[i]@,
        !r.store_exists ==> store::store_line(r) == "  ✗ Store: "@ + r.store_path@
            + " (not found)"@,
        r.store_exists ==> store::store_line(r) == "  ✓ Store: "@ + r.store_path@ + " ("@
            + text::decimal(r.python_count as nat) + " Python, "@ + text::decimal(
            r.node_count as nat,
        ) + " Node, "@ + text::decimal(r.rust_count as nat) + " Rust packages)"@,
{
}

/// A directory is only removed when it is empty, a link without what it leads to.
pub proof fn entries_are_removed(path: Seq<char>)
    ensures
        link::removal(path, link::EntryKind::Dir) == ActionModel::RemoveEmptyDir(path),
        link::removal(path, link::EntryKind::Link) == ActionModel::RemoveLink(path),
        link::removal(path, link::EntryKind::File) == ActionModel::RemoveFile(path),
{
}

} // verus!
