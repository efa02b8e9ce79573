//! Services that run in the background: their files, their commands, and the steps
//! by which they are started and stopped.
use vstd::prelude::*;

use crate::chars;
use crate::config;
use crate::config::KongRules;
use crate::config::PackageEntry;
use crate::config::ServiceEntry;
use crate::paths;
use crate::runner;
use crate::text;

verus! {

// ── Files ───────────────────────────────────────────────────────────────────
/// The files of a service of a project.
#[derive(Debug)]
pub struct ServicePaths {
    pub root: String,
    pub data_dir: String,
    pub pid_file: String,
    pub log_file: String,
    pub port_file: String,
}

/// The directory of a service.
pub open spec fn service_root(env_dir: Seq<char>, name: Seq<char>) -> Seq<char> {
    paths::joined(paths::joined(env_dir, "services"@), name)
}

impl ServicePaths {
    /// The files of the service of that name.
    pub fn new(env_dir: &str, name: &str) -> (r: ServicePaths)
        ensures
            r.root@ == service_root(env_dir@, name@),
            r.data_dir@ == paths::joined(r.root@, "data"@),
            r.pid_file@ == paths::joined(r.root@, "pid"@),
            r.log_file@ == paths::joined(r.root@, "log"@),
            r.port_file@ == paths::joined(r.root@, "port"@),
    {
        let services = paths::join(env_dir, "services");
        let root = paths::join(services.as_str(), name);
        let data_dir = paths::join(root.as_str(), "data");
        let pid_file = paths::join(root.as_str(), "pid");
        let log_file = paths::join(root.as_str(), "log");
        let port_file = paths::join(root.as_str(), "port");
        ServicePaths { root, data_dir, pid_file, log_file, port_file }
    }
}

// ── Which services ──────────────────────────────────────────────────────────
/// Why no service is meant.
#[derive(Debug)]
pub enum ServiceError {
    /// The rules have none.
    NoServices,
    /// The rules have none of that name.
    NotFound { name: String, available: Vec<String> },
}

impl ServiceError {
    /// What is said of it.
    pub fn message(&self) -> (r: String)
        ensures
            r@ == match self {
                ServiceError::NoServices =>
                    "No services defined in kong.rules. Does the project have a Brewfile with postgres/redis?"@,
                ServiceError::NotFound { name, available } => "service '"@ + name@
                    + "' not found. Available: "@ + text::join(text::views(available@), ", "@),
            },
    {
        match self {
            ServiceError::NoServices => String::from_str(
                "No services defined in kong.rules. Does the project have a Brewfile with postgres/redis?",
            ),
            ServiceError::NotFound { name, available } => {
                let mut out = String::from_str("service '");
                out.append(name.as_str());
                out.append("' not found. Available: ");
                out.append(chars::join(available, ", ").as_str());
                out
            },
        }
    }
}

/// The position of the first service of that name.
pub open spec fn is_named(services: Seq<ServiceEntry>, name: Seq<char>, i: int) -> bool {
    &&& 0 <= i < services.len()
    &&& services[i].name@ == name
    &&& forall|j: int| 0 <= j < i ==> (#[trigger] services[j]).name@ != name
}

/// The names of services.
pub open spec fn service_names(services: Seq<ServiceEntry>) -> Seq<Seq<char>> {
    Seq::new(services.len(), |i: int| services[i].name@)
}

fn find_service(services: &Vec<ServiceEntry>, name: &str) -> (r: Option<usize>)
    ensures
        match r {
            Some(i) => is_named(services@, name@, i as int),
            None => forall|i: int| !#[trigger] is_named(services@, name@, i),
        },
{
    let mut i: usize = 0;
    while i < services.len()
        invariant
            i <= services.len(),
            forall|j: int| 0 <= j < i ==> (#[trigger] services@[j]).name@ != name@,
        decreases services.len() - i,
    {
        if chars::str_same(services[i].name.as_str(), name) {
            return Some(i);
        }
        i = i + 1;
    }
    None
}

fn names_of(services: &Vec<ServiceEntry>) -> (r: Vec<String>)
    ensures
        text::views(r@) == service_names(services@),
{
    let mut out: Vec<String> = Vec::new();
    let mut i: usize = 0;
    while i < services.len()
        invariant
            i <= services.len(),
            out@.len() == i,
            forall|k: int| 0 <= k < i ==> (#[trigger] out@[k])@ == services@[k].name@,
        decreases services.len() - i,
    {
        out.push(services[i].name.clone());
        i = i + 1;
    }
    assert(text::views(out@) =~= service_names(services@));
    out
}

/// The positions of the services that are meant: the one of that name, or all.
pub fn match_services(rules: &KongRules, name: Option<&str>) -> (r: Result<
    Vec<usize>,
    ServiceError,
>)
    ensures
        ({
            let services = rules.services@;
            match r {
                Ok(chosen) => {
                    &&& services.len() > 0
                    &&& match name {
                        Some(n) => chosen@.len() == 1 && is_named(services, n@, chosen@[0] as int),
                        None => chosen@.len() == services.len() && forall|i: int|
                            0 <= i < chosen@.len() ==> #[trigger] chosen@[i] == i,
                    }
                },
                Err(ServiceError::NoServices) => services.len() == 0,
                Err(ServiceError::NotFound { name: missing, available }) => {
                    &&& services.len() > 0
                    &&& name matches Some(n)
                    &&& missing@ == n@
                    &&& forall|i: int| !#[trigger] is_named(services, n@, i)
                    &&& text::views(available@) == service_names(services)
                },
            }
        }),
{
    let services = &rules.services;
    if services.len() == 0 {
        return Err(ServiceError::NoServices);
    }
    let mut out: Vec<usize> = Vec::new();
    match name {
        Some(n) => match find_service(services, n) {
            Some(i) => {
                out.push(i);
                Ok(out)
            },
            None => Err(
                ServiceError::NotFound { name: String::from_str(n), available: names_of(services) },
            ),
        },
        None => {
            let mut i: usize = 0;
            while i < services.len()
                invariant
                    i <= services.len(),
                    out@.len() == i,
                    forall|k: int| 0 <= k < i ==> #[trigger] out@[k] == k,
                decreases services.len() - i,
            {
                out.push(i);
                i = i + 1;
            }
            Ok(out)
        },
    }
}

/// The port on which a service is started: the one that is asked for, or its own,
/// or none.
pub open spec fn port_for(svc: ServiceEntry, port_override: Option<u16>) -> u16 {
    match port_override {
        Some(p) => p,
        None => match svc.port {
            Some(p) => p,
            None => 0,
        },
    }
}

/// The port on which a service is started.
pub fn chosen_port(svc: &ServiceEntry, port_override: Option<u16>) -> (r: u16)
    ensures
        r == port_for(*svc, port_override),
{
    match port_override {
        Some(p) => p,
        None => match svc.port {
            Some(p) => p,
            None => 0,
        },
    }
}

/// The services that are to be started, each with its port: the one of that name, or
/// all.
pub fn start(rules: &KongRules, name: Option<&str>, port_override: Option<u16>) -> (r: Result<
    Vec<(usize, u16)>,
    ServiceError,
>)
    ensures
        ({
            let services = rules.services@;
            match r {
                Ok(chosen) => {
                    &&& services.len() > 0
                    &&& match name {
                        Some(n) => chosen@.len() == 1 && is_named(
                            services,
                            n@,
                            chosen@[0].0 as int,
                        ),
                        None => chosen@.len() == services.len() && forall|i: int|
                            0 <= i < chosen@.len() ==> (#[trigger] chosen@[i]).0 == i,
                    }
                    &&& forall|i: int|
                        0 <= i < chosen@.len() ==> (#[trigger] chosen@[i]).1 == port_for(
                            services[chosen@[i].0 as int],
                            port_override,
                        )
                },
                Err(ServiceError::NoServices) => services.len() == 0,
                Err(ServiceError::NotFound { name: missing, available }) => {
                    &&& services.len() > 0
                    &&& name matches Some(n)
                    &&& missing@ == n@
                    &&& forall|i: int| !#[trigger] is_named(services, n@, i)
                    &&& text::views(available@) == service_names(services)
                },
            }
        }),
{
    let chosen = match match_services(rules, name) {
        Ok(chosen) => chosen,
        Err(e) => {
            return Err(e);
        },
    };
    let mut out: Vec<(usize, u16)> = Vec::new();
    let mut i: usize = 0;
    while i < chosen.len()
        invariant
            i <= chosen.len(),
            out@.len() == i,
            forall|k: int| 0 <= k < chosen@.len() ==> #[trigger] chosen@[k] < rules.services@.len(),
            forall|k: int|
                0 <= k < i ==> (#[trigger] out@[k]) == (
                    chosen@[k],
                    port_for(rules.services@[chosen@[k] as int], port_override),
                ),
        decreases chosen.len() - i,
    {
        let at: usize = chosen[i];
        out.push((at, chosen_port(&rules.services[at], port_override)));
        i = i + 1;
    }
    Ok(out)
}

// ── Commands ────────────────────────────────────────────────────────────────
/// A character that means itself to a shell, wherever it stands in a word.
pub open spec fn is_plain(c: char) -> bool {
    text::is_ascii_alnum(c) || c == '/' || c == '.' || c == '_' || c == '-' || c == '+' || c == ','
        || c == '@' || c == '%' || c == ':' || c == '='
}

/// A text that a shell reads as one word that is the text.
pub open spec fn is_plain_word(s: Seq<char>) -> bool {
    s.len() > 0 && forall|i: int| 0 <= i < s.len() ==> is_plain(#[trigger] s[i])
}

/// A path as a word of a shell: between quotes where it has characters that mean
/// something to a shell, or none at all.
pub open spec fn quoted(path: Seq<char>) -> Seq<char> {
    if is_plain_word(path) {
        path
    } else {
        "'"@ + text::replace_char(path, '\'', "'\\''"@) + "'"@
    }
}

fn plain_word(s: &[char]) -> (r: bool)
    ensures
        r == is_plain_word(s@),
{
    let mut i: usize = 0;
    while i < s.len()
        invariant
            i <= s.len(),
            forall|k: int| 0 <= k < i ==> is_plain(#[trigger] s@[k]),
        decreases s.len() - i,
    {
        let c = s[i];
        let letter = ('a' <= c && c <= 'z') || ('A' <= c && c <= 'Z');
        if !(letter || chars::is_digit(c) || c == '/' || c == '.' || c == '_' || c == '-' || c
            == '+' || c == ',' || c == '@' || c == '%' || c == ':' || c == '=') {
            assert(!is_plain(s@[i as int]));
            return false;
        }
        i = i + 1;
    }
    s.len() > 0
}

/// A path as a word of a shell.
pub fn shell_quote(path: &str) -> (r: String)
    ensures
        r@ == quoted(path@),
{
    let whole = chars::of(path);
    if plain_word(&whole) {
        String::from_str(path)
    } else {
        let mut out = String::from_str("'");
        let inner = chars::to_string(&chars::replace_char(&whole, '\'', "'\\''"));
        out.append(inner.as_str());
        out.append("'");
        out
    }
}

/// What a shell reads as one word: what stands between single quotes is taken as it
/// is, and so is a character behind a backslash outside them. Any other character
/// there has to be a plain one, since it would end the word or mean something else.
pub open spec fn unquoted(s: Seq<char>, inside: bool) -> Option<Seq<char>>
    decreases s.len(),
{
    if s.len() == 0 {
        if inside {
            None
        } else {
            Some(Seq::empty())
        }
    } else if s[0] == '\'' {
        unquoted(s.skip(1), !inside)
    } else if !inside && s[0] == '\\' && s.len() > 1 {
        match unquoted(s.skip(2), inside) {
            Some(rest) => Some(seq![s[1]] + rest),
            None => None,
        }
    } else if !inside && !is_plain(s[0]) {
        None
    } else {
        match unquoted(s.skip(1), inside) {
            Some(rest) => Some(seq![s[0]] + rest),
            None => None,
        }
    }
}

/// A shell reads a path that was quoted as one word, which is the path.
pub proof fn shell_reads_path(path: Seq<char>)
    ensures
        quoted(path).len() > 0,
        unquoted(quoted(path), false) == Some(path),
{
    if is_plain_word(path) {
        plain_is_read(path);
    } else {
        reveal_strlit("'");
        let inner = text::replace_char(path, '\'', "'\\''"@);
        let end = seq!['\''];
        assert(quoted(path) =~= seq!['\''] + inner + end);
        assert(quoted(path).skip(1) =~= inner + end);
        assert(end.skip(1) =~= Seq::<char>::empty());
        assert(unquoted(end, true) == unquoted(Seq::<char>::empty(), false));
        assert(unquoted(Seq::<char>::empty(), false) == Some(Seq::<char>::empty()));
        inside_quotes(path, end);
        assert(path + Seq::<char>::empty() =~= path);
    }
}

/// Plain characters are read as they are.
proof fn plain_is_read(s: Seq<char>)
    requires
        forall|i: int| 0 <= i < s.len() ==> is_plain(#[trigger] s[i]),
    ensures
        unquoted(s, false) == Some(s),
    decreases s.len(),
{
    if s.len() > 0 {
        assert(is_plain(s[0]));
        plain_is_read(s.skip(1));
        assert(seq![s[0]] + s.skip(1) =~= s);
    } else {
        assert(s =~= Seq::<char>::empty());
    }
}

/// What was replaced is read back, whatever stands behind it.
proof fn inside_quotes(path: Seq<char>, rest: Seq<char>)
    requires
        unquoted(rest, true) is Some,
    ensures
        unquoted(text::replace_char(path, '\'', "'\\''"@) + rest, true) == Some(
            path + unquoted(rest, true)->0,
        ),
    decreases path.len(),
{
    reveal_strlit("'\\''");
    if path.len() == 0 {
        assert(text::replace_char(path, '\'', "'\\''"@) + rest =~= rest);
        assert(path + unquoted(rest, true)->0 =~= unquoted(rest, true)->0);
    } else {
        let c = path.last();
        let front = path.drop_last();
        let piece = if c == '\'' {
            "'\\''"@
        } else {
            seq![c]
        };
        let tail = piece + rest;
        assert(text::replace_char(path, '\'', "'\\''"@) + rest =~= text::replace_char(
            front,
            '\'',
            "'\\''"@,
        ) + tail);
        if c == '\'' {
            assert(tail[0] == '\'');
            assert(tail.skip(1)[0] == '\\' && tail.skip(1)[1] == '\'');
            assert(tail.skip(1).skip(2) =~= seq!['\''] + rest);
            let last = seq!['\''] + rest;
            assert(last.skip(1) =~= rest);
            assert(unquoted(last, false) == unquoted(rest, true));
            assert(unquoted(tail.skip(1), false) == Some(seq!['\''] + unquoted(rest, true)->0));
            assert(unquoted(tail, true) == Some(seq!['\''] + unquoted(rest, true)->0));
        } else {
            assert(tail[0] == c);
            assert(tail.skip(1) =~= rest);
        }
        assert(unquoted(tail, true) == Some(seq![c] + unquoted(rest, true)->0));
        inside_quotes(front, tail);
        assert(front + (seq![c] + unquoted(rest, true)->0) =~= path + unquoted(rest, true)->0);
    }
}

/// A command with the files and the port of a service in place of their marks.
pub open spec fn expanded(
    template: Seq<char>,
    data_dir: Seq<char>,
    log_file: Seq<char>,
    pid_file: Seq<char>,
    port: nat,
) -> Seq<char> {
    let a = text::replace_text(template, "{data_dir}"@, quoted(data_dir));
    let b = text::replace_text(a, "{log_file}"@, quoted(log_file));
    let c = text::replace_text(b, "{pid_file}"@, quoted(pid_file));
    text::replace_text(c, "{port}"@, text::decimal(port))
}

/// A command with the files and the port of a service in place of their marks.
pub fn expand_cmd(template: &str, files: &ServicePaths, port: u16) -> (r: String)
    ensures
        r@ == expanded(
            template@,
            files.data_dir@,
            files.log_file@,
            files.pid_file@,
            port as nat,
        ),
{
    proof {
        reveal_strlit("{data_dir}");
        reveal_strlit("{log_file}");
        reveal_strlit("{pid_file}");
        reveal_strlit("{port}");
    }
    let a = chars::of(template);
    let b = chars::replace_text(&a, "{data_dir}", shell_quote(files.data_dir.as_str()).as_str());
    let c = chars::replace_text(&b, "{log_file}", shell_quote(files.log_file.as_str()).as_str());
    let d = chars::replace_text(&c, "{pid_file}", shell_quote(files.pid_file.as_str()).as_str());
    let number = chars::to_string(&chars::decimal(port as u128));
    chars::to_string(&chars::replace_text(&d, "{port}", number.as_str()))
}

/// A command for a service.
pub open spec fn command_for(template: Seq<char>, files: ServicePaths, port: nat) -> Seq<char> {
    expanded(template, files.data_dir@, files.log_file@, files.pid_file@, port)
}

// ── The environment ─────────────────────────────────────────────────────────
/// A text that may be missing, as a list.
pub open spec fn if_set(s: Option<Seq<char>>) -> Seq<Seq<char>> {
    match s {
        Some(v) => seq![v],
        None => Seq::empty(),
    }
}

/// The first package of that name.
pub open spec fn package_named(packages: Seq<PackageEntry>, name: Seq<char>) -> Option<PackageEntry>
    decreases packages.len(),
{
    if packages.len() == 0 {
        None
    } else if packages[0].name@ == name {
        Some(packages[0])
    } else {
        package_named(packages.skip(1), name)
    }
}

/// The packages of Homebrew of a project.
pub open spec fn brew_packages(rules: KongRules) -> Seq<PackageEntry> {
    match rules.brew {
        Some(brew) => brew.packages@,
        None => Seq::empty(),
    }
}

/// The variables that are set for the commands of a service: the search paths, with
/// the directories of Homebrew packages before what was there, and the directory of
/// the package that the service comes from.
pub open spec fn service_variables(
    svc: ServiceEntry,
    store_root: Seq<char>,
    rules: KongRules,
    existing: Seq<Seq<char>>,
    path: Option<Seq<char>>,
    lib_path: Option<Seq<char>>,
    macos: bool,
    windows: bool,
) -> Seq<(Seq<char>, Seq<char>)> {
    let packages = brew_packages(rules);
    let sep = runner::separator(windows);
    let bins = runner::package_dirs(packages, store_root, seq!["bin"@, "sbin"@], existing);
    let libs = runner::package_dirs(packages, store_root, seq!["lib"@], existing);
    seq![("PATH"@, text::join(bins + if_set(path), sep))] + (if libs.len() > 0 {
        seq![(runner::lib_variable(macos), text::join(libs + if_set(lib_path), sep))]
    } else {
        Seq::empty()
    }) + (match package_named(packages, svc.brew_package@) {
        Some(p) => seq![("HOMEBREW_PREFIX"@, paths::joined(store_root, p.store_path@))],
        None => Seq::empty(),
    })
}

fn find_package<'a>(packages: &'a Vec<PackageEntry>, name: &str) -> (r: Option<&'a PackageEntry>)
    ensures
        match r {
            Some(p) => package_named(packages@, name@) == Some(*p),
            None => package_named(packages@, name@) is None,
        },
{
    let mut i: usize = 0;
    assert(packages@.skip(0) =~= packages@);
    while i < packages.len()
        invariant
            i <= packages.len(),
            package_named(packages@, name@) == package_named(packages@.skip(i as int), name@),
        decreases packages.len() - i,
    {
        if chars::str_same(packages[i].name.as_str(), name) {
            return Some(&packages[i]);
        }
        assert(packages@.skip(i as int).skip(1) =~= packages@.skip(i + 1));
        i = i + 1;
    }
    None
}

/// The variables that are set for the commands of a service. `existing` lists the
/// directories that exist; `path` and `lib_path` are the values that the search
/// paths have, where they have any.
pub fn build_service_env(
    svc: &ServiceEntry,
    store_root: &str,
    rules: &KongRules,
    existing: &[String],
    path: Option<&str>,
    lib_path: Option<&str>,
    macos: bool,
    windows: bool,
) -> (r: Vec<(String, String)>)
    ensures
        config::script_views(r@) == service_variables(
            *svc,
            store_root@,
            *rules,
            text::views(existing@),
            text::opt_str_view(path),
            text::opt_str_view(lib_path),
            macos,
            windows,
        ),
{
    let mut bins: Vec<String> = Vec::new();
    let mut libs: Vec<String> = Vec::new();
    let mut prefix: Option<String> = None;
    let ghost there = text::views(existing@);
    let ghost packages = brew_packages(*rules);
    assert(text::views(bins@) =~= Seq::empty());
    assert(text::views(libs@) =~= Seq::empty());
    let bin_subs: [&str; 2] = ["bin", "sbin"];
    let bin_slice = bin_subs.as_slice();
    assert(paths::str_views(bin_slice@) =~= seq!["bin"@, "sbin"@]);
    let lib_subs: [&str; 1] = ["lib"];
    let lib_slice = lib_subs.as_slice();
    assert(paths::str_views(lib_slice@) =~= seq!["lib"@]);
    if let Some(brew) = &rules.brew {
        runner::add_package_dirs(&mut bins, &brew.packages, store_root, bin_slice, existing);
        runner::add_package_dirs(&mut libs, &brew.packages, store_root, lib_slice, existing);
        if let Some(p) = find_package(&brew.packages, svc.brew_package.as_str()) {
            prefix = Some(paths::join(store_root, p.store_path.as_str()));
        }
    }
    let ghost bin_dirs = runner::package_dirs(packages, store_root@, seq!["bin"@, "sbin"@], there);
    let ghost lib_dirs = runner::package_dirs(packages, store_root@, seq!["lib"@], there);
    assert(text::views(bins@) =~= bin_dirs);
    assert(text::views(libs@) =~= lib_dirs);
    if let Some(p) = path {
        bins.push(String::from_str(p));
    }
    assert(text::views(bins@) =~= bin_dirs + if_set(text::opt_str_view(path)));
    let sep = if windows {
        ";"
    } else {
        ":"
    };
    let mut out: Vec<(String, String)> = Vec::new();
    out.push((String::from_str("PATH"), chars::join(&bins, sep)));
    if libs.len() > 0 {
        if let Some(l) = lib_path {
            libs.push(String::from_str(l));
        }
        assert(text::views(libs@) =~= lib_dirs + if_set(text::opt_str_view(lib_path)));
        out.push((String::from_str(runner::lib_env_key(macos)), chars::join(&libs, sep)));
    } else {
        assert(lib_dirs.len() == 0);
    }
    if let Some(p) = prefix {
        out.push((String::from_str("HOMEBREW_PREFIX"), p));
    }
    assert(config::script_views(out@) =~= service_variables(
        *svc,
        store_root@,
        *rules,
        there,
        text::opt_str_view(path),
        text::opt_str_view(lib_path),
        macos,
        windows,
    ));
    out
}

// ── Whether it runs ─────────────────────────────────────────────────────────
/// The process in the content of a file.
pub open spec fn pid_in(content: Option<Seq<char>>) -> Option<nat> {
    match content {
        Some(s) => text::parse_unsigned(text::trim(s), u32::MAX as nat),
        None => None,
    }
}

/// The process of a service, by the content of its file where there is one.
pub fn read_pid(content: Option<&str>) -> (r: Option<u32>)
    ensures
        match r {
            Some(p) => pid_in(text::opt_str_view(content)) == Some(p as nat),
            None => pid_in(text::opt_str_view(content)) is None,
        },
{
    match content {
        Some(s) => {
            let whole = chars::of(s);
            chars::parse_u32(chars::trim(&whole))
        },
        None => None,
    }
}

/// The state of a service.
#[derive(Debug, Clone, Copy, PartialEq, Eq, Structural)]
pub enum ServiceStatus {
    Running(u32),
    /// Its process is no more.
    Dead(u32),
    Stopped,
}

/// The state of a service, by its process and whether that is alive.
pub open spec fn status_of(pid: Option<u32>, alive: bool) -> ServiceStatus {
    match pid {
        Some(p) => if alive {
            ServiceStatus::Running(p)
        } else {
            ServiceStatus::Dead(p)
        },
        None => ServiceStatus::Stopped,
    }
}

/// The state of a service, by its process and whether that is alive.
pub fn read_pid_status(pid: Option<u32>, alive: bool) -> (r: ServiceStatus)
    ensures
        r == status_of(pid, alive),
{
    match pid {
        Some(p) => if alive {
            ServiceStatus::Running(p)
        } else {
            ServiceStatus::Dead(p)
        },
        None => ServiceStatus::Stopped,
    }
}

/// The port of a service, by the content of its file where there is one.
pub fn read_port(content: Option<&str>) -> (r: Option<u16>)
    ensures
        match content {
            Some(s) => match r {
                Some(p) => text::parse_unsigned(text::trim(s@), u16::MAX as nat) == Some(p as nat),
                None => text::parse_unsigned(text::trim(s@), u16::MAX as nat) is None,
            },
            None => r is None,
        },
{
    match content {
        Some(s) => {
            let whole = chars::of(s);
            chars::parse_u16(chars::trim(&whole))
        },
        None => None,
    }
}

// ── Starting ────────────────────────────────────────────────────────────────
/// A step of the start of a service.
#[derive(Debug)]
pub enum StartStep {
    /// It runs already.
    AlreadyRunning,
    /// Run a command that fills the data directory.
    Initialize { command: String },
    /// Run the command that starts it.
    Launch { command: String },
    /// Write its port to its file, and look for its process.
    RecordPort { content: String },
    /// Wait a moment for its process.
    AwaitPid,
    /// Write its process to its file.
    RecordPid { content: String },
    /// It is started.
    Started,
    /// A command failed.
    Failed { message: String },
}

/// A step of the start of a service.
pub enum StartModel {
    AlreadyRunning,
    Initialize(Seq<char>),
    Launch(Seq<char>),
    RecordPort(Seq<char>),
    AwaitPid,
    RecordPid(Seq<char>),
    Started,
    Failed(Seq<char>),
}

impl View for StartStep {
    type V = StartModel;

    open spec fn view(&self) -> StartModel {
        match self {
            StartStep::AlreadyRunning => StartModel::AlreadyRunning,
            StartStep::Initialize { command } => StartModel::Initialize(command@),
            StartStep::Launch { command } => StartModel::Launch(command@),
            StartStep::RecordPort { content } => StartModel::RecordPort(content@),
            StartStep::AwaitPid => StartModel::AwaitPid,
            StartStep::RecordPid { content } => StartModel::RecordPid(content@),
            StartStep::Started => StartModel::Started,
            StartStep::Failed { message } => StartModel::Failed(message@),
        }
    }
}

/// The first step of a start: nothing is done to a service that runs, and only an
/// empty data directory is filled.
pub open spec fn first_step(
    svc: ServiceEntry,
    files: ServicePaths,
    port: nat,
    status: ServiceStatus,
    data_is_empty: bool,
) -> StartModel {
    if status is Running {
        StartModel::AlreadyRunning
    } else {
        match svc.init_cmd {
            Some(init) if data_is_empty => StartModel::Initialize(
                command_for(init@, files, port),
            ),
            _ => StartModel::Launch(command_for(svc.start_cmd@, files, port)),
        }
    }
}

/// The first step of the start of a service on a port.
pub fn start_one(
    svc: &ServiceEntry,
    files: &ServicePaths,
    port: u16,
    status: ServiceStatus,
    data_is_empty: bool,
) -> (r: StartStep)
    ensures
        r@ == first_step(*svc, *files, port as nat, status, data_is_empty),
{
    if let ServiceStatus::Running(_) = status {
        return StartStep::AlreadyRunning;
    }
    if let Some(init) = &svc.init_cmd {
        if data_is_empty {
            return StartStep::Initialize { command: expand_cmd(init.as_str(), files, port) };
        }
    }
    StartStep::Launch { command: expand_cmd(svc.start_cmd.as_str(), files, port) }
}

/// The step behind the command that fills the data directory.
pub fn after_initialize(
    svc: &ServiceEntry,
    files: &ServicePaths,
    port: u16,
    success: bool,
    stderr: &str,
) -> (r: StartStep)
    ensures
        r@ == if success {
            StartModel::Launch(command_for(svc.start_cmd@, *files, port as nat))
        } else {
            StartModel::Failed("init command failed for "@ + svc.name@ + ": "@ + stderr@)
        },
{
    if success {
        StartStep::Launch { command: expand_cmd(svc.start_cmd.as_str(), files, port) }
    } else {
        let mut message = String::from_str("init command failed for ");
        message.append(svc.name.as_str());
        message.append(": ");
        message.append(stderr);
        StartStep::Failed { message }
    }
}

/// The step behind the command that starts a service.
pub fn after_launch(svc: &ServiceEntry, port: u16, success: bool, stderr: &str, stdout: &str) -> (r:
    StartStep)
    ensures
        r@ == if success {
            StartModel::RecordPort(text::decimal(port as nat))
        } else {
            StartModel::Failed(
                "failed to start "@ + svc.name@ + ": "@ + text::trim(stderr@) + "\n"@ + text::trim(
                    stdout@,
                ),
            )
        },
{
    if success {
        StartStep::RecordPort { content: chars::to_string(&chars::decimal(port as u128)) }
    } else {
        let mut message = String::from_str("failed to start ");
        message.append(svc.name.as_str());
        message.append(": ");
        let err = chars::of(stderr);
        message.append(chars::to_string(chars::trim(&err)).as_str());
        message.append("\n");
        let out = chars::of(stdout);
        message.append(chars::to_string(chars::trim(&out)).as_str());
        StartStep::Failed { message }
    }
}

/// The step behind the record of the port: the process is awaited where its file is
/// missing or blank.
pub fn after_port(pid_content: Option<&str>) -> (r: StartStep)
    ensures
        r@ == match pid_content {
            Some(s) => if text::trim(s@).len() == 0 {
                StartModel::AwaitPid
            } else {
                StartModel::Started
            },
            None => StartModel::AwaitPid,
        },
{
    match pid_content {
        Some(s) => {
            let whole = chars::of(s);
            if chars::trim(&whole).len() == 0 {
                StartStep::AwaitPid
            } else {
                StartStep::Started
            }
        },
        None => StartStep::AwaitPid,
    }
}

/// The step behind the wait: PostgreSQL writes its process into the first line of a
/// file of its own, whose content is `postmaster` where it can be read.
pub fn after_wait(svc: &ServiceEntry, postmaster: Option<&str>) -> (r: StartStep)
    ensures
        r@ == match postmaster {
            Some(s) => if svc.name@ == "postgres"@ && text::lines(s@).len() > 0 {
                StartModel::RecordPid(text::lines(s@)[0])
            } else {
                StartModel::Started
            },
            None => StartModel::Started,
        },
{
    if let Some(s) = postmaster {
        if chars::str_same(svc.name.as_str(), "postgres") {
            let whole = chars::of(s);
            let lines = chars::lines(&whole);
            if lines.len() > 0 {
                assert(chars::slice_views(lines@)[0] == lines@[0]@);
                return StartStep::RecordPid { content: chars::to_string(lines[0]) };
            }
        }
    }
    StartStep::Started
}

/// A service that runs is not started again, whatever its commands are.
pub proof fn running_service_is_left_alone(
    svc: ServiceEntry,
    files: ServicePaths,
    port: nat,
    status: ServiceStatus,
    data_is_empty: bool,
)
    ensures
        status is Running <==> first_step(svc, files, port, status, data_is_empty)
            is AlreadyRunning,
{
}

/// Data that is there is not initialised again.
pub proof fn data_is_kept(
    svc: ServiceEntry,
    files: ServicePaths,
    port: nat,
    status: ServiceStatus,
)
    ensures
        !(first_step(svc, files, port, status, false) is Initialize),
{
}

// ── Stopping ────────────────────────────────────────────────────────────────
/// The positions of the services that are to be stopped: the one of that name, or
/// all.
pub fn stop(rules: &KongRules, name: Option<&str>) -> (r: Result<Vec<usize>, ServiceError>)
    ensures
        ({
            let services = rules.services@;
            match r {
                Ok(chosen) => {
                    &&& services.len() > 0
                    &&& match name {
                        Some(n) => chosen@.len() == 1 && is_named(services, n@, chosen@[0] as int),
                        None => chosen@.len() == services.len() && forall|i: int|
                            0 <= i < chosen@.len() ==> #[trigger] chosen@[i] == i,
                    }
                },
                Err(ServiceError::NoServices) => services.len() == 0,
                Err(ServiceError::NotFound { name: missing, available }) => {
                    &&& services.len() > 0
                    &&& name matches Some(n)
                    &&& missing@ == n@
                    &&& forall|i: int| !#[trigger] is_named(services, n@, i)
                    &&& text::views(available@) == service_names(services)
                },
            }
        }),
{
    match_services(rules, name)
}

/// How a service is stopped.
#[derive(Debug)]
pub enum StopStep {
    /// It does not run.
    NotRunning,
    /// Its process is asked to end; its file is removed then.
    Signal { pid: u32 },
    /// A command is run; the file of its process is removed then.
    Command { command: String },
}

/// How a service is stopped.
pub fn stop_one(svc: &ServiceEntry, files: &ServicePaths, status: ServiceStatus) -> (r: StopStep)
    ensures
        match status {
            ServiceStatus::Running(p) => if "signal:"@.is_prefix_of(svc.stop_cmd@) {
                r == (StopStep::Signal { pid: p })
            } else {
                r matches StopStep::Command { command } && command@ == command_for(
                    svc.stop_cmd@,
                    *files,
                    0,
                )
            },
            _ => r is NotRunning,
        },
{
    match status {
        ServiceStatus::Running(pid) => {
            let stop = chars::of(svc.stop_cmd.as_str());
            if chars::starts_with(&stop, "signal:") {
                StopStep::Signal { pid }
            } else {
                StopStep::Command { command: expand_cmd(svc.stop_cmd.as_str(), files, 0) }
            }
        },
        _ => StopStep::NotRunning,
    }
}

// ── Reports ─────────────────────────────────────────────────────────────────
/// A text with spaces behind it, up to a width.
pub open spec fn padded(s: Seq<char>, width: nat) -> Seq<char> {
    if s.len() >= width {
        s
    } else {
        s + Seq::new((width - s.len()) as nat, |i: int| ' ')
    }
}

fn append_padded(out: &mut String, s: &str, width: usize)
    ensures
        final(out)@ == old(out)@ + padded(s@, width as nat),
{
    out.append(s);
    let ghost start = old(out)@ + s@;
    let mut n: usize = chars::of(s).len();
    let ghost first = n as int;
    while n < width
        invariant
            first == s@.len(),
            first <= n,
            n <= width || n == first,
            out@ == start + Seq::new((n - first) as nat, |i: int| ' '),
        decreases width - n,
    {
        out.append(" ");
        n = n + 1;
        proof {
            reveal_strlit(" ");
        }
        assert(out@ =~= start + Seq::new((n - first) as nat, |i: int| ' '));
    }
    assert(out@ =~= old(out)@ + padded(s@, width as nat));
}

/// The word for a state.
pub open spec fn status_word(status: ServiceStatus) -> Seq<char> {
    match status {
        ServiceStatus::Running(_) => "running"@,
        ServiceStatus::Dead(_) => "dead"@,
        ServiceStatus::Stopped => "stopped"@,
    }
}

/// A number, or a dash where there is none.
pub open spec fn number_or_dash(n: Option<nat>) -> Seq<char> {
    match n {
        Some(v) => text::decimal(v),
        None => "—"@,
    }
}

/// The process of a state.
pub open spec fn pid_of(status: ServiceStatus) -> Option<nat> {
    match status {
        ServiceStatus::Running(p) => Some(p as nat),
        ServiceStatus::Dead(p) => Some(p as nat),
        ServiceStatus::Stopped => None,
    }
}

/// A row of the table of services.
pub open spec fn row(
    name: Seq<char>,
    status: Seq<char>,
    port: Seq<char>,
    pid: Seq<char>,
) -> Seq<char> {
    padded(name, 12) + " "@ + padded(status, 8) + " "@ + padded(port, 8) + " "@ + pid
}

fn table_row(name: &str, status: &str, port: &str, pid: &str) -> (r: String)
    ensures
        r@ == row(name@, status@, port@, pid@),
{
    let mut out = String::new();
    append_padded(&mut out, name, 12);
    out.append(" ");
    append_padded(&mut out, status, 8);
    out.append(" ");
    append_padded(&mut out, port, 8);
    out.append(" ");
    out.append(pid);
    assert(out@ =~= row(name@, status@, port@, pid@));
    out
}

/// The head of the table of services.
pub fn status_header() -> (r: String)
    ensures
        r@ == row("SERVICE"@, "STATUS"@, "PORT"@, "PID"@),
{
    table_row("SERVICE", "STATUS", "PORT", "PID")
}

/// The row of a service in the table.
pub fn status(name: &str, state: ServiceStatus, port: Option<u16>) -> (r: String)
    ensures
        r@ == row(
            name@,
            status_word(state),
            number_or_dash(
                match port {
                    Some(p) => Some(p as nat),
                    None => None,
                },
            ),
            number_or_dash(pid_of(state)),
        ),
{
    let word = match state {
        ServiceStatus::Running(_) => "running",
        ServiceStatus::Dead(_) => "dead",
        ServiceStatus::Stopped => "stopped",
    };
    let port = match port {
        Some(p) => chars::to_string(&chars::decimal(p as u128)),
        None => String::from_str("—"),
    };
    let pid = match state {
        ServiceStatus::Running(p) => chars::to_string(&chars::decimal(p as u128)),
        ServiceStatus::Dead(p) => chars::to_string(&chars::decimal(p as u128)),
        ServiceStatus::Stopped => String::from_str("—"),
    };
    table_row(name, word, port.as_str(), pid.as_str())
}

/// The last lines of a text, as many as are asked for.
pub open spec fn last_lines(content: Seq<char>, n: nat) -> Seq<Seq<char>> {
    let all = text::lines(content);
    if all.len() <= n {
        all
    } else {
        all.skip(all.len() - n)
    }
}

/// The last lines of a log.
pub fn logs(content: &str, lines: usize) -> (r: Vec<String>)
    ensures
        text::views(r@) == last_lines(content@, lines as nat),
{
    let whole = chars::of(content);
    let all = chars::lines(&whole);
    let ghost texts = chars::slice_views(all@);
    let start: usize = if all.len() <= lines {
        0
    } else {
        all.len() - lines
    };
    let mut out: Vec<String> = Vec::new();
    let mut i: usize = start;
    while i < all.len()
        invariant
            start <= i <= all.len(),
            texts == chars::slice_views(all@),
            out@.len() == i - start,
            forall|k: int| 0 <= k < out@.len() ==> (#[trigger] out@[k])@ == texts[start + k],
        decreases all.len() - i,
    {
        assert(texts[i as int] == all@[i as int]@);
        out.push(chars::to_string(all[i]));
        i = i + 1;
    }
    assert(text::views(out@) =~= last_lines(content@, lines as nat));
    out
}

} // verus!
