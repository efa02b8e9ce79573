use kong::python::markers::{
    marker_applies, marker_applies_full, marker_applies_in, marker_applies_with_extras,
    normalize_extra, tokenize, MarkerEnv,
};

fn linux() -> MarkerEnv { MarkerEnv::for_target("linux", "x86_64") }
fn windows() -> MarkerEnv { MarkerEnv::for_target("windows", "x86_64") }
fn mac() -> MarkerEnv { MarkerEnv::for_target("macos", "aarch64") }

#[test]
fn windows_only_dep_is_dropped_on_linux_and_kept_on_windows() {
    let m = "sys_platform == \"win32\"";
    assert!(!marker_applies_in(m, &linux()));
    assert!(!marker_applies_in(m, &mac()));
    assert!(marker_applies_in(m, &windows()));
}

#[test]
fn single_quotes_not_equal_and_platform_system() {
    assert!(marker_applies_in("sys_platform != 'win32'", &linux()));
    assert!(!marker_applies_in("sys_platform != 'win32'", &windows()));
    assert!(marker_applies_in("platform_system == 'Darwin'", &mac()));
    assert!(!marker_applies_in("platform_system == 'Darwin'", &linux()));
    assert!(marker_applies_in("os_name == 'nt'", &windows()));
    assert!(!marker_applies_in("os_name == 'nt'", &linux()));
}

#[test]
fn and_or_parentheses() {
    let m = "(sys_platform == 'win32' or sys_platform == 'cygwin') and platform_machine == 'AMD64'";
    assert!(marker_applies_in(m, &windows()));
    assert!(!marker_applies_in(m, &linux()));
    let u = "sys_platform != 'win32' and (sys_platform != 'cygwin' and platform_python_implementation != 'PyPy')";
    assert!(marker_applies_in(u, &linux()));
    assert!(!marker_applies_in(u, &windows()));
}

#[test]
fn unknown_variables_keep_the_dependency() {
    assert!(marker_applies_in("python_version < '3.11'", &linux()));
    assert!(marker_applies_in("python_version >= '3.8' and sys_platform == 'linux'", &linux()));
    assert!(!marker_applies_in("python_version < '3.11' and sys_platform == 'win32'", &linux()));
    assert!(marker_applies_in("python_version < '3.8' or sys_platform == 'win32'", &linux()));
}

#[test]
fn membership_and_garbage() {
    assert!(marker_applies_in("'linux' in sys_platform", &linux()));
    assert!(!marker_applies_in("'linux' not in sys_platform", &linux()));
    assert!(marker_applies_in("sys_platform == ", &linux()));
    assert!(marker_applies_in("", &linux()));
}

#[test]
fn extras_are_membership_in_the_requested_set() {
    let crypto = vec!["crypto".to_string()];
    let env = linux();
    assert!(!marker_applies_full("extra == \"crypto\"", &env, &[]));
    assert!(marker_applies_full("extra == \"crypto\"", &env, &crypto));
    assert!(marker_applies_full("extra == 'Crypto'", &env, &crypto), "PEP 685 normalization");
    assert!(!marker_applies_full("extra == 'cli'", &env, &crypto));
    let std = vec!["standard".to_string()];
    let m = "(sys_platform != 'win32' and (sys_platform != 'cygwin' and platform_python_implementation != 'PyPy')) and extra == 'standard'";
    assert!(marker_applies_full(m, &env, &std));
    assert!(!marker_applies_full(m, &windows(), &std));
    assert!(!marker_applies_full(m, &env, &[]));
    assert_eq!(normalize_extra("Dev__Tools."), "dev-tools");
}

#[test]
fn machine_names_match_python() {
    assert!(marker_applies_in("platform_machine == 'x86_64'", &linux()));
    assert!(marker_applies_in("platform_machine == 'arm64'", &mac()));
    assert!(marker_applies_in("platform_machine == 'AMD64'", &windows()));
}

#[test]
fn tokens_of_a_marker() {
    let toks = tokenize("(os_name=='nt') and \"x\" not in y").unwrap();
    assert_eq!(
        format!("{toks:?}"),
        r#"[LParen, Ident("os_name"), Op("=="), Str("nt"), RParen, Ident("and"), Str("x"), Ident("not"), Ident("in"), Ident("y")]"#
    );
    assert!(tokenize("'open").is_none());
    assert!(tokenize("a @ b").is_none());
}

#[test]
fn markers_of_the_machine() {
    let extras = vec!["standard".to_string()];
    assert!(marker_applies("os_name == 'posix'", &linux()));
    assert!(!marker_applies("os_name == 'nt'", &linux()));
    assert!(marker_applies_with_extras("extra == 'standard'", &extras, &linux()));
    assert!(!marker_applies_with_extras("extra == 'other'", &extras, &linux()));
    assert!(!marker_applies("extra ==", &linux()));
}

#[test]
fn names_beyond_ascii_are_letters() {
    assert_eq!(normalize_extra("ÄÖ_Ü"), "äö-ü");
    assert!(tokenize("größe == 'x'").is_some());
}

#[test]
fn combined_markers_hold_together() {
    let texts = ["os_name == 'posix'", "os_name == 'nt'", "extra == 'x'", "python_version < '3'"];
    let extras = vec!["x".to_string()];
    for a in texts {
        for b in texts {
            for env in [linux(), windows()] {
                let holds = |m: &str| marker_applies_full(m, &env, &extras);
                assert_eq!(holds(&format!("({a}) and ({b})")), holds(a) && holds(b), "{a} {b}");
                assert_eq!(holds(&format!("({a}) or ({b})")), holds(a) || holds(b), "{a} {b}");
            }
        }
    }
}

#[test]
fn normal_names_of_extras() {
    assert_eq!(normalize_extra("a-b"), normalize_extra("A_.b"));
    assert_eq!(normalize_extra("--A..B__"), "a-b");
    assert_eq!(normalize_extra(&normalize_extra("Foo.Bar")), "foo-bar");
    assert_eq!(normalize_extra("..."), "");
}
