use kong::config::{
    BrewSection, KongRules, PackageEntry, RuntimeEntry, RuntimeSection,
};
use kong::runner::{
    build_lib_path, build_path, build_pkg_config_path, cargo_of, full_command, lib_env_key,
    maybe_cargo_build, outcome, resolve_script, run, script_env, target_binary,
};

fn texts(items: &[&str]) -> Vec<String> {
    items.iter().map(|s| s.to_string()).collect()
}

fn rules() -> KongRules {
    KongRules {
        version: 1,
        project: "p".into(),
        generated: "now".into(),
        runtimes: Some(RuntimeSection {
            python: None,
            node: None,
            rust: Some(RuntimeEntry {
                version: "1.80.0".into(),
                store_path: "rust/toolchain/1.80.0".into(),
            }),
        }),
        python: None,
        node: None,
        rust: None,
        brew: Some(BrewSection {
            packages: vec![PackageEntry {
                name: "redis".into(),
                version: "7".into(),
                hash: None,
                store_path: "brew/redis-7".into(),
                source_url: None,
            }],
        }),
        scripts: vec![("dev".into(), "vite".into())],
        services: vec![],
    }
}

#[test]
fn scripts_of_the_rules_come_first() {
    let manifest = r#"{"scripts":{"dev":"webpack","build":"tsc"}}"#;
    assert_eq!(resolve_script("dev", Some(&rules()), Some(manifest)).as_deref(), Some("vite"));
    assert_eq!(resolve_script("build", Some(&rules()), Some(manifest)).as_deref(), Some("tsc"));
    assert_eq!(resolve_script("dev", None, Some(manifest)).as_deref(), Some("webpack"));
    assert_eq!(resolve_script("test", Some(&rules()), None), None);
}

#[test]
fn arguments_follow_the_command() {
    assert_eq!(full_command("vite", &[]), "vite");
    assert_eq!(full_command("vite", &texts(&["--port", "3000"])), "vite --port 3000");
    assert_eq!(run("dev", &texts(&["-x"]), Some(&rules()), None).unwrap(), "vite -x");
    let error = run("test", &[], Some(&rules()), None).unwrap_err();
    assert_eq!(error.message(), "script 'test' not found in kong.rules or package.json");
}

#[test]
fn outcomes_of_scripts() {
    assert!(outcome("dev", true, Some(0)).is_ok());
    assert_eq!(
        outcome("dev", false, Some(-2)).unwrap_err().message(),
        "script 'dev' exited with code -2"
    );
    assert_eq!(outcome("dev", false, None).unwrap_err().message(), "script 'dev' exited with code 1");
}

#[test]
fn search_paths() {
    let existing = texts(&["/s/brew/redis-7/bin", "/s/brew/redis-7/lib", "/s/rust/toolchain/1.80.0/bin"]);
    assert_eq!(
        build_path("/e", "/s", Some(&rules()), &existing, "/usr/bin", false),
        "/s/brew/redis-7/bin:/s/rust/toolchain/1.80.0/bin:/e/node_modules/.bin:/e/.venv/bin:/usr/bin"
    );
    assert_eq!(
        build_path("/e", "/s", None, &existing, "", true),
        "/e/node_modules/.bin;/e/.venv/Scripts"
    );
    assert_eq!(build_lib_path("/s", Some(&rules()), &existing, "/l", false), "/s/brew/redis-7/lib:/l");
    assert_eq!(build_pkg_config_path("/s", Some(&rules()), &existing, "", false), "");
    assert_eq!(lib_env_key(true), "DYLD_LIBRARY_PATH");
    assert_eq!(lib_env_key(false), "LD_LIBRARY_PATH");
}

#[test]
fn variables_of_a_script() {
    let full = script_env("/e", "P".into(), "L".into(), "C".into(), true, true, false);
    let seen: Vec<(&str, &str)> = full.iter().map(|(k, v)| (k.as_str(), v.as_str())).collect();
    assert_eq!(
        seen,
        vec![
            ("PATH", "P"),
            ("VIRTUAL_ENV", "/e/.venv"),
            ("NODE_PATH", "/e/node_modules"),
            ("LD_LIBRARY_PATH", "L"),
            ("PKG_CONFIG_PATH", "C"),
        ]
    );
    let bare = script_env("/e", "P".into(), String::new(), String::new(), false, false, true);
    assert_eq!(bare, vec![("PATH".to_string(), "P".to_string())]);
}

#[test]
fn missing_binary_is_built_first() {
    assert_eq!(target_binary("./target/release/app --x", "/p").as_deref(), Some("/p/./target/release/app"));
    assert_eq!(target_binary("cargo run", "/p"), None);
    assert_eq!(target_binary("target/debug/app", "/p"), None);
    let build = maybe_cargo_build("./target/release/app", "/p", false, Some(&rules()), "/s", true).unwrap();
    assert_eq!(build.cargo, "/s/rust/toolchain/1.80.0/bin/cargo");
    assert_eq!(build.args, vec!["build", "--release"]);
    let other = maybe_cargo_build("./target/debug/app", "/p", false, Some(&rules()), "/s", false).unwrap();
    assert_eq!(other.cargo, "cargo");
    assert_eq!(other.args, vec!["build"]);
    assert!(maybe_cargo_build("./target/debug/app", "/p", true, None, "/s", false).is_none());
    assert!(maybe_cargo_build("npm start", "/p", false, None, "/s", false).is_none());
    assert_eq!(cargo_of(None, "/s"), None);
}
