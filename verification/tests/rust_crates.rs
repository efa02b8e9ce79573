use kong::actions::FsAction;
use kong::config::{KongRules, PackageEntry, RuntimeEntry, RuntimeSection, RustSection};
use kong::doc::parse_toml;
use kong::rust_eco::client::crate_url;
use kong::rust_eco::parser::{crates_of, detect_and_parse, parse_cargo_lock, LockedCrate};
use kong::rust_eco::runtime::{
    cargo_exe_in, download_component, ensure_runtime, resolve_components, rust_target, rustc_exe_in,
    ManifestError, RuntimeStep,
};
use kong::rust_eco::source::{
    cargo_config, checksum_json, configure_source_replacement, create_toolchain_links, registry_dir,
    rust_toolchain_dir, CrateFacts,
};

fn shown(steps: &[FsAction]) -> Vec<String> {
    steps.iter().map(|a| format!("{a:?}")).collect()
}

fn texts(items: &[&str]) -> Vec<String> {
    items.iter().map(|s| s.to_string()).collect()
}

const LOCK: &str = r#"version = 3

[[package]]
name = "app"
version = "0.1.0"
dependencies = ["serde"]

[[package]]
name = "serde"
version = "1.0.193"
source = "registry+https://github.com/rust-lang/crates.io-index"
checksum = "25dd9975e68d0cb5aa1120c288333fc98731bd1dd12f561e468ea4728c042b89"
"#;

#[test]
fn crates_of_a_lock_file() {
    let deps = parse_cargo_lock(LOCK).unwrap();
    assert_eq!(deps.len(), 1);
    assert_eq!(deps[0].name, "serde");
    assert_eq!(deps[0].version, "1.0.193");
    assert_eq!(
        deps[0]._checksum.as_deref(),
        Some("25dd9975e68d0cb5aa1120c288333fc98731bd1dd12f561e468ea4728c042b89")
    );
    assert!(parse_cargo_lock("no lock file").is_err());
    assert!(detect_and_parse(None).unwrap().is_empty());
    assert_eq!(detect_and_parse(Some(LOCK)).unwrap().len(), 1);
    assert!(detect_and_parse(Some("[[package]]\nname = 1\n")).is_err());
}

#[test]
fn checksums_of_other_characters_are_refused() {
    let digest = "25dd9975e68d0cb5aa1120c288333fc98731bd1dd12f561e468ea4728c042b89";
    let wide = format!("2é{}", &digest[3..]);
    assert_eq!(wide.len(), 64);
    for checksum in [wide.clone(), format!("é{}", &digest[2..]), format!("日{}", &digest[3..])] {
        assert!(parse_cargo_lock(&LOCK.replace(digest, &checksum)).is_err(), "{checksum}");
    }
    let escaped = format!("2\\u00e9{}", &digest[3..]);
    assert!(parse_cargo_lock(&LOCK.replace(digest, &escaped)).is_err());
    let over_lines = LOCK.replace(&format!("\"{digest}\""), &format!("\"\"\"\n{wide}\"\"\""));
    assert!(parse_cargo_lock(&over_lines).is_err());
    assert!(parse_cargo_lock(&LOCK.replace(digest, "é")).is_err());
    let listed =
        format!("package = [[\"a\", \"1.0.0\", \"registry+https://x.y/z\", \"{wide}\", []]]\n");
    assert!(parse_cargo_lock(&listed).is_err());
    let first = format!(
        "[[package]]\nname = \"a\"\nversion = \"1.0.0\"\nsource = \"registry+https://x.y/z\"\n\n\
         [metadata]\n\"checksum a 1.0.0 (registry+https://x.y/z)\" = \"{wide}\"\n"
    );
    assert!(parse_cargo_lock(&first).is_err());
    let read = parse_cargo_lock(&first.replace(&wide, digest)).unwrap();
    assert_eq!(read[0]._checksum.as_deref(), Some(digest));
}

#[test]
fn other_texts_of_a_lock_file_may_hold_any_character() {
    let read = |lock: &str| parse_cargo_lock(lock).unwrap().len();
    let long = "é".repeat(32);
    assert_eq!(long.len(), 64);
    assert_eq!(read(&format!("# '''\n{LOCK}")), 1);
    assert_eq!(read(&format!("# \"\"\"\n{LOCK}")), 1);
    assert_eq!(read(&format!("# {long} \\ {long}\n{LOCK}")), 1);
    assert_eq!(read(&LOCK.replace("name = \"app\"", "name = \"été\"")), 1);
    assert_eq!(read(&LOCK.replace("name = \"app\"", &format!("name = \"a{}b\"", &long[2..]))), 1);
    assert_eq!(read(&LOCK.replace("name = \"app\"", "name = '''app'''")), 1);
}

#[test]
fn packages_of_the_project_are_no_crates() {
    let locked = |name: &str, source: Option<&str>| LockedCrate {
        name: name.to_string(),
        version: "1.0.0".to_string(),
        source: source.map(|s| s.to_string()),
        checksum: None,
    };
    let deps = crates_of(vec![locked("a", None), locked("b", Some("registry+x")), locked("c", Some("git+y"))]);
    let names: Vec<&str> = deps.iter().map(|d| d.name.as_str()).collect();
    assert_eq!(names, vec!["b", "c"]);
}

#[test]
fn rust_target_is_nonempty() {
    for (os, arch) in [
        ("windows", "x86_64"),
        ("macos", "aarch64"),
        ("macos", "x86_64"),
        ("linux", "x86_64"),
        ("linux", "aarch64"),
    ] {
        assert!(!rust_target(os, arch).unwrap().is_empty());
    }
    assert_eq!(rust_target("linux", "aarch64"), Some("aarch64-unknown-linux-gnu"));
    assert_eq!(rust_target("linux", "riscv64"), None);
}

#[test]
fn generates_valid_toml() {
    let content = cargo_config("/store/rust/registry", None);
    assert_eq!(
        content,
        "[source.crates-io]\nreplace-with = \"kong-local\"\n\n[source.kong-local]\ndirectory = \"/store/rust/registry\"\n"
    );
    let parsed = parse_toml(&content).unwrap();
    assert!(parsed.get("source").is_some());
    let with_rustc = cargo_config("C:\\s\\rust\\registry", Some("C:\\t\\rustc.exe"));
    let parsed = parse_toml(&with_rustc).unwrap();
    assert_eq!(
        parsed.get("build").unwrap().get("rustc").unwrap().as_str().unwrap(),
        "C:/t/rustc.exe"
    );
}

const MANIFEST: &str = r#"
[pkg.rustc]
version = "1.80.0 (051478957 2024-07-21)"
[pkg.rustc.target.x86_64-unknown-linux-gnu]
url = "https://rustc"
[pkg.cargo.target.x86_64-unknown-linux-gnu]
url = "https://cargo"
[pkg.rust-std.target.x86_64-unknown-linux-gnu]
url = "https://std"
"#;

#[test]
fn components_of_a_channel() {
    let target = "x86_64-unknown-linux-gnu";
    let c = resolve_components(MANIFEST, target).unwrap();
    assert_eq!(c.version, "1.80.0");
    assert_eq!(c.cargo_url, "https://cargo");
    assert_eq!(c.rustc_url, "https://rustc");
    assert_eq!(c.std_url, "https://std");
    let error = |text: &str| resolve_components(text, target).unwrap_err().message();
    assert_eq!(error("= ="), "failed to parse channel manifest TOML");
    assert_eq!(error("a = 1"), "cannot find rustc version in channel manifest");
    assert_eq!(error("[pkg.rustc]\nversion = \" \"\n"), "malformed rustc version string");
    assert_eq!(
        resolve_components(MANIFEST, "x86_64-apple-darwin").unwrap_err().message(),
        "component 'cargo' not found for target 'x86_64-apple-darwin'"
    );
    assert!(matches!(
        resolve_components(&MANIFEST.replace("rust-std", "rust-docs"), target).unwrap_err(),
        ManifestError::NoComponent { component: "rust-std", .. }
    ));
}

#[test]
fn components_are_merged_without_installer_files() {
    let step = |path: &str, is_dir: bool, mode: u32| {
        format!("{:?}", download_component(path, is_dir, mode, "/d"))
    };
    assert_eq!(step("cargo-1.80/cargo/bin/cargo", false, 0o755), r#"Write { path: "/d/bin/cargo", executable: true }"#);
    assert_eq!(step("cargo-1.80/cargo/share/doc", false, 0o644), r#"Write { path: "/d/share/doc", executable: false }"#);
    assert_eq!(step("cargo-1.80/cargo/bin", true, 0o755), r#"MakeDir { path: "/d/bin" }"#);
    assert_eq!(step("cargo-1.80/cargo/manifest.in", false, 0o644), "Skip");
    assert_eq!(step("cargo-1.80/install.sh", false, 0o755), "Skip");
}

#[test]
fn toolchain_is_brought_once() {
    let both = texts(&["bin/cargo", "bin/rustc"]);
    assert_eq!(cargo_exe_in("/t", false, &both).as_deref(), Some("/t/bin/cargo"));
    assert_eq!(rustc_exe_in("/t", false, &both).as_deref(), Some("/t/bin/rustc"));
    assert_eq!(rustc_exe_in("/t", true, &both), None);
    match ensure_runtime("/s", "1.80.0", false, &both, false) {
        RuntimeStep::Ready(rt) => {
            assert_eq!(rt.version, "1.80.0");
            assert_eq!(rt.store_path, "rust/toolchain/1.80.0");
            assert_eq!(rt.cargo_exe, "/s/rust/toolchain/1.80.0/bin/cargo");
            assert_eq!(rt.rustc_exe, "/s/rust/toolchain/1.80.0/bin/rustc");
        }
        other => panic!("{other:?}"),
    }
    let step = |existing: &[String], brought: bool| {
        format!("{:?}", ensure_runtime("/s", "1.80.0", false, existing, brought))
    };
    assert_eq!(step(&both[..1], false), r#"Download { store_path: "rust/toolchain/1.80.0" }"#);
    assert_eq!(step(&[], true), r#"MissingCargo { toolchain_dir: "/s/rust/toolchain/1.80.0" }"#);
    assert_eq!(step(&both[..1], true), r#"MissingRustc { toolchain_dir: "/s/rust/toolchain/1.80.0" }"#);
}

#[test]
fn crates_are_put_into_the_registry() {
    let krate = |name: &str, hash: Option<&str>| PackageEntry {
        name: name.to_string(),
        version: "1.0.0".to_string(),
        hash: hash.map(|s| s.to_string()),
        store_path: format!("rust/crates/{name}-1.0.0"),
        source_url: None,
    };
    let rust = RustSection { packages: vec![krate("a", Some("ff")), krate("b", None), krate("c", None)] };
    let facts = vec![
        CrateFacts { nested: true, in_registry: false, has_checksum: false },
        CrateFacts { nested: false, in_registry: false, has_checksum: true },
        CrateFacts { nested: true, in_registry: true, has_checksum: true },
    ];
    let steps = shown(&configure_source_replacement("/p", &rust, "/s", &facts, None));
    assert_eq!(
        steps[..5],
        [
            r#"CreateDir { path: "/p/.cargo" }"#,
            r#"CreateDir { path: "/s/rust/registry" }"#,
            r#"LinkTree { path: "/s/rust/registry/a-1.0.0", source: "/s/rust/crates/a-1.0.0/a-1.0.0" }"#,
            r#"WriteNew { path: "/s/rust/registry/a-1.0.0/.cargo-checksum.json", content: "{\"files\":{},\"package\":\"ff\"}", executable: false }"#,
            r#"LinkTree { path: "/s/rust/registry/b-1.0.0", source: "/s/rust/crates/b-1.0.0" }"#,
        ]
    );
    assert_eq!(steps.len(), 6);
    assert!(steps[5].starts_with(r#"Write { path: "/p/.cargo/config.toml""#));
    assert_eq!(registry_dir("/s"), "/s/rust/registry");
    assert_eq!(checksum_json(None), r#"{"files":{},"package":"unknown"}"#);
    assert_eq!(
        crate_url("serde", "1.0.0"),
        "https://static.crates.io/crates/serde/serde-1.0.0.crate"
    );
}

#[test]
fn toolchain_is_linked_into_the_project() {
    assert_eq!(
        shown(&create_toolchain_links("/p", "/t", None)),
        vec![r#"CreateDir { path: "/p/.rust-toolchain" }"#]
    );
    let names = texts(&["cargo", "rustc"]);
    let steps = shown(&create_toolchain_links("/p", "/t", Some(&names)));
    assert_eq!(
        steps[..4],
        [
            r#"CreateDir { path: "/p/.rust-toolchain" }"#,
            r#"CreateDir { path: "/p/.rust-toolchain/bin" }"#,
            r#"PlaceFile { path: "/p/.rust-toolchain/bin/cargo", source: "/t/bin/cargo" }"#,
            r#"PlaceFile { path: "/p/.rust-toolchain/bin/rustc", source: "/t/bin/rustc" }"#,
        ]
    );
    assert!(steps[4].starts_with(r#"WriteNew { path: "/p/.rust-toolchain/activate.ps1""#));
    assert!(steps[5].starts_with(r#"WriteNew { path: "/p/.rust-toolchain/activate.sh""#));
    let rules = KongRules {
        version: 1,
        project: "p".into(),
        generated: "now".into(),
        runtimes: Some(RuntimeSection {
            python: None,
            node: None,
            rust: Some(RuntimeEntry {
                version: "1.80.0".into(),
                store_path: "rust/toolchain/1.80.0".into(),
            }),
        }),
        python: None,
        node: None,
        rust: None,
        brew: None,
        scripts: vec![],
        services: vec![],
    };
    assert_eq!(rust_toolchain_dir("/s", &rules).as_deref(), Some("/s/rust/toolchain/1.80.0"));
    assert_eq!(rust_toolchain_dir("/s", &KongRules { runtimes: None, ..rules }), None);
}
