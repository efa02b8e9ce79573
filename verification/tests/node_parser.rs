use kong::node::parser::{
    detect_and_parse, detect_and_parse_for_host, filter_for_host, parse_package_json,
    parse_package_lock, NodeDep, NodeError,
};
use kong::node::platform::HostTriple;

#[test]
fn parse_package_lock_v3() {
    let json = r#"{
        "name": "test-app",
        "version": "1.0.0",
        "lockfileVersion": 3,
        "packages": {
            "": { "name": "test-app", "version": "1.0.0" },
            "node_modules/express": {
                "version": "4.18.2",
                "resolved": "https://registry.npmjs.org/express/-/express-4.18.2.tgz",
                "integrity": "sha512-abc123"
            },
            "node_modules/@types/node": {
                "version": "20.10.0",
                "resolved": "https://registry.npmjs.org/@types/node/-/node-20.10.0.tgz"
            }
        }
    }"#;

    let deps = parse_package_lock(json, "package-lock.json").unwrap();

    assert_eq!(deps.len(), 2);
    let names: Vec<&str> = deps.iter().map(|d| d.name.as_str()).collect();
    assert!(names.contains(&"express"));
    assert!(names.contains(&"@types/node"));
    let express = deps.iter().find(|d| d.name == "express").unwrap();
    assert_eq!(express.version, "4.18.2");
}

const LOCAL_LOCK: &str = r#"{
    "name": "nomorechat-app",
    "lockfileVersion": 3,
    "packages": {
        "": { "name": "nomorechat-app", "dependencies": { "@real3d/atoms": "file:../vendor/atoms", "vue": "^3.5.0" } },
        "../../CRM_Atoms": {
            "name": "@real3d/atoms", "version": "0.1.0", "extraneous": true,
            "dependencies": { "qrcode": "^1.5.4" }
        },
        "../vendor/atoms": {
            "name": "@real3d/atoms", "version": "0.1.0",
            "peerDependencies": { "vue": "^3.5.0" }
        },
        "../vendor/atoms/node_modules/vue": { "version": "3.5.34", "dev": true },
        "node_modules/@real3d/atoms": { "resolved": "../vendor/atoms", "link": true },
        "node_modules/vue": {
            "version": "3.5.13",
            "resolved": "https://registry.npmjs.org/vue/-/vue-3.5.13.tgz"
        },
        "node_modules/@vue/shared": {
            "version": "3.5.13",
            "resolved": "https://registry.npmjs.org/@vue/shared/-/shared-3.5.13.tgz"
        }
    }
}"#;

#[test]
fn lockfile_local_link_target_and_stale_extraneous_target() {
    let deps = parse_package_lock(LOCAL_LOCK, "package-lock.json").unwrap();

    let registry: Vec<(&str, &str)> = deps.iter().filter(|d| !d.is_local())
        .map(|d| (d.name.as_str(), d.version.as_str())).collect();
    assert_eq!(registry, vec![("@vue/shared", "3.5.13"), ("vue", "3.5.13")]);

    let locals: Vec<&NodeDep> = deps.iter().filter(|d| d.is_local()).collect();
    assert_eq!(locals.len(), 1, "exactly one local dep: {deps:?}");
    assert_eq!(locals[0].name, "@real3d/atoms");
    assert_eq!(locals[0].version, "0.1.0", "version read from the link target entry");
    let src = locals[0].local.as_ref().unwrap();
    assert_eq!(src.path, "../vendor/atoms");
    assert!(src.origin.contains("node_modules/@real3d/atoms"), "{}", src.origin);

    assert!(deps.iter().all(|d| !d.name.starts_with('.')), "{deps:?}");
}

#[test]
fn pnpm_virtual_store_links_are_still_skipped() {
    let json = r#"{
        "lockfileVersion": 3,
        "packages": {
            "": { "name": "app" },
            "node_modules/express": { "resolved": "node_modules/.pnpm/express@4.18.2/node_modules/express", "link": true },
            "node_modules/.pnpm/express@4.18.2/node_modules/express": { "version": "4.18.2" }
        }
    }"#;
    let deps = parse_package_lock(json, "package-lock.json").unwrap();
    assert_eq!(deps.len(), 1);
    assert_eq!(deps[0].name, "express");
    assert!(!deps[0].is_local());
}

#[test]
fn workspace_member_nested_install_keeps_legacy_flat_behaviour() {
    let json = r#"{
        "lockfileVersion": 3,
        "packages": {
            "": { "name": "app", "workspaces": ["packages/lib"] },
            "node_modules/lib": { "resolved": "packages/lib", "link": true },
            "packages/lib": { "name": "lib", "version": "1.0.0" },
            "packages/lib/node_modules/is-number": { "version": "7.0.0" }
        }
    }"#;
    let deps = parse_package_lock(json, "package-lock.json").unwrap();
    let reg: Vec<&str> = deps.iter().filter(|d| !d.is_local()).map(|d| d.name.as_str()).collect();
    assert_eq!(reg, vec!["is-number"]);
    let loc: Vec<(&str, &str)> = deps.iter().filter_map(|d| d.local.as_ref().map(|l| (d.name.as_str(), l.path.as_str()))).collect();
    assert_eq!(loc, vec![("lib", "packages/lib")]);
}

#[test]
fn install_links_style_file_resolved_is_local() {
    let json = r#"{
        "lockfileVersion": 3,
        "packages": {
            "": { "name": "app" },
            "node_modules/mylib": { "version": "1.0.0", "resolved": "file:../lib" },
            "node_modules/mylib/node_modules/is-number": { "version": "7.0.0", "resolved": "https://registry.npmjs.org/is-number/-/is-number-7.0.0.tgz" }
        }
    }"#;
    let deps = parse_package_lock(json, "package-lock.json").unwrap();
    let mylib = deps.iter().find(|d| d.name == "mylib").unwrap();
    assert_eq!(mylib.local.as_ref().unwrap().path, "../lib");
    assert!(deps.iter().any(|d| d.name == "is-number" && !d.is_local()));
}

#[test]
fn local_tarball_errors_with_the_entry_named() {
    let json = r#"{"lockfileVersion":3,"packages":{"":{},"node_modules/x":{"version":"1.0.0","resolved":"file:../x-1.0.0.tgz"}}}"#;
    let err = parse_package_lock(json, "package-lock.json").unwrap_err().message();
    assert!(err.contains("node_modules/x") && err.contains("tarball"), "{err}");
}

#[test]
fn package_json_file_and_link_specs_are_local() {
    let json = r#"{
        "name": "embedded",
        "dependencies": {
            "@real3d/atoms": "file:Q:/WebProjects/nomorechat/vendor/atoms",
            "vue": "^3.5.0"
        },
        "devDependencies": { "tool": "link:../tool", "vite": "^8.0.11" }
    }"#;
    let deps = parse_package_json(json, "package.json").unwrap();
    let atoms = deps.iter().find(|d| d.name == "@real3d/atoms").unwrap();
    assert_eq!(atoms.local.as_ref().unwrap().path, "Q:/WebProjects/nomorechat/vendor/atoms");
    let tool = deps.iter().find(|d| d.name == "tool").unwrap();
    assert_eq!(tool.local.as_ref().unwrap().path, "../tool");
    assert!(tool.local.as_ref().unwrap().origin.contains("devDependencies"));
    let vue = deps.iter().find(|d| d.name == "vue").unwrap();
    assert!(!vue.is_local());
    assert_eq!(vue.version, "3.5.0");
}

#[test]
fn v1_lockfile_file_spec_is_local() {
    let json = r#"{"lockfileVersion":1,"dependencies":{
        "mylib":{"version":"file:../lib"},
        "is-number":{"version":"7.0.0","resolved":"https://r/is-number-7.0.0.tgz"}}}"#;
    let deps = parse_package_lock(json, "package-lock.json").unwrap();
    assert_eq!(deps.iter().find(|d| d.name == "mylib").unwrap().local.as_ref().unwrap().path, "../lib");
    assert!(!deps.iter().find(|d| d.name == "is-number").unwrap().is_local());
}

#[test]
fn parse_package_json_basic() {
    let json = r#"{
        "name": "my-app",
        "dependencies": { "express": "^4.18.2" },
        "devDependencies": { "typescript": "~5.3.0" }
    }"#;

    let deps = parse_package_json(json, "package.json").unwrap();

    assert_eq!(deps.len(), 2);
    assert_eq!(deps[0].name, "express");
    assert_eq!(deps[0].version, "4.18.2");
    assert_eq!(deps[1].name, "typescript");
    assert_eq!(deps[1].version, "5.3.0");
}

fn linux_x64_glibc() -> HostTriple {
    HostTriple {
        os: "linux".into(),
        cpu: "x64".into(),
        libc: Some("glibc".into()),
    }
}

fn dep(name: &str, os: &[&str], cpu: &[&str], libc: &[&str], optional: bool) -> NodeDep {
    NodeDep {
        name: name.into(),
        version: "1.0.0".into(),
        _resolved: None,
        _integrity: None,
        os: os.iter().map(|s| s.to_string()).collect(),
        cpu: cpu.iter().map(|s| s.to_string()).collect(),
        libc: libc.iter().map(|s| s.to_string()).collect(),
        optional,
        local: None,
    }
}

#[test]
fn filter_keeps_unconstrained_and_matching_only() {
    let host = linux_x64_glibc();
    let deps = vec![
        dep("express", &[], &[], &[], false),
        dep("@esbuild/linux-x64", &["linux"], &["x64"], &[], true),
        dep("@esbuild/darwin-x64", &["darwin"], &["x64"], &[], true),
        dep("@esbuild/win32-x64", &["win32"], &["x64"], &[], true),
        dep("@rspack/binding-linux-x64-musl", &["linux"], &["x64"], &["musl"], true),
        dep("@rspack/binding-linux-x64-gnu", &["linux"], &["x64"], &["glibc"], true),
    ];
    let kept = filter_for_host(deps, &host).unwrap();
    let names: Vec<&str> = kept.iter().map(|d| d.name.as_str()).collect();
    assert_eq!(
        names,
        vec![
            "express",
            "@esbuild/linux-x64",
            "@rspack/binding-linux-x64-gnu"
        ]
    );
}

#[test]
fn filter_errors_on_incompatible_required_dep() {
    let host = linux_x64_glibc();
    let deps = vec![dep("native-thing", &["win32"], &["x64"], &[], false)];
    let err = filter_for_host(deps, &host).unwrap_err();
    assert!(err.message().contains("not compatible"));
    assert!(err.message().contains("EBADPLATFORM"));
}

#[test]
fn filter_skips_incompatible_optional_without_error() {
    let host = linux_x64_glibc();
    let deps = vec![dep("native-thing", &["win32"], &["x64"], &[], true)];
    let kept = filter_for_host(deps, &host).unwrap();
    assert!(kept.is_empty());
}

#[test]
fn parser_negation_kept_on_linux() {
    let host = linux_x64_glibc();
    let deps = vec![dep("not-windows", &["!win32"], &[], &[], true)];
    let kept = filter_for_host(deps, &host).unwrap();
    assert_eq!(kept.len(), 1);
}

#[test]
fn lockfile_captures_platform_fields() {
    let json = r#"{
        "lockfileVersion": 3,
        "packages": {
            "": { "name": "app", "version": "1.0.0" },
            "node_modules/@esbuild/android-arm": {
                "version": "0.27.7",
                "resolved": "https://r/-.tgz",
                "cpu": ["arm"],
                "os": ["android"],
                "optional": true
            }
        }
    }"#;
    let deps = parse_package_lock(json, "package-lock.json").unwrap();
    assert_eq!(deps.len(), 1);
    assert_eq!(deps[0].os, vec!["android".to_string()]);
    assert_eq!(deps[0].cpu, vec!["arm".to_string()]);
    assert!(deps[0].optional);
    let kept = filter_for_host(deps, &linux_x64_glibc()).unwrap();
    assert!(kept.is_empty());
}

#[test]
fn lock_file_decides_before_the_manifest() {
    let host = linux_x64_glibc();
    let lock = r#"{"packages": {"node_modules/a": {"version": "1.0.0"}, "node_modules/w": {"version": "1.0.0", "os": ["win32"], "optional": true}}}"#;
    let manifest = r#"{"dependencies": {"b": "^2.0.0"}}"#;
    let names = |deps: Vec<NodeDep>| deps.iter().map(|d| d.name.clone()).collect::<Vec<String>>();
    assert_eq!(names(detect_and_parse("/p", Some(lock), Some(manifest), &host).unwrap()), vec!["a"]);
    assert_eq!(names(detect_and_parse_for_host("/p", None, Some(manifest), &host).unwrap()), vec!["b"]);
    assert!(detect_and_parse("/p", None, None, &host).unwrap().is_empty());
}

#[test]
fn node_manifests_that_cannot_be_read() {
    assert!(matches!(parse_package_json("{", "/p/x.json").unwrap_err(), NodeError::NotJson { .. }));
    assert_eq!(
        parse_package_lock("{", "/p/package-lock.json").unwrap_err().message(),
        "failed to parse JSON: /p/package-lock.json"
    );
    let host = linux_x64_glibc();
    assert_eq!(
        detect_and_parse("/p", None, Some("{"), &host).unwrap_err().message(),
        "failed to parse JSON: /p/package.json"
    );
    let error =
        parse_package_json(r#"{"dependencies": {"x": "file:../x.tgz"}}"#, "/p/package.json").unwrap_err();
    assert_eq!(
        error.message(),
        "/p/package.json: dependencies \"x\": \"file:../x.tgz\" is a local tarball — kong links local DIRECTORIES but does not install local .tgz files yet. Depend on the unpacked directory (\"file:<dir>\") or publish the package to a registry."
    );
    let deps = vec![dep("native", &["win32"], &["x64", "i\"a\\32"], &[], false)];
    assert_eq!(
        filter_for_host(deps, &linux_x64_glibc()).unwrap_err().message(),
        "package 'native@1.0.0' is not compatible with this host (os=[\"win32\"] cpu=[\"x64\", \"i\\\"a\\\\32\"] libc=[]; host os=linux cpu=x64 libc=Some(\"glibc\")) — it is a required dependency (EBADPLATFORM)"
    );
}

#[test]
fn lists_in_messages_are_escaped() {
    for text in ["a\0b", "\u{1}\u{1b}\u{7f}", "\"\\'\t\r\n", "é日\u{301}", "\u{200b}\u{e000}\u{a0}"] {
        let deps = vec![dep("native", &["win32", text], &[], &[], false)];
        let message = filter_for_host(deps, &linux_x64_glibc()).unwrap_err().message();
        assert!(message.contains(&format!("(os={:?} ", ["win32", text])), "{message}");
    }
}

#[test]
fn filtering_again_keeps_everything() {
    let host = linux_x64_glibc();
    let deps = vec![dep("a", &["linux"], &[], &[], false), dep("b", &["darwin"], &[], &[], true)];
    let kept = filter_for_host(deps, &host).unwrap();
    assert_eq!(kept.len(), 1);
    assert_eq!(filter_for_host(kept, &host).unwrap().len(), 1);
}
