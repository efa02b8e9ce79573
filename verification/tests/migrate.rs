use kong::actions::FsAction;
use kong::config::{
    KongRules, NodeSection, PackageEntry, PythonSection, RuntimeEntry, RuntimeSection, RustSection,
};
use kong::link::{remove_dir_all_robust, EntryKind};
use kong::migrate::{
    adopt_node, adopt_python, adopt_single_node_package, copy_entry, copy_installed_python_dist,
    discover_venvs, ecosystem_for_store_path, eject_project, ensure_python_runtime_entry,
    find_site_packages, generate_rules_skipping, guessed_module, import_project, localize_runtime,
    node_copy_steps, pathdiff_relative, read_dist_info_metadata, read_pyvenv_version, venv_version,
    read_record_files, solidify_node, solidify_project, CopyKind, CopyStep, EnvPlace,
    InstalledEntry, LocalRuntime, ModuleKind, ModulesEntry, RegisteredProject, SolidFacts,
};

fn shown(steps: &[FsAction]) -> Vec<String> {
    steps.iter().map(|a| format!("{a:?}")).collect()
}

fn texts(items: &[&str]) -> Vec<String> {
    items.iter().map(|s| s.to_string()).collect()
}

fn package(name: &str, version: &str, store_path: &str) -> PackageEntry {
    PackageEntry {
        name: name.into(),
        version: version.into(),
        hash: None,
        store_path: store_path.into(),
        source_url: None,
    }
}

fn rules() -> KongRules {
    KongRules {
        version: 1,
        project: "p".into(),
        generated: "now".into(),
        runtimes: Some(RuntimeSection {
            python: Some(RuntimeEntry {
                version: "3.12.9".into(),
                store_path: "python/runtime/3.12.9".into(),
            }),
            node: None,
            rust: None,
        }),
        python: None,
        node: None,
        rust: None,
        brew: None,
        scripts: vec![],
        services: vec![],
    }
}

#[test]
fn copy_installed_python_dist_preserves_native_so() {
    let record = "pydantic_core/__init__.py,,\n\
                  pydantic_core/_pydantic_core.so,,\n\
                  pydantic_core-2.0.0.dist-info/METADATA,,\n\
                  pydantic_core-2.0.0.dist-info/RECORD,,\n";
    let steps = shown(&copy_installed_python_dist(
        "/site",
        "pydantic_core-2.0.0.dist-info",
        Some(record),
        "pydantic_core",
        ModuleKind::Dir,
        "/store_entry",
        false,
    ));
    assert_eq!(
        steps,
        vec![
            r#"CopyEntry { path: "/store_entry/pydantic_core/__init__.py", source: "/site/pydantic_core/__init__.py" }"#,
            r#"CopyEntry { path: "/store_entry/pydantic_core/_pydantic_core.so", source: "/site/pydantic_core/_pydantic_core.so" }"#,
            r#"CopyEntry { path: "/store_entry/pydantic_core-2.0.0.dist-info/METADATA", source: "/site/pydantic_core-2.0.0.dist-info/METADATA" }"#,
            r#"CopyEntry { path: "/store_entry/pydantic_core-2.0.0.dist-info/RECORD", source: "/site/pydantic_core-2.0.0.dist-info/RECORD" }"#,
        ]
    );
}

#[test]
fn localize_runtime_copies_into_project_and_is_store_independent() {
    let local = localize_runtime(
        "/store",
        &rules(),
        "/proj/.venv/runtime",
        false,
        &texts(&["bin/python3", "LICENSE"]),
    )
    .expect("should return a local python exe");
    assert!(local.exe.starts_with("/proj"), "exe not in project: {}", local.exe);
    assert!(!local.exe.starts_with("/store"), "exe still in store: {}", local.exe);
    assert_eq!(local.exe, "/proj/.venv/runtime/bin/python3");
    assert_eq!(local.source, "/store/python/runtime/3.12.9");
    let windows =
        localize_runtime("/store", &rules(), "/l", true, &texts(&["python.exe"])).unwrap();
    assert_eq!(windows.exe, "/l/python.exe");
    assert!(localize_runtime("/store", &rules(), "/l", false, &[]).is_none());
    let without = KongRules { runtimes: None, ..rules() };
    assert!(localize_runtime("/store", &without, "/l", false, &texts(&["bin/python3"])).is_none());
    let removal = remove_dir_all_robust(&vec![("/store".to_string(), EntryKind::Dir)]);
    assert!(shown(&removal).iter().all(|s| !s.contains("/proj")));
}

#[test]
fn copy_installed_python_dist_skips_escaping_record_paths() {
    let record = "widget/__init__.py,,\n../../Scripts/widget.exe,,\n/etc/passwd,,\n";
    let steps = shown(&copy_installed_python_dist(
        "/site",
        "widget-1.0.dist-info",
        Some(record),
        "widget",
        ModuleKind::Dir,
        "/store_entry",
        false,
    ));
    assert_eq!(
        steps,
        vec![
            r#"CopyEntry { path: "/store_entry/widget/__init__.py", source: "/site/widget/__init__.py" }"#,
        ]
    );
}

#[test]
fn absolute_paths_in_records_are_skipped_on_windows() {
    let record = "a.py,,\nC:\\tools\\a.exe,,\nC:/tools/b.exe,,\n\\\\host\\c.exe,,\n//host/share/d.exe,,\n";
    let copy = |windows: bool| {
        copy_installed_python_dist("/site", "a-1.dist-info", Some(record), "a", ModuleKind::File, "/st", windows)
            .len()
    };
    assert_eq!(copy(true), 1);
    assert_eq!(copy(false), 4, "only a leading slash stands alone elsewhere");
}

#[test]
fn copy_installed_python_dist_without_record_falls_back() {
    assert_eq!(guessed_module("my-pkg"), "my_pkg");
    let copy = |record: Option<&str>, module: ModuleKind| {
        shown(&copy_installed_python_dist("/site", "my_pkg-3.0.dist-info", record, "my-pkg", module, "/st", false))
    };
    let info = r#"CopyTree { path: "/st/my_pkg-3.0.dist-info", source: "/site/my_pkg-3.0.dist-info" }"#;
    assert_eq!(
        copy(None, ModuleKind::Dir),
        vec![info, r#"CopyTree { path: "/st/my_pkg", source: "/site/my_pkg" }"#]
    );
    assert_eq!(
        copy(Some("\n,,\n"), ModuleKind::File),
        vec![info, r#"CopyFile { path: "/st/my_pkg.py", source: "/site/my_pkg.py" }"#]
    );
    assert_eq!(copy(None, ModuleKind::Missing), vec![info]);
}

#[test]
fn discover_venvs_finds_nonstandard_name_by_pyvenv_cfg() {
    let found = discover_venvs(&texts(&["src", "venv"]), &texts(&["venv"]));
    assert_eq!(found.len(), 1);
    assert_eq!(found[0], "venv");
    let many = discover_venvs(
        &texts(&["zoo", "env", ".venv", "odd"]),
        &texts(&["odd", "env", ".venv"]),
    );
    assert_eq!(many, vec![".venv", "env", "odd"]);
}

#[test]
fn copy_dir_recursive_handles_dir_symlinks_and_dangling() {
    assert_eq!(copy_entry(CopyKind::File, false), CopyStep::CopyFile);
    assert_eq!(copy_entry(CopyKind::Dir, false), CopyStep::MakeDir);
    assert_eq!(copy_entry(CopyKind::Link, false), CopyStep::MakeLink);
    assert_eq!(copy_entry(CopyKind::UnreadableLink, false), CopyStep::Nothing);
    assert_eq!(copy_entry(CopyKind::Missing, false), CopyStep::Nothing);
}

#[test]
fn copying_can_be_repeated() {
    assert_eq!(copy_entry(CopyKind::File, true), CopyStep::Nothing);
    assert_eq!(copy_entry(CopyKind::Dir, true), CopyStep::MakeDir);
    assert_eq!(copy_entry(CopyKind::Link, true), CopyStep::Nothing);
}

#[test]
fn adopted_manifests_are_not_looked_at() {
    assert!(generate_rules_skipping("Cargo.lock", true, true));
    assert!(!generate_rules_skipping("uv.lock", true, false));
    assert!(generate_rules_skipping("uv.lock", false, true));
    assert!(!generate_rules_skipping("package.json", false, true));
    assert!(generate_rules_skipping("package.json", true, false));
    for bulk in [".venv", "venv", "node_modules", ".git", "kong.rules"] {
        assert!(!generate_rules_skipping(bulk, false, false));
    }
}

#[test]
fn adopted_sections_replace_resolved_ones() {
    let section = || PythonSection {
        version: "3.10.4".into(),
        platform: "any".into(),
        packages: vec![package("a", "1", "python/libs/a-1-cp310-any")],
    };
    let adopted = || RuntimeEntry { version: "3.10.4".into(), store_path: "python/runtime/3.10.4".into() };
    let bare = KongRules { runtimes: None, ..rules() };
    let merged = import_project(bare, Some((section(), adopted())), None);
    assert_eq!(merged.python.unwrap().packages[0].name, "a");
    assert_eq!(merged.runtimes.unwrap().python.unwrap().version, "3.10.4");
    let own = import_project(rules(), Some((section(), adopted())), None);
    assert_eq!(own.runtimes.unwrap().python.unwrap().version, "3.12.9");
    let entry = |v: &str| RuntimeEntry { version: v.into(), store_path: format!("runtime/{v}") };
    let others = RuntimeSection { python: None, node: Some(entry("22")), rust: Some(entry("1.86")) };
    let kept = import_project(
        KongRules { runtimes: Some(others), ..rules() },
        Some((section(), adopted())),
        None,
    );
    let runtimes = kept.runtimes.unwrap();
    assert_eq!(runtimes.python.unwrap().version, "3.10.4");
    assert_eq!(runtimes.node.unwrap().version, "22");
    assert_eq!(runtimes.rust.unwrap().version, "1.86");
    let node = NodeSection { packages: vec![package("n", "2", "node/libs/n-2")], local: vec![] };
    let with_node = import_project(rules(), None, Some(node));
    assert!(with_node.python.is_none());
    assert_eq!(with_node.node.unwrap().packages[0].name, "n");
    let named = ensure_python_runtime_entry(KongRules { runtimes: None, ..rules() }, adopted());
    assert_eq!(named.runtimes.unwrap().python.unwrap().version, "3.10.4");
}

#[test]
fn installed_environment_is_read() {
    assert_eq!(
        find_site_packages("/v", &texts(&["x", "python3.9", "python3.10"]), &texts(&["python3.10"]))
            .as_deref(),
        Some("/v/lib/python3.10/site-packages")
    );
    assert_eq!(find_site_packages("/v", &texts(&["pypy3"]), &texts(&["pypy3"])), None);
    assert_eq!(read_pyvenv_version("home = /x\nversion = 3.10.4\n").as_deref(), Some("3.10.4"));
    assert_eq!(read_pyvenv_version("version_info = 3.9\n").as_deref(), Some("_info = 3.9"));
    assert_eq!(read_pyvenv_version("home = /x\nversion =\n"), None);
    assert_eq!(venv_version(Some("home = /x\nversion = 3.10.4\n")), "3.10.4");
    assert_eq!(venv_version(Some("home = /x\n")), "3.12.0");
    assert_eq!(venv_version(None), "3.12.0");
    assert_eq!(
        read_dist_info_metadata("Metadata-Version: 2.1\nName: Foo\nVersion: 1.2\nName: Bar\n"),
        Some(("Foo".to_string(), "1.2".to_string()))
    );
    assert_eq!(read_dist_info_metadata("Name: Foo\n"), None);
}

#[test]
fn distributions_are_adopted_but_tools() {
    let dist = |name: &str, metadata: Option<&str>| InstalledEntry {
        name: name.to_string(),
        is_dir: true,
        metadata: metadata.map(|s| s.to_string()),
    };
    let entries = vec![
        dist("foo", None),
        dist("Foo-1.0.dist-info", Some("Name: Foo\nVersion: 1.0\n")),
        dist("pip-24.0.dist-info", Some("Name: pip\nVersion: 24.0\n")),
        dist("Setuptools-70.dist-info", Some("Name: Setuptools\nVersion: 70\n")),
        dist("bar-2.0.dist-info", Some("Name: bar\nVersion: 2.0\n")),
        dist("broken-1.dist-info", Some("Name: broken\n")),
        dist("foo-1.0.dist-info", Some("Name: Foo\nVersion: 1.0\n")),
    ];
    let in_store = texts(&["python/libs/bar-2.0-cp312-any"]);
    let adopted = adopt_python(&entries, "cp312", "any", &in_store).unwrap();
    let seen: Vec<(&str, &str, bool)> = adopted
        .iter()
        .map(|a| (a.entry.store_path.as_str(), a.dist_info.as_str(), a.copy))
        .collect();
    assert_eq!(
        seen,
        vec![
            ("python/libs/Foo-1.0-cp312-any", "Foo-1.0.dist-info", true),
            ("python/libs/bar-2.0-cp312-any", "bar-2.0.dist-info", false),
            ("python/libs/Foo-1.0-cp312-any", "foo-1.0.dist-info", false),
        ]
    );
    assert!(adopt_python(&entries[..1].iter().map(|e| dist(&e.name, None)).collect(), "cp312", "any", &[]).is_none());
}

#[test]
fn records_are_read() {
    assert_eq!(
        read_record_files(Some("a.py,sha256=x,1\n\n b.py ,,\n")),
        vec!["a.py", "b.py"]
    );
    assert!(read_record_files(None).is_empty());
}

#[test]
fn node_packages_are_adopted() {
    let entry = |name: &str, entries: &[&str]| ModulesEntry {
        name: name.to_string(),
        is_dir: true,
        entries: texts(entries),
    };
    assert_eq!(
        adopt_node(&vec![entry(".bin", &["x"]), entry("@types", &["node", "react"]), entry("vue", &[])]),
        vec!["@types/node", "@types/react", "vue"]
    );
    let e = adopt_single_node_package("node", r#"{"name":"@types/node","version":"20.1.0"}"#).unwrap();
    assert_eq!(e.name, "@types/node");
    assert_eq!(e.store_path, "node/libs/@types+node-20.1.0");
    let bare = adopt_single_node_package("dir", "{}").unwrap();
    assert_eq!((bare.name.as_str(), bare.version.as_str()), ("dir", "0.0.0"));
    assert!(adopt_single_node_package("dir", "no json").is_none());
    assert_eq!(
        shown(&node_copy_steps("/nm/vue", "/s/node/libs/vue-3", false)),
        vec![
            r#"CreateDir { path: "/s/node/libs/vue-3/package" }"#,
            r#"CopyTree { path: "/s/node/libs/vue-3/package", source: "/nm/vue" }"#,
        ]
    );
    assert!(node_copy_steps("/nm/vue", "/s/node/libs/vue-3", true).is_empty());
}

#[test]
fn relative_links_lead_to_their_targets() {
    assert_eq!(
        pathdiff_relative("/p/.venv/bin/python", "/p/.venv/runtime/bin/python3").as_deref(),
        Some("../runtime/bin/python3")
    );
    assert_eq!(pathdiff_relative("/a/b", "/a/c").as_deref(), Some("c"));
    assert_eq!(pathdiff_relative("/a/b", "/x/y").as_deref(), Some("../x/y"));
    assert_eq!(pathdiff_relative("/a/b", "/a"), None);
}

#[test]
fn solid_project_needs_nothing_of_the_store() {
    let project = KongRules {
        python: Some(PythonSection {
            version: "3.12.9".into(),
            platform: "any".into(),
            packages: vec![
                package("a", "1", "python/libs/a-1-cp312-any"),
                package("gone", "1", "python/libs/gone-1-cp312-any"),
            ],
        }),
        node: Some(NodeSection { packages: vec![package("@s/n", "2", "node/libs/@s+n-2")], local: vec![] }),
        ..rules()
    };
    let facts = SolidFacts {
        in_store: texts(&["python/libs/a-1-cp312-any", "node/libs/@s+n-2"]),
        with_dir: texts(&["node/libs/@s+n-2"]),
        venv_place: EnvPlace::Link,
        modules_place: EnvPlace::Present,
        runtime: Some(LocalRuntime {
            source: "/s/python/runtime/3.12.9".into(),
            exe: "/p/.venv/runtime/bin/python3".into(),
        }),
        runtime_there: true,
        windowed: false,
        windows: false,
    };
    assert_eq!(
        shown(&solidify_project("/p", &project, "/s", &facts)),
        vec![
            r#"RemoveLink { path: "/p/.venv" }"#,
            r#"CreateDir { path: "/p/.venv/lib/python3.12/site-packages" }"#,
            r#"RemoveTree { path: "/p/.venv/runtime" }"#,
            r#"CopyTree { path: "/p/.venv/runtime", source: "/s/python/runtime/3.12.9" }"#,
            r#"Write { path: "/p/.venv/pyvenv.cfg", content: "home = /p/.venv/runtime/bin\ninclude-system-site-packages = false\nversion = 3.12.9\n" }"#,
            r#"CreateDir { path: "/p/.venv/bin" }"#,
            r#"Symlink { path: "/p/.venv/bin/python3", target: "../runtime/bin/python3" }"#,
            r#"Symlink { path: "/p/.venv/bin/python", target: "../runtime/bin/python3" }"#,
            r#"CopyTree { path: "/p/.venv/lib/python3.12/site-packages", source: "/s/python/libs/a-1-cp312-any" }"#,
            r#"RemoveTree { path: "/p/node_modules" }"#,
            r#"CreateDir { path: "/p/node_modules" }"#,
            r#"CreateDir { path: "/p/node_modules/@s" }"#,
            r#"CopyTree { path: "/p/node_modules/@s/n", source: "/s/node/libs/@s+n-2/package" }"#,
        ]
    );
    let node = NodeSection { packages: vec![package("n", "2", "node/libs/n-2")], local: vec![] };
    assert_eq!(
        shown(&solidify_node("/nm", &node, "/s", &texts(&["node/libs/n-2"]), &[], EnvPlace::Missing)),
        vec![
            r#"CreateDir { path: "/nm" }"#,
            r#"CopyTree { path: "/nm/n", source: "/s/node/libs/n-2" }"#,
        ]
    );
}

#[test]
fn only_exclusive_packages_leave_the_store() {
    let python = |names: &[&str]| {
        Some(PythonSection {
            version: "3.12.9".into(),
            platform: "any".into(),
            packages: names
                .iter()
                .map(|n| package(n, "1", &format!("python/libs/{n}-1-cp312-any")))
                .collect(),
        })
    };
    let mine = || KongRules {
        python: python(&["own", "shared"]),
        rust: Some(RustSection { packages: vec![package("serde", "1.0", "rust/crates/serde-1.0")] }),
        ..rules()
    };
    let other = || KongRules { python: python(&["shared"]), ..rules() };
    let at = |dir: &str, rules: KongRules| RegisteredProject { dir: dir.to_string(), rules };
    assert_eq!(
        eject_project(&mine(), "/mine", &vec![at("/mine", mine()), at("/other", other())]),
        vec!["python/libs/own-1-cp312-any", "rust/crates/serde-1.0"]
    );
    assert_eq!(
        eject_project(&mine(), "/mine", &vec![at("/other", other())]),
        vec!["python/libs/own-1-cp312-any", "rust/crates/serde-1.0"]
    );
    assert!(eject_project(&mine(), "/mine", &vec![at("/copy", mine())]).is_empty());
    assert_eq!(eject_project(&mine(), "/mine", &vec![]).len(), 3);
    assert_eq!(ecosystem_for_store_path("node/libs/x-1"), "node");
    assert_eq!(ecosystem_for_store_path("bare"), "bare");
}
