use kong::config::{
    collect_scripts, find_dependencies, generate_rules, local_entries, major_minor, metadata_requires,
    node_package_path, package_entry, plan_node_packages, plan_rust_packages, platform_tag,
    read_transitive_from_store, short_python_tag, Dependencies, DetectError, LocalPackageEntry,
    ManifestTexts, NodeSection, PlannedPackage, PythonSection, RuntimeEntry, StoredEntry,
};
use kong::download::FileInfo;
use kong::node::parser::{LocalSource, NodeDep};
use kong::node::platform::HostTriple;
use kong::python::markers::MarkerEnv;
use kong::python::parser::{ProjectFiles, PythonDep};
use kong::rust_eco::parser::RustDep;

fn texts(items: &[&str]) -> Vec<String> {
    items.iter().map(|s| s.to_string()).collect()
}

fn node_dep(name: &str, version: &str, local: Option<&str>) -> NodeDep {
    NodeDep {
        name: name.into(),
        version: version.into(),
        _resolved: None,
        _integrity: None,
        os: vec![],
        cpu: vec![],
        libc: vec![],
        optional: false,
        local: local.map(|p| LocalSource { path: p.into(), origin: "test".into() }),
    }
}

#[test]
fn tags_of_platforms_and_interpreters() {
    assert_eq!(platform_tag("windows", "x86_64"), "win_amd64");
    assert_eq!(platform_tag("linux", "x86_64"), "manylinux2014_x86_64");
    assert_eq!(platform_tag("macos", "x86_64"), "macosx_10_9_x86_64");
    assert_eq!(platform_tag("macos", "aarch64"), "macosx_11_0_arm64");
    assert_eq!(platform_tag("linux", "aarch64"), "linux_aarch64");
    assert_eq!(short_python_tag("3.12.9"), "cp312");
    assert_eq!(short_python_tag("3"), "cp30");
    assert_eq!(major_minor("3.12.9"), "3.12");
    assert_eq!(major_minor("3"), "3.0");
}

#[test]
fn dependencies_of_a_package_in_the_store() {
    let metadata = "Name: x\nRequires-Dist: idna (==3.4)\nRequires-Dist: tomli==2.0.1\nRequires-Dist: w ; extra == 'x'\n";
    assert_eq!(
        metadata_requires(metadata),
        vec!["idna (==3.4)", "tomli==2.0.1", "w ; extra == 'x'"]
    );
    let entries = vec![
        StoredEntry { name: "x".into(), metadata: None },
        StoredEntry { name: "broken-1.dist-info".into(), metadata: None },
        StoredEntry { name: "x-1.dist-info".into(), metadata: Some(metadata.into()) },
        StoredEntry { name: "y-1.dist-info".into(), metadata: Some("Requires-Dist: z\n".into()) },
    ];
    let deps = read_transitive_from_store(&entries, &MarkerEnv::for_target("linux", "x86_64"));
    let seen: Vec<(&str, &str)> = deps.iter().map(|d| (d.name.as_str(), d.version.as_str())).collect();
    assert_eq!(seen, vec![("idna", ""), ("tomli", "2.0.1")]);
    assert!(read_transitive_from_store(&vec![], &MarkerEnv::for_target("linux", "x86_64")).is_empty());
}

#[test]
fn scripts_of_a_project() {
    let manifest = r#"{"scripts": {"dev": "vite", "n": 1, "build": "tsc"}}"#;
    let project = "[tool.taskipy.tasks]\ndev = \"flask run\"\nlint = \"ruff\"\n";
    let scripts = collect_scripts(Some(manifest), Some(project));
    let seen: Vec<(&str, &str)> = scripts.iter().map(|(k, v)| (k.as_str(), v.as_str())).collect();
    assert_eq!(seen, vec![("build", "tsc"), ("dev", "vite"), ("lint", "ruff")]);
    assert!(collect_scripts(Some("{"), Some("[")).is_empty());
    assert!(collect_scripts(None, None).is_empty());
}

#[test]
fn packages_are_planned() {
    let deps = vec![node_dep("@types/node", "20.1.0", None), node_dep("lib", "0.1.0", Some("../lib"))];
    let in_store = texts(&["node/libs/@types+node-20.1.0"]);
    let plan = plan_node_packages(&deps, &in_store, false);
    assert_eq!(plan.len(), 1);
    assert_eq!(plan[0].store_path, "node/libs/@types+node-20.1.0");
    assert_eq!(plan[0].store_path, node_package_path("@types/node", "20.1.0"));
    assert!(!plan[0].fetch);
    assert!(plan_node_packages(&deps, &in_store, true)[0].fetch);
    assert!(plan_node_packages(&deps, &[], false)[0].fetch);
    let locals = local_entries(&deps);
    assert_eq!(locals.len(), 1);
    assert_eq!(
        (locals[0].name.as_str(), locals[0].version.as_str(), locals[0].path.as_str()),
        ("lib", "0.1.0", "../lib")
    );
    let crates = vec![RustDep { name: "serde".into(), version: "1.0.0".into(), _checksum: None }];
    let plan = plan_rust_packages(&crates, &[], false);
    assert_eq!(plan[0].store_path, "rust/crates/serde-1.0.0");
    assert!(plan[0].fetch);
}

#[test]
fn nothing_is_downloaded_twice() {
    let deps = vec![node_dep("b", "1.0.0", None), node_dep("b", "2.0.0", None), node_dep("b", "1.0.0", None)];
    let fetched = |force: bool| -> Vec<bool> {
        plan_node_packages(&deps, &[], force).iter().map(|p| p.fetch).collect()
    };
    assert_eq!(fetched(false), vec![true, true, false]);
    assert_eq!(fetched(true), vec![true, true, true]);
    let twice = |name: &str| RustDep { name: name.into(), version: "1.0.0".into(), _checksum: None };
    let plan = plan_rust_packages(&vec![twice("a"), twice("a"), twice("b")], &[], false);
    let fetched: Vec<bool> = plan.iter().map(|p| p.fetch).collect();
    assert_eq!(fetched, vec![true, false, true]);
}

#[test]
fn origin_is_recorded_of_downloads() {
    let planned = |fetch: bool| PlannedPackage {
        name: "a".into(),
        version: "1".into(),
        store_path: "node/libs/a-1".into(),
        fetch,
    };
    let fetched = package_entry(planned(true), Some(FileInfo { hash: "ff".into(), url: "u".into() }));
    assert_eq!(fetched.hash.as_deref(), Some("ff"));
    assert_eq!(fetched.source_url.as_deref(), Some("u"));
    let there = package_entry(planned(false), None);
    assert_eq!((there.hash, there.source_url), (None, None));
    assert_eq!(there.store_path, "node/libs/a-1");
}

#[test]
fn local_paths_are_seen_from_the_project() {
    let entry = |path: &str| LocalPackageEntry { name: "l".into(), version: "1".into(), path: path.into() };
    assert_eq!(entry("../lib").resolve("/p"), "/p/../lib");
    assert_eq!(entry("/abs/lib").resolve("/p"), "/abs/lib");
    assert_eq!(entry("Q:/lib").resolve("/p"), "Q:/lib");
}

fn no_deps() -> Dependencies {
    Dependencies { python: vec![], node: vec![], rust: vec![], brew: vec![] }
}

fn manifests() -> ManifestTexts {
    ManifestTexts {
        dir: "/p".into(),
        python: ProjectFiles {
            uv_lock: None,
            poetry_lock: None,
            pipfile_lock: None,
            requirements: Some("flask==3.0.0\n".into()),
            pyproject: None,
        },
        package_lock: None,
        package_json: Some(r#"{"dependencies": {"vite": "^6.3.1"}}"#.into()),
        cargo_lock: None,
        brewfile: Some("brew \"jq\"\n".into()),
    }
}

#[test]
fn dependencies_of_all_ecosystems() {
    let host = HostTriple { os: "linux".into(), cpu: "x64".into(), libc: None };
    let deps = find_dependencies(&manifests(), &host).unwrap();
    assert_eq!(deps.python[0].name, "flask");
    assert_eq!(deps.node[0].name, "vite");
    assert!(deps.rust.is_empty());
    assert_eq!(deps.brew[0].name, "jq");
    let broken = ManifestTexts { cargo_lock: Some("no lock".into()), ..manifests() };
    let said = |texts: &ManifestTexts| find_dependencies(texts, &host).unwrap_err().message(texts);
    assert!(matches!(find_dependencies(&broken, &host), Err(DetectError::Rust(_))));
    assert_eq!(said(&broken), "failed to parse Cargo.lock: /p/Cargo.lock");
    let broken = ManifestTexts { package_lock: Some("{".into()), ..manifests() };
    assert!(matches!(find_dependencies(&broken, &host), Err(DetectError::Node(_))));
    assert_eq!(said(&broken), "failed to parse JSON: /p/package-lock.json");
    let python = ProjectFiles { uv_lock: Some("=".into()), ..manifests().python };
    let broken = ManifestTexts { python, ..manifests() };
    assert!(matches!(find_dependencies(&broken, &host), Err(DetectError::Python(_))));
    assert_eq!(said(&broken), "failed to parse TOML: /p/uv.lock");
    let python = ProjectFiles { pipfile_lock: Some("{".into()), ..manifests().python };
    let broken = ManifestTexts { python, ..manifests() };
    assert_eq!(said(&broken), "failed to parse JSON: /p/Pipfile.lock");
}

#[test]
fn rules_are_put_together() {
    let runtime = || RuntimeEntry { version: "3.12.9".into(), store_path: "python/runtime/3.12.9".into() };
    let python = || PythonSection { version: "3.12.9".into(), platform: "any".into(), packages: vec![] };
    let flask = || PythonDep { name: "flask".into(), version: "3.0.0".into(), spec: "".into() };
    let rules = generate_rules(
        "app".into(),
        "2026-01-01T00:00:00Z".into(),
        &Dependencies { python: vec![flask()], ..no_deps() },
        Some((runtime(), python())),
        None,
        None,
        None,
        vec![("dev".into(), "vite".into())],
        vec![],
    );
    assert_eq!(rules.version, 1);
    assert_eq!(rules.project, "app");
    assert!(rules.python.is_some());
    let runtimes = rules.runtimes.unwrap();
    assert_eq!(runtimes.python.unwrap().version, "3.12.9");
    assert!(runtimes.node.is_none());
    assert!(rules.node.is_none());
    assert_eq!(rules.scripts.len(), 1);
    let node = NodeSection { packages: vec![], local: vec![] };
    let node_runtime = RuntimeEntry { version: "22.0.0".into(), store_path: "node/runtime/22.0.0".into() };
    let deps = Dependencies { node: vec![node_dep("a", "1.0.0", None)], ..no_deps() };
    let rules = generate_rules(
        "a".into(),
        "t".into(),
        &deps,
        Some((runtime(), python())),
        Some((node_runtime, node)),
        None,
        None,
        vec![],
        vec![],
    );
    let runtimes = rules.runtimes.unwrap();
    assert_eq!(runtimes.node.unwrap().version, "22.0.0");
    assert!(runtimes.python.is_none());
    assert!(rules.node.is_some());
    assert!(rules.python.is_none());
    let rules = generate_rules("a".into(), "t".into(), &no_deps(), None, None, None, None, vec![], vec![]);
    assert!(rules.runtimes.is_none());
}
