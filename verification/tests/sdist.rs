use kong::actions::FsAction;
use kong::config::metadata_requires;
use kong::python::sdist::{
    collect_importable, find_compiled_source, has_project_marker, install_sdist, locate_sdist_root,
    metadata_text, pick_import_base, SdistTree, SourceEntry, SourceKind, TopDir,
};

fn shown(steps: &[FsAction]) -> Vec<String> {
    steps.iter().map(|a| format!("{a:?}")).collect()
}

fn entry(name: &str, kind: SourceKind) -> SourceEntry {
    SourceEntry { name: name.to_string(), kind }
}

fn texts(items: &[&str]) -> Vec<String> {
    items.iter().map(|s| s.to_string()).collect()
}

#[test]
fn installs_flat_pure_python_layout() {
    let tree = SdistTree {
        root: "/t/sgmllib3k-1.0.0".into(),
        files: texts(&["setup.py", "PKG-INFO", "sgmllib.py", "helper/__init__.py", "helper/util.py"]),
        entries: vec![
            entry("setup.py", SourceKind::File),
            entry("PKG-INFO", SourceKind::File),
            entry("sgmllib.py", SourceKind::File),
            entry("helper", SourceKind::Package),
        ],
        src_entries: None,
    };
    let store = "/store/python/libs/sgmllib3k-1.0.0-cp310-any";
    let steps = shown(&install_sdist(&tree, store, "sgmllib3k", "1.0.0", &[]).unwrap());
    assert_eq!(
        steps,
        vec![
            r#"CreateDir { path: "/store/python/libs/sgmllib3k-1.0.0-cp310-any" }"#,
            r#"CopyFiles { path: "/store/python/libs/sgmllib3k-1.0.0-cp310-any/helper", source: "/t/sgmllib3k-1.0.0/helper" }"#,
            r#"CopyFile { path: "/store/python/libs/sgmllib3k-1.0.0-cp310-any/sgmllib.py", source: "/t/sgmllib3k-1.0.0/sgmllib.py" }"#,
            r#"CreateDir { path: "/store/python/libs/sgmllib3k-1.0.0-cp310-any/sgmllib3k-1.0.0.dist-info" }"#,
            r#"Write { path: "/store/python/libs/sgmllib3k-1.0.0-cp310-any/sgmllib3k-1.0.0.dist-info/METADATA", content: "Metadata-Version: 2.1\nName: sgmllib3k\nVersion: 1.0.0\n" }"#,
        ]
    );
}

#[test]
fn installs_src_layout() {
    let tree = SdistTree {
        root: "/t/mypkg-2.3.0".into(),
        files: texts(&[
            "setup.cfg",
            "pyproject.toml",
            "src/mypkg/__init__.py",
            "src/mypkg/core.py",
            "tests/test_core.py",
        ]),
        entries: vec![
            entry("setup.cfg", SourceKind::File),
            entry("pyproject.toml", SourceKind::File),
            entry("src", SourceKind::Dir),
            entry("tests", SourceKind::Dir),
        ],
        src_entries: Some(vec![entry("mypkg", SourceKind::Package)]),
    };
    let deps = texts(&["requests>=2"]);
    let steps = shown(&install_sdist(&tree, "/s", "mypkg", "2.3.0", &deps).unwrap());
    assert_eq!(
        steps[1],
        r#"CopyFiles { path: "/s/mypkg", source: "/t/mypkg-2.3.0/src/mypkg" }"#
    );
    assert_eq!(steps.len(), 4);
    assert!(steps[3].contains("Requires-Dist: requests>=2"), "metadata: {}", steps[3]);
}

#[test]
fn rejects_compiled_sdist_loudly() {
    let tree = SdistTree {
        root: "/t/cext-1.0.0".into(),
        files: texts(&["setup.py", "cext/__init__.py", "cext/_speed.c"]),
        entries: vec![entry("setup.py", SourceKind::File), entry("cext", SourceKind::Package)],
        src_entries: None,
    };
    let err = install_sdist(&tree, "/s", "cext", "1.0.0", &[]).unwrap_err();
    let msg = err.message();
    assert!(msg.contains("cext==1.0.0"), "error names the package: {msg}");
    assert!(msg.contains("compiled sdist"), "error explains why: {msg}");
    assert!(msg.contains("cext/_speed.c"), "error names the file: {msg}");
}

#[test]
fn collect_importable_skips_setup_and_non_py() {
    let entries = vec![
        entry("setup.py", SourceKind::File),
        entry("conftest.py", SourceKind::File),
        entry("README.md", SourceKind::File),
        entry("pkg", SourceKind::Package),
        entry("mod.py", SourceKind::File),
        entry("data", SourceKind::Dir),
        entry("socket.py", SourceKind::Other),
    ];
    let items: Vec<String> = collect_importable(&entries).iter().map(|i| i.name.clone()).collect();
    assert!(items.contains(&"mod.py".to_string()));
    assert!(items.contains(&"pkg".to_string()));
    assert!(!items.contains(&"setup.py".to_string()));
    assert!(!items.contains(&"conftest.py".to_string()));
    assert!(!items.contains(&"README.md".to_string()));
    assert!(!items.contains(&"data".to_string()));
    assert_eq!(items, vec!["mod.py", "pkg"]);
}

#[test]
fn empty_layout_is_refused() {
    let tree = SdistTree {
        root: "/t/x-1".into(),
        files: texts(&["setup.py"]),
        entries: vec![entry("setup.py", SourceKind::File)],
        src_entries: Some(vec![]),
    };
    let msg = install_sdist(&tree, "/s", "x", "1", &[]).unwrap_err().message();
    assert_eq!(
        msg,
        "package 'x==1' sdist has no importable top-level module or package under /t/x-1 — kong cannot install it (not a simple pure-Python layout)"
    );
}

#[test]
fn root_of_the_sources() {
    let dir = |name: &str, has_marker: bool| TopDir { name: name.to_string(), has_marker };
    assert_eq!(locate_sdist_root("/t", &vec![]), "/t");
    assert_eq!(locate_sdist_root("/t", &vec![dir("b", false), dir("c", true)]), "/t/c");
    assert_eq!(locate_sdist_root("/t", &vec![dir("b", false), dir("a", false)]), "/t/a");
    assert!(has_project_marker(&texts(&["x", "setup.cfg"])));
    assert!(!has_project_marker(&texts(&["x"])));
}

#[test]
fn base_of_the_modules() {
    let root = vec![entry("a.py", SourceKind::File)];
    let none = vec![entry("notes.txt", SourceKind::File)];
    let some = vec![entry("b", SourceKind::Package)];
    assert_eq!(pick_import_base("/r", &root, None).0, "/r");
    assert_eq!(pick_import_base("/r", &root, Some(&none)).0, "/r");
    let (base, entries) = pick_import_base("/r", &root, Some(&some));
    assert_eq!(base, "/r/src");
    assert_eq!(entries[0].name, "b");
}

#[test]
fn sources_to_compile_are_found_by_extension() {
    assert_eq!(
        find_compiled_source(&texts(&["a.py", "b/x.PYX", "c.c"])).map(|s| s.as_str()),
        Some("b/x.PYX")
    );
    assert!(find_compiled_source(&texts(&["a.py", "c", "h.h"])).is_none());
}

#[test]
fn written_requirements_are_read_back() {
    let deps = texts(&["requests>=2", "  flask ; extra == 'web' "]);
    let text = metadata_text("x", "1.0", &deps);
    assert_eq!(
        text,
        "Metadata-Version: 2.1\nName: x\nVersion: 1.0\nRequires-Dist: requests>=2\nRequires-Dist: flask ; extra == 'web'\n"
    );
    assert_eq!(metadata_requires(&text), vec!["requests>=2", "flask ; extra == 'web'"]);
}
