use kong::actions::FsAction;
use kong::store::{
    doctor, is_verified, node_store_path, python_store_path, rulez_dir, rust_store_path, store_root,
    write_verified_marker, StoreItem, StoreListing, VERIFIED_MARKER,
};

fn item(path: &str, is_dir: bool, verified: bool) -> StoreItem {
    StoreItem { path: path.to_string(), is_dir, verified }
}

#[test]
fn store_path_construction() {
    let root = "/store";
    assert_eq!(
        python_store_path(root, "requests", "2.31.0", "py3", "win_amd64"),
        "/store/python/libs/requests-2.31.0-py3-win_amd64"
    );
    assert_eq!(node_store_path(root, "express", "4.18.2"), "/store/node/libs/express-4.18.2");
    assert_eq!(rust_store_path(root, "serde", "1.0.193"), "/store/rust/crates/serde-1.0.193");
}

#[test]
fn root_is_the_one_that_is_set_or_the_default() {
    assert_eq!(store_root(Some("/x"), "linux", Some("/home/a")).as_deref(), Some("/x"));
    assert_eq!(store_root(None, "linux", Some("/home/a")).as_deref(), Some("/home/a/.kong"));
    assert_eq!(
        store_root(None, "macos", Some("/Users/a")).as_deref(),
        Some("/Users/a/Library/Application Support/kong/store")
    );
    assert_eq!(store_root(None, "windows", None).as_deref(), Some("C:\\kong\\store"));
    assert_eq!(store_root(None, "linux", None), None);
}

#[test]
fn environments_of_a_project_are_beside_the_store() {
    assert_eq!(rulez_dir(Some("/x"), "linux", None, "app").as_deref(), Some("/x/RULEZ/app"));
    assert_eq!(
        rulez_dir(None, "linux", Some("/home/a"), "app").as_deref(),
        Some("/home/a/.kong/RULEZ/app")
    );
    assert_eq!(
        rulez_dir(None, "macos", Some("/Users/a"), "app").as_deref(),
        Some("/Users/a/Library/Application Support/kong/RULEZ/app")
    );
    assert_eq!(rulez_dir(None, "windows", None, "app").as_deref(), Some("C:\\kong\\RULEZ\\app"));
    assert_eq!(rulez_dir(None, "macos", None, "app"), None);
}

#[test]
fn mark_of_a_verified_package() {
    assert_eq!(VERIFIED_MARKER, ".kong-verified");
    let step = write_verified_marker("/store/node/libs/a-1.0.0", "abc", "2026-01-01T00:00:00Z");
    assert_eq!(
        format!("{step:?}"),
        r#"Write { path: "/store/node/libs/a-1.0.0/.kong-verified", content: "hash=abc\nverified=2026-01-01T00:00:00Z\n" }"#
    );
    assert!(is_verified(&["package".to_string(), ".kong-verified".to_string()]));
    assert!(!is_verified(&["package".to_string()]));
}

#[test]
fn diagnosis_counts_packages_and_names_unverified_ones() {
    let listing = StoreListing {
        python: vec![item("/s/python/libs/a", true, true), item("/s/python/libs/note", false, false)],
        node: vec![item("/s/node/libs/b", true, false), item("/s/node/libs/c", true, true)],
        rust: vec![],
    };
    let report = doctor("/s", Some(&listing));
    assert!(report.store_exists);
    assert_eq!((report.python_count, report.node_count, report.rust_count), (1, 2, 0));
    assert_eq!(report.issues, vec!["Unverified package: /s/node/libs/b"]);
    assert_eq!(
        report.lines(),
        vec![
            "  ✓ Store: /s (1 Python, 2 Node, 0 Rust packages)",
            "  ✗ Unverified package: /s/node/libs/b",
        ]
    );
}

#[test]
fn diagnosis_of_a_store_that_is_not_there() {
    let report = doctor("/s", None);
    assert!(!report.store_exists);
    assert_eq!(
        report.lines(),
        vec![
            "  ✗ Store: /s (not found)",
            "  ✗ Store directory does not exist. Run 'kong rules' to initialize.",
        ]
    );
}

#[test]
fn diagnosis_without_issues() {
    let listing = StoreListing { python: vec![], node: vec![], rust: vec![item("/s/r", true, true)] };
    assert_eq!(
        doctor("/s", Some(&listing)).lines(),
        vec!["  ✓ Store: /s (0 Python, 0 Node, 1 Rust packages)", "  ✓ No issues found"]
    );
}

#[test]
fn written_mark_is_the_one_looked_for() {
    for dir in ["/store/node/libs/a-1.0.0", "/store/", "rel"] {
        let step = write_verified_marker(dir, "abc", "now");
        let path = match step {
            FsAction::Write { path, .. } => path,
            other => panic!("{other:?}"),
        };
        let name = path.rsplit('/').next().unwrap().to_string();
        assert!(is_verified(&[name]), "{path}");
    }
}
