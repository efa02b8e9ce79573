use kong::actions::FsAction;
use kong::config::{LocalPackageEntry, NodeSection, PackageEntry};
use kong::link::{clean_environments, remove_dir_all_robust, EntryKind, Environments};
use kong::node::modules::{
    bin_entries, bin_owners, build_node_modules, create_shim, package_content_root, LocalFacts, PackageFacts,
    PlaceState, RootEntry, StoredLayout,
};

fn shown(steps: &[FsAction]) -> Vec<String> {
    steps.iter().map(|a| format!("{a:?}")).collect()
}

fn local(name: &str, path: &str) -> LocalPackageEntry {
    LocalPackageEntry { name: name.into(), version: "0.1.0".into(), path: path.into() }
}

fn stored(name: &str, store_path: &str) -> PackageEntry {
    PackageEntry {
        name: name.into(),
        version: "1.0.0".into(),
        hash: None,
        store_path: store_path.into(),
        source_url: None,
    }
}

fn root_entry(name: &str, is_dir: bool, has_manifest: bool) -> RootEntry {
    RootEntry { name: name.into(), is_dir, has_manifest }
}

fn layout(package_dir: bool, manifest: bool, entries: Vec<RootEntry>) -> StoredLayout {
    StoredLayout { package_dir, manifest, entries }
}

fn conventional() -> StoredLayout {
    layout(true, false, vec![root_entry("package", true, true)])
}

#[test]
fn content_root_handles_non_package_tarball_root() {
    let a = layout(
        true,
        false,
        vec![root_entry("package", true, false), root_entry(".kong-verified", false, false)],
    );
    assert_eq!(package_content_root("/t/a", &a), "/t/a/package");
    let b = layout(
        false,
        false,
        vec![root_entry("node v24.13", true, true), root_entry(".kong-verified", false, false)],
    );
    assert_eq!(package_content_root("/t/b", &b), "/t/b/node v24.13");
    let c = layout(
        false,
        true,
        vec![root_entry("lib", true, false), root_entry("package.json", false, false)],
    );
    assert_eq!(package_content_root("/t/c", &c), "/t/c");
    let d = layout(false, false, vec![root_entry("x", true, true), root_entry("y", true, true)]);
    assert_eq!(package_content_root("/t/d", &d), "/t/d");
}

#[test]
fn use_links_local_package_to_its_directory() {
    let node = NodeSection { packages: vec![], local: vec![local("@real3d/atoms", "../vendor/atoms")] };
    let facts = vec![LocalFacts { target_is_dir: true, place: PlaceState::Missing }];
    let plan = build_node_modules("/root/env", "/root/app", &node, "/store", &facts, &vec![]);
    assert!(plan.missing.is_none());
    assert_eq!(
        shown(&plan.steps),
        vec![
            r#"CreateDir { path: "/root/env/node_modules" }"#,
            r#"CreateDir { path: "/root/env/node_modules/@real3d" }"#,
            r#"LinkDir { path: "/root/env/node_modules/@real3d/atoms", target: "/root/app/../vendor/atoms" }"#,
            r#"CreateDir { path: "/root/env/node_modules/.bin" }"#,
        ]
    );
    let manifest = r#"{"name":"@real3d/atoms","version":"0.1.0","bin":{"atoms-cli":"bin/cli.js"}}"#;
    assert_eq!(
        bin_entries("@real3d/atoms", Some(manifest)),
        vec![("atoms-cli".to_string(), "bin/cli.js".to_string())]
    );
    let bin = "/root/env/node_modules/.bin";
    let top = "/root/env/node_modules/@real3d/atoms";
    assert_eq!(
        shown(&create_shim(bin, top, "atoms-cli", "bin/cli.js", false, true, false)),
        vec![
            r#"MakeExecutable { path: "/root/env/node_modules/@real3d/atoms/bin/cli.js" }"#,
            r#"Symlink { path: "/root/env/node_modules/.bin/atoms-cli", target: "/root/env/node_modules/@real3d/atoms/bin/cli.js" }"#,
        ]
    );
    assert_eq!(
        shown(&create_shim(bin, top, "atoms-cli", "bin/cli.js", false, true, true)),
        vec![
            r#"WriteNew { path: "/root/env/node_modules/.bin/atoms-cli.cmd", content: "@node \"\\root\\env\\node_modules\\@real3d\\atoms\\bin\\cli.js\" %*\r\n", executable: false }"#,
        ]
    );
}

#[test]
fn use_is_idempotent_and_repoints_a_moved_local_package() {
    let node = NodeSection { packages: vec![], local: vec![local("@real3d/atoms", "../vendor/atoms")] };
    let linked = vec![LocalFacts { target_is_dir: true, place: PlaceState::RightLink }];
    let again = build_node_modules("/env", "/app", &node, "/store", &linked, &vec![]);
    assert!(again.missing.is_none());
    assert!(again.steps.iter().all(|a| matches!(a, FsAction::CreateDir { .. })));

    let moved = NodeSection { packages: vec![], local: vec![local("@real3d/atoms", "../CRM_Atoms")] };
    let other = vec![LocalFacts { target_is_dir: true, place: PlaceState::OtherLink }];
    let plan = build_node_modules("/env", "/app", &moved, "/store", &other, &vec![]);
    assert_eq!(
        shown(&plan.steps),
        vec![
            r#"CreateDir { path: "/env/node_modules" }"#,
            r#"CreateDir { path: "/env/node_modules/@real3d" }"#,
            r#"RemoveLink { path: "/env/node_modules/@real3d/atoms" }"#,
            r#"LinkDir { path: "/env/node_modules/@real3d/atoms", target: "/app/../CRM_Atoms" }"#,
            r#"CreateDir { path: "/env/node_modules/.bin" }"#,
        ]
    );
}

#[test]
fn use_errors_clearly_when_local_target_is_missing() {
    let node = NodeSection { packages: vec![], local: vec![local("@real3d/atoms", "../nowhere/atoms")] };
    let facts = vec![LocalFacts { target_is_dir: false, place: PlaceState::Missing }];
    let plan = build_node_modules("/env", "/app", &node, "/store", &facts, &vec![]);
    let msg = plan.missing.unwrap().message();
    assert!(msg.contains("@real3d/atoms"), "{msg}");
    assert!(msg.contains("../nowhere/atoms"), "{msg}");
    assert!(msg.contains("does not exist"), "{msg}");
    assert_eq!(shown(&plan.steps), vec![r#"CreateDir { path: "/env/node_modules" }"#]);
}

#[test]
fn clean_environments_never_deletes_through_a_local_link() {
    let there = Environments { venv: false, node_modules: true, cargo_config: false };
    assert_eq!(
        shown(&clean_environments("/env", false, &there)),
        vec![r#"RemoveTree { path: "/env/node_modules" }"#]
    );
    let entries = vec![
        ("/env/node_modules/@real3d/atoms".to_string(), EntryKind::Link),
        ("/env/node_modules/@real3d".to_string(), EntryKind::Dir),
        ("/env/node_modules".to_string(), EntryKind::Dir),
    ];
    let steps = shown(&remove_dir_all_robust(&entries));
    assert_eq!(
        steps,
        vec![
            r#"RemoveLink { path: "/env/node_modules/@real3d/atoms" }"#,
            r#"RemoveEmptyDir { path: "/env/node_modules/@real3d" }"#,
            r#"RemoveEmptyDir { path: "/env/node_modules" }"#,
        ]
    );
    assert!(steps.iter().all(|s| !s.contains("vendor")));
}

#[test]
fn stored_packages_are_linked_flat() {
    let node = NodeSection {
        packages: vec![
            stored("express", "node/libs/express-1.0.0"),
            stored("@types/node", "node/libs/@types+node-1.0.0"),
            stored("gone", "node/libs/gone-1.0.0"),
            stored("there", "node/libs/there-1.0.0"),
            stored("link", "node/libs/link-1.0.0"),
        ],
        local: vec![],
    };
    let facts = vec![
        PackageFacts { in_store: true, layout: conventional(), place: PlaceState::Missing },
        PackageFacts { in_store: true, layout: conventional(), place: PlaceState::Missing },
        PackageFacts { in_store: false, layout: conventional(), place: PlaceState::Missing },
        PackageFacts { in_store: true, layout: conventional(), place: PlaceState::Present },
        PackageFacts { in_store: true, layout: layout(false, true, vec![]), place: PlaceState::OtherLink },
    ];
    let plan = build_node_modules("/e", "/p", &node, "/s", &vec![], &facts);
    assert_eq!(
        shown(&plan.steps),
        vec![
            r#"CreateDir { path: "/e/node_modules" }"#,
            r#"LinkTree { path: "/e/node_modules/express", source: "/s/node/libs/express-1.0.0/package" }"#,
            r#"CreateDir { path: "/e/node_modules/@types" }"#,
            r#"LinkTree { path: "/e/node_modules/@types/node", source: "/s/node/libs/@types+node-1.0.0/package" }"#,
            r#"RemoveLink { path: "/e/node_modules/link" }"#,
            r#"LinkTree { path: "/e/node_modules/link", source: "/s/node/libs/link-1.0.0" }"#,
            r#"CreateDir { path: "/e/node_modules/.bin" }"#,
        ]
    );
}

#[test]
fn local_package_takes_the_place_of_a_copy() {
    let node = NodeSection { packages: vec![], local: vec![local("lib", "/abs/lib")] };
    let facts = vec![LocalFacts { target_is_dir: true, place: PlaceState::Present }];
    let plan = build_node_modules("/e", "/p", &node, "/s", &facts, &vec![]);
    assert_eq!(
        shown(&plan.steps)[2..4],
        [
            r#"RemoveTree { path: "/e/node_modules/lib" }"#,
            r#"LinkDir { path: "/e/node_modules/lib", target: "/abs/lib" }"#,
        ]
    );
}

#[test]
fn commands_of_packages() {
    assert_eq!(
        bin_entries("@scope/tool", Some(r#"{"bin": "cli.js"}"#)),
        vec![("tool".to_string(), "cli.js".to_string())]
    );
    assert_eq!(
        bin_entries("tool", Some(r#"{"bin": {"b": "b.js", "a": 1, "c": "c.js"}}"#)),
        vec![("b".to_string(), "b.js".to_string()), ("c".to_string(), "c.js".to_string())]
    );
    assert!(bin_entries("tool", Some("{}")).is_empty());
    assert!(bin_entries("tool", Some("not json")).is_empty());
    assert!(bin_entries("tool", None).is_empty());
    assert!(create_shim("/b", "/t", "x", "x.js", true, true, false).is_empty());
    assert!(create_shim("/b", "/t", "x", "x.js", false, false, false).is_empty());
}

#[test]
fn first_package_of_a_name_is_linked() {
    let node = NodeSection {
        packages: vec![
            stored("b", "node/libs/b-0.9.0"),
            stored("b", "node/libs/b-1.0.0"),
            stored("b", "node/libs/b-2.0.0"),
            stored("lib", "node/libs/lib-1.0.0"),
        ],
        local: vec![local("lib", "../lib"), local("lib", "../lib"), local("lib", "../other")],
    };
    let fact = |in_store: bool| PackageFacts { in_store, layout: conventional(), place: PlaceState::Missing };
    let facts = vec![fact(false), fact(true), fact(true), fact(true)];
    let locals = (0..3).map(|_| LocalFacts { target_is_dir: true, place: PlaceState::Missing }).collect();
    let plan = build_node_modules("/e", "/p", &node, "/s", &locals, &facts);
    assert_eq!(
        shown(&plan.steps),
        vec![
            r#"CreateDir { path: "/e/node_modules" }"#,
            r#"CreateDir { path: "/e/node_modules" }"#,
            r#"LinkDir { path: "/e/node_modules/lib", target: "/p/../lib" }"#,
            r#"CreateDir { path: "/e/node_modules" }"#,
            r#"CreateDir { path: "/e/node_modules" }"#,
            r#"RemoveLink { path: "/e/node_modules/lib" }"#,
            r#"LinkDir { path: "/e/node_modules/lib", target: "/p/../other" }"#,
            r#"LinkTree { path: "/e/node_modules/b", source: "/s/node/libs/b-1.0.0/package" }"#,
            r#"RemoveLink { path: "/e/node_modules/lib" }"#,
            r#"LinkTree { path: "/e/node_modules/lib", source: "/s/node/libs/lib-1.0.0/package" }"#,
            r#"CreateDir { path: "/e/node_modules/.bin" }"#,
        ]
    );
}

#[test]
fn local_packages_end_as_links_to_their_directories() {
    let node = NodeSection {
        packages: vec![stored("b", "node/libs/b-1.0.0")],
        local: vec![
            local("a", "../a"),
            local("lib", "../lib"),
            local("@s/c", "../c"),
            local("lib", "../other"),
        ],
    };
    let fact = |place: PlaceState| LocalFacts { target_is_dir: true, place };
    let locals = vec![
        fact(PlaceState::RightLink),
        fact(PlaceState::Present),
        fact(PlaceState::OtherLink),
        fact(PlaceState::Present),
    ];
    let facts =
        vec![PackageFacts { in_store: true, layout: conventional(), place: PlaceState::OtherLink }];
    let plan = build_node_modules("/e", "/p", &node, "/s", &locals, &facts);
    let mut links = vec![("/e/node_modules/a".to_string(), "/p/../a".to_string())];
    for step in &plan.steps {
        match step {
            FsAction::LinkDir { path, target } => {
                links.retain(|(p, _)| p != path);
                links.push((path.clone(), target.clone()));
            }
            FsAction::RemoveLink { path } => links.retain(|(p, _)| p != path),
            FsAction::RemoveTree { path } | FsAction::LinkTree { path, .. } => {
                assert!(links.iter().all(|(p, _)| p != path), "{path}");
            }
            FsAction::CreateDir { .. } => {}
            other => panic!("{other:?}"),
        }
    }
    links.sort();
    assert_eq!(
        links,
        vec![
            ("/e/node_modules/@s/c".to_string(), "/p/../c".to_string()),
            ("/e/node_modules/a".to_string(), "/p/../a".to_string()),
            ("/e/node_modules/lib".to_string(), "/p/../other".to_string()),
        ]
    );
}

#[test]
fn owners_of_commands() {
    let node = NodeSection {
        packages: vec![stored("b", "node/libs/b-1.0.0"), stored("a", "node/libs/a-1.0.0")],
        local: vec![local("c", "../c")],
    };
    assert_eq!(bin_owners(&node), vec!["b", "a", "c"]);
}
