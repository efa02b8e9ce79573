use kong::actions::FsAction;
use kong::link::{
    clean_environments, create_junction, junction_names, link_package, remove_dir_all_robust, remove_junction,
    EntryKind, Environments, JunctionState, TreeEntry,
};

fn shown(steps: &[FsAction]) -> Vec<String> {
    steps.iter().map(|a| format!("{a:?}")).collect()
}

fn entry(path: &str, is_dir: bool, exists: bool) -> TreeEntry {
    TreeEntry { path: path.to_string(), is_dir, exists }
}

#[test]
fn link_file_idempotent_via_link_package() {
    let fresh = vec![entry("file.txt", false, false)];
    assert_eq!(
        shown(&link_package("src_pkg", "dst_pkg", &fresh)),
        vec![
            r#"CreateDir { path: "dst_pkg" }"#,
            r#"CreateDir { path: "dst_pkg" }"#,
            r#"LinkFile { path: "dst_pkg/file.txt", source: "src_pkg/file.txt" }"#,
        ]
    );
    let again = vec![entry("file.txt", false, true)];
    assert_eq!(
        shown(&link_package("src_pkg", "dst_pkg", &again)),
        vec![r#"CreateDir { path: "dst_pkg" }"#]
    );
}

#[test]
fn directories_are_made_before_their_files() {
    let entries = vec![entry("lib", true, false), entry("lib/a.js", false, false)];
    assert_eq!(
        shown(&link_package("/s", "/d", &entries)),
        vec![
            r#"CreateDir { path: "/d" }"#,
            r#"CreateDir { path: "/d/lib" }"#,
            r#"CreateDir { path: "/d/lib" }"#,
            r#"LinkFile { path: "/d/lib/a.js", source: "/s/lib/a.js" }"#,
        ]
    );
}

#[test]
fn links_are_removed_and_not_followed() {
    let entries = vec![
        ("/e/nm/pkg/a.js".to_string(), EntryKind::File),
        ("/e/nm/pkg".to_string(), EntryKind::Dir),
        ("/e/nm/local".to_string(), EntryKind::Link),
        ("/e/nm".to_string(), EntryKind::Dir),
    ];
    assert_eq!(
        shown(&remove_dir_all_robust(&entries)),
        vec![
            r#"RemoveFile { path: "/e/nm/pkg/a.js" }"#,
            r#"RemoveEmptyDir { path: "/e/nm/pkg" }"#,
            r#"RemoveLink { path: "/e/nm/local" }"#,
            r#"RemoveEmptyDir { path: "/e/nm" }"#,
        ]
    );
}

#[test]
fn environments_are_cleaned() {
    let all = Environments { venv: true, node_modules: true, cargo_config: true };
    assert_eq!(
        shown(&clean_environments("/p", false, &all)),
        vec![
            r#"RemoveTree { path: "/p/.venv" }"#,
            r#"RemoveTree { path: "/p/node_modules" }"#,
            r#"RemoveFile { path: "/p/.cargo/config.toml" }"#,
        ]
    );
    assert_eq!(
        shown(&clean_environments("/p", true, &all)),
        vec![
            r#"RemoveTree { path: "/p/node_modules" }"#,
            r#"RemoveFile { path: "/p/.cargo/config.toml" }"#,
        ]
    );
}

#[test]
fn cleaning_can_be_repeated() {
    let none = Environments { venv: false, node_modules: false, cargo_config: false };
    assert!(clean_environments("/p", false, &none).is_empty());
}

#[test]
fn environments_are_linked_into_the_project_once() {
    assert_eq!(
        shown(&create_junction("/p", "/r/p", ".venv", JunctionState::Missing)),
        vec![r#"LinkDir { path: "/p/.venv", target: "/r/p/.venv" }"#]
    );
    assert_eq!(
        shown(&create_junction("/p", "/r/p", ".venv", JunctionState::Other)),
        vec![
            r#"RemoveLink { path: "/p/.venv" }"#,
            r#"LinkDir { path: "/p/.venv", target: "/r/p/.venv" }"#,
        ]
    );
    assert_eq!(junction_names(), vec![".venv", "node_modules", ".cargo", ".rust-toolchain"]);
    assert!(create_junction("/p", "/r/p", ".venv", JunctionState::Right).is_empty());
    assert!(create_junction("/p", "/r/p", ".venv", JunctionState::Taken).is_empty());
}

#[test]
fn only_links_are_removed_from_the_project() {
    for state in [JunctionState::Right, JunctionState::Other] {
        assert_eq!(
            shown(&remove_junction("/p", "node_modules", state)),
            vec![r#"RemoveLink { path: "/p/node_modules" }"#]
        );
    }
    for state in [JunctionState::Missing, JunctionState::Taken] {
        assert!(remove_junction("/p", "node_modules", state).is_empty());
    }
}
