use kong::node::client::{metadata_url, tarball_url};
use kong::node::runtime::{
    build_download_url, ensure_runtime, node_exe_in, npm_exe_in, resolve_release, NodeRelease,
    RuntimeStep,
};

fn releases() -> Vec<NodeRelease> {
    [("v24.1.0", false), ("v22.11.0", true), ("v22.10.0", false), ("v20.18.0", true)]
        .iter()
        .map(|(version, lts)| NodeRelease { version: version.to_string(), lts: *lts })
        .collect()
}

fn chosen(requested: &str) -> Option<String> {
    resolve_release(&releases(), requested, "linux", "x86_64").map(|r| r.1)
}

#[test]
fn release_for_a_request() {
    for latest in ["", "lts", " LTS ", "latest"] {
        assert_eq!(chosen(latest).as_deref(), Some("22.11.0"));
    }
    assert_eq!(chosen("24").as_deref(), Some("24.1.0"));
    assert_eq!(chosen("22").as_deref(), Some("22.11.0"));
    assert_eq!(chosen("22.10").as_deref(), Some("22.10.0"));
    assert_eq!(chosen("20.18.0").as_deref(), Some("20.18.0"));
    assert_eq!(chosen("2"), None);
    assert_eq!(chosen("18"), None);
}

#[test]
fn addresses_of_releases() {
    assert_eq!(
        resolve_release(&releases(), "24", "windows", "x86_64").unwrap().0,
        "https://nodejs.org/dist/v24.1.0/node-v24.1.0-win-x64.zip"
    );
    assert_eq!(
        build_download_url("v24.1.0", "24.1.0", "macos", "aarch64"),
        "https://nodejs.org/dist/v24.1.0/node-v24.1.0-darwin-arm64.tar.gz"
    );
    assert_eq!(
        build_download_url("v24.1.0", "24.1.0", "macos", "x86_64"),
        "https://nodejs.org/dist/v24.1.0/node-v24.1.0-darwin-x64.tar.gz"
    );
    assert_eq!(
        build_download_url("v24.1.0", "24.1.0", "linux", "x86_64"),
        "https://nodejs.org/dist/v24.1.0/node-v24.1.0-linux-x64.tar.gz"
    );
}

#[test]
fn executables_of_a_node_runtime() {
    let unix = vec!["bin/node".to_string(), "bin/npm".to_string()];
    let windows = vec!["node.exe".to_string(), "npm".to_string()];
    assert_eq!(node_exe_in("/r", false, &unix).as_deref(), Some("/r/bin/node"));
    assert_eq!(npm_exe_in("/r", false, &unix).as_deref(), Some("/r/bin/npm"));
    assert_eq!(npm_exe_in("/r", true, &windows).as_deref(), Some("/r/npm"));
    assert_eq!(node_exe_in("/r", true, &unix), None);
}

#[test]
fn node_runtime_is_brought_once() {
    let there = vec!["bin/node".to_string(), "bin/npm".to_string()];
    match ensure_runtime("/s", "22.11.0", false, &there, false) {
        RuntimeStep::Ready(rt) => {
            assert_eq!(rt.version, "22.11.0");
            assert_eq!(rt.store_path, "node/runtime/22.11.0");
            assert_eq!(rt.node_exe, "/s/node/runtime/22.11.0/bin/node");
            assert_eq!(rt.npm_exe, "/s/node/runtime/22.11.0/bin/npm");
        }
        other => panic!("{other:?}"),
    }
    let step = |existing: &[String], brought: bool| {
        format!("{:?}", ensure_runtime("/s", "22.11.0", false, existing, brought))
    };
    assert_eq!(step(&[], false), r#"Download { store_path: "node/runtime/22.11.0" }"#);
    assert_eq!(step(&[], true), r#"MissingNode { runtime_dir: "/s/node/runtime/22.11.0" }"#);
    assert_eq!(step(&there[..1], false), r#"MissingNpm { runtime_dir: "/s/node/runtime/22.11.0" }"#);
}

#[test]
fn tarballs_of_packages() {
    assert_eq!(metadata_url("@types/node", "20.1.0"), "https://registry.npmjs.org/@types/node/20.1.0");
    assert_eq!(tarball_url(r#"{"dist":{"tarball":"https://t.tgz"}}"#).as_deref(), Some("https://t.tgz"));
    assert_eq!(tarball_url(r#"{"dist":{}}"#), None);
    assert_eq!(tarball_url("not json"), None);
    let with_digests = r#"{"dist":{"tarball":"https://t.tgz","shasum":"ab","integrity":null}}"#;
    assert_eq!(tarball_url(with_digests).as_deref(), Some("https://t.tgz"));
    assert_eq!(tarball_url(r#"{"dist":{"tarball":"https://t.tgz","shasum":null}}"#), None);
    assert_eq!(tarball_url(r#"{"dist":{"tarball":"https://t.tgz","integrity":1}}"#), None);
}
