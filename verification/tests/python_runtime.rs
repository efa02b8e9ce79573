use kong::python::runtime::{
    ensure_runtime, platform_asset_suffix, python_exe_in, select_asset, AssetError, GhAsset,
    GhRelease, RuntimeStep,
};

const PLATFORM: &str = "x86_64-unknown-linux-gnu-install_only";

fn asset(version: &str, platform: &str) -> GhAsset {
    let name = format!("cpython-{version}+20260101-{platform}.tar.gz");
    GhAsset { browser_download_url: format!("https://example/{name}"), name }
}

fn fixture() -> Vec<GhRelease> {
    vec![
        GhRelease {
            assets: vec![
                GhAsset { name: "SHA256SUMS".into(), browser_download_url: "https://example/s".into() },
                asset("3.13.1", "x86_64-pc-windows-msvc-install_only"),
                asset("3.10.21", PLATFORM),
                asset("3.11.13", PLATFORM),
                asset("3.11.14", PLATFORM),
            ],
        },
        GhRelease { assets: vec![asset("3.11.9", PLATFORM), asset("3.10.20", PLATFORM)] },
    ]
}

#[test]
fn platform_filter_and_empty_releases_fail_clearly() {
    let error =
        select_asset(&fixture(), "3.11", "aarch64-apple-darwin-install_only").unwrap_err().message();
    assert!(error.contains("available versions in scanned releases: none"));
    assert!(select_asset(&[], "3.11", PLATFORM).unwrap_err().message().contains("3.11"));
    assert!(select_asset(&fixture(), "../3.11", PLATFORM).is_err());
}

#[test]
fn requested_minor_selects_highest_patch_not_first_asset() {
    assert_eq!(select_asset(&fixture(), "3.11", PLATFORM).unwrap().1, "3.11.14");
}

#[test]
fn exact_patch_prefers_exact_in_older_release() {
    assert_eq!(select_asset(&fixture(), "3.11.9", PLATFORM).unwrap().1, "3.11.9");
}

#[test]
fn absent_patch_falls_back_only_within_minor() {
    assert_eq!(select_asset(&fixture(), "3.11.99", PLATFORM).unwrap().1, "3.11.14");
}

#[test]
fn unavailable_minor_names_request_and_available_versions() {
    let error = select_asset(&fixture(), "3.1", PLATFORM).unwrap_err().message();
    for text in ["3.1", "3.10.21", "3.11.14", "available"] {
        assert!(error.contains(text), "{error}");
    }
}

#[test]
fn latest_preserves_first_matching_asset() {
    for request in ["", "latest"] {
        assert_eq!(select_asset(&fixture(), request, PLATFORM).unwrap().1, "3.10.21");
    }
}

#[test]
fn address_belongs_to_the_chosen_file() {
    let (url, version) = select_asset(&fixture(), "python3.11", PLATFORM).unwrap();
    assert_eq!(version, "3.11.14");
    assert_eq!(
        url,
        "https://example/cpython-3.11.14+20260101-x86_64-unknown-linux-gnu-install_only.tar.gz"
    );
}

#[test]
fn errors_of_a_request_are_told_apart() {
    let error = select_asset(&fixture(), "3.x", PLATFORM).unwrap_err();
    assert!(matches!(error, AssetError::InvalidRequest { .. }));
    assert_eq!(
        error.message(),
        "Invalid Python version '3.x': expected major.minor or major.minor.patch"
    );
    let odd = vec![GhRelease {
        assets: vec![GhAsset {
            name: format!("pypy-3.11-{PLATFORM}.tar.gz"),
            browser_download_url: "u".into(),
        }],
    }];
    let error = select_asset(&odd, "latest", PLATFORM).unwrap_err();
    assert!(matches!(error, AssetError::UnexpectedName { .. }));
    assert!(error.message().starts_with("unexpected asset filename format: pypy-3.11"));
    let error = select_asset(&[], "3.11", PLATFORM).unwrap_err();
    assert_eq!(
        error.message(),
        "No suitable Python runtime found for platform 'x86_64-unknown-linux-gnu-install_only' (requested: '3.11'); available versions in scanned releases: none. Check https://github.com/indygreg/python-build-standalone/releases"
    );
    let error = select_asset(&fixture(), "3.9", PLATFORM).unwrap_err();
    assert!(error.message().contains(": 3.10.21, 3.11.13, 3.11.14, 3.11.9, 3.10.20. Check"));
}

#[test]
fn names_for_machines() {
    assert_eq!(platform_asset_suffix("linux", "x86_64"), PLATFORM);
    assert_eq!(platform_asset_suffix("macos", "aarch64"), "aarch64-apple-darwin-install_only");
    assert_eq!(platform_asset_suffix("macos", "x86_64"), "x86_64-apple-darwin-install_only");
    assert_eq!(platform_asset_suffix("windows", "x86_64"), "x86_64-pc-windows-msvc-install_only");
    assert_eq!(platform_asset_suffix("linux", "aarch64"), "aarch64-unknown-linux-install_only");
}

#[test]
fn interpreter_of_a_python_runtime() {
    let both = vec!["bin/python".to_string(), "bin/python3".to_string()];
    assert_eq!(python_exe_in("/r", false, &both).as_deref(), Some("/r/bin/python3"));
    assert_eq!(python_exe_in("/r", false, &both[..1]).as_deref(), Some("/r/bin/python"));
    assert_eq!(python_exe_in("/r", true, &both), None);
    let scripts = vec!["Scripts/python.exe".to_string()];
    assert_eq!(python_exe_in("/r", true, &scripts).as_deref(), Some("/r/Scripts/python.exe"));
}

#[test]
fn python_runtime_is_brought_once() {
    let there = vec!["bin/python3".to_string()];
    match ensure_runtime("/s", "3.12.9", false, &there, false) {
        RuntimeStep::Ready(rt) => {
            assert_eq!(rt.version, "3.12.9");
            assert_eq!(rt.store_path, "python/runtime/3.12.9");
            assert_eq!(rt.python_exe, "/s/python/runtime/3.12.9/bin/python3");
        }
        other => panic!("{other:?}"),
    }
    assert_eq!(
        format!("{:?}", ensure_runtime("/s", "3.12.9", false, &[], false)),
        r#"Download { store_path: "python/runtime/3.12.9" }"#
    );
    assert_eq!(
        format!("{:?}", ensure_runtime("/s", "3.12.9", false, &[], true)),
        r#"Missing { runtime_dir: "/s/python/runtime/3.12.9" }"#
    );
}
