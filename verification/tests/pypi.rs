use kong::python::client::{
    arch_suffix, fetch_and_download, list_versions, metadata_url, parse_requires_dist,
    parse_requires_dist_pub, resolve_best_version, resolve_latest_version, FileError,
    PypiPackageInfo, Resolution,
};
use kong::python::markers::MarkerEnv;
use kong::python::pep440::SpecifierSet;
use kong::python::wheel::{PypiDigests, PypiFileEntry};

fn texts(items: &[&str]) -> Vec<String> {
    items.iter().map(|s| s.to_string()).collect()
}

fn linux() -> MarkerEnv {
    MarkerEnv::for_target("linux", "x86_64")
}

#[test]
fn declared_dependencies() {
    let entries = texts(&[
        "requests[security] (>=2.0)",
        "urllib3<3,>=1.21.1",
        "idna==3.4",
        "PySocks!=1.5.7,>=1.5.6; extra == 'socks'",
        "pywin32>=300; sys_platform == 'win32'",
        "uvloop>=0.14; sys_platform != 'win32'",
        "tomli; python_version < '3.11'",
    ]);
    let deps = parse_requires_dist(&entries, &linux());
    let seen: Vec<(&str, &str, &str)> =
        deps.iter().map(|d| (d.name.as_str(), d.version.as_str(), d.spec.as_str())).collect();
    assert_eq!(
        seen,
        vec![
            ("requests", "", "(>=2.0)"),
            ("urllib3", "", "<3,>=1.21.1"),
            ("idna", "3.4", "==3.4"),
            ("uvloop", "", ">=0.14"),
            ("tomli", "", ""),
        ]
    );
    assert_eq!(parse_requires_dist_pub(&entries, &linux()).len(), 5);
    let windows = parse_requires_dist(&entries, &MarkerEnv::for_target("windows", "x86_64"));
    assert!(windows.iter().any(|d| d.name == "pywin32"));
    assert!(!windows.iter().any(|d| d.name == "uvloop"));
}

#[test]
fn version_for_a_specifier() {
    let listed = texts(&["1.0", "2.0", "2.1rc1"]);
    let resolve = |spec: &str, list: Option<&Vec<String>>| {
        format!("{:?}", resolve_best_version(&SpecifierSet::parse(spec), list))
    };
    assert_eq!(resolve("==9.9", None), r#"Version("9.9")"#);
    assert_eq!(resolve(">=1", None), "ListVersions");
    assert_eq!(resolve(">=1", Some(&listed)), r#"Version("2.0")"#);
    assert_eq!(resolve(">=3", Some(&listed)), "TakeLatest");
    assert!(matches!(
        resolve_best_version(&SpecifierSet::parse(">=2.1rc1"), Some(&listed)),
        Resolution::Version(v) if v == "2.1rc1"
    ));
}

#[test]
fn releases_without_files_are_not_listed() {
    let answer = r#"{"releases": {"1.0": [{}, {}], "1.1": [], "1.2": [{}]}}"#;
    assert_eq!(list_versions(answer).unwrap(), vec!["1.0", "1.2"]);
    let withdrawn = r#"{"releases": {"2.0": [{"yanked": true}], "2.1": [{"yanked": true}, {"yanked": false}]}}"#;
    assert_eq!(list_versions(withdrawn).unwrap(), vec!["2.1"]);
    assert!(list_versions(r#"{"releases": {"1.0": 3}}"#).is_none());
    assert!(list_versions("{}").is_none());
    assert!(list_versions("no JSON").is_none());
}

fn file(filename: &str, packagetype: &str) -> PypiFileEntry {
    PypiFileEntry {
        filename: filename.into(),
        url: format!("https://f/{filename}"),
        digests: PypiDigests { sha256: format!("sha-{filename}") },
        packagetype: packagetype.into(),
        requires_python: None,
    }
}

fn info() -> PypiPackageInfo {
    PypiPackageInfo {
        requires_dist: texts(&["idna==3.4", "pywin32; sys_platform == 'win32'"]),
        releases: vec![
            ("1.0".into(), vec![file("p-1.0.tar.gz", "sdist"), file("p-1.0-py3-none-any.whl", "bdist_wheel")]),
            ("1.1".into(), vec![file("p-1.1.tar.gz", "sdist")]),
            ("1.2".into(), vec![file("p-1.2-cp39-cp39-win_amd64.whl", "bdist_wheel")]),
        ],
    }
}

#[test]
fn file_to_download() {
    let get = |version: &str| {
        fetch_and_download(&info(), "p", version, "cp312", "manylinux2014_x86_64", "x86_64.whl", &linux())
    };
    let wheel = get("1.0").unwrap();
    assert_eq!(wheel.url, "https://f/p-1.0-py3-none-any.whl");
    assert_eq!(wheel.sha256, "sha-p-1.0-py3-none-any.whl");
    assert!(!wheel.is_sdist);
    assert_eq!(wheel.transitive.len(), 1);
    assert_eq!(wheel.transitive[0].name, "idna");
    assert!(get("1.1").unwrap().is_sdist);
    let none = get("1.2").unwrap_err();
    assert_eq!(none.reason, FileError::NoSuitableFile);
    assert_eq!(none.message(), "no suitable file for p==1.2 (target cp312)");
    let unknown = get("2.0").unwrap_err();
    assert_eq!(unknown.reason, FileError::NoSuchVersion);
    assert_eq!(unknown.message(), "version '2.0' not found for 'p' on PyPI");
}

#[test]
fn latest_version_in_an_answer() {
    assert_eq!(resolve_latest_version(r#"{"info":{"version":"2.31.0"}}"#).as_deref(), Some("2.31.0"));
    assert_eq!(resolve_latest_version(r#"{"info":{}}"#), None);
    assert_eq!(resolve_latest_version("oops"), None);
    assert_eq!(metadata_url("requests"), "https://pypi.org/pypi/requests/json");
}

#[test]
fn ends_of_wheel_names() {
    assert_eq!(arch_suffix("macos", "aarch64"), "arm64.whl");
    assert_eq!(arch_suffix("macos", "x86_64"), "x86_64.whl");
    assert_eq!(arch_suffix("linux", "x86_64"), "x86_64.whl");
    assert_eq!(arch_suffix("linux", "aarch64"), "aarch64.whl");
    assert_eq!(arch_suffix("windows", "x86_64"), "amd64.whl");
    assert_eq!(arch_suffix("freebsd", "x86_64"), "");
}
