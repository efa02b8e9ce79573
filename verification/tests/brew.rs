use kong::brew::client::{
    bottle_platform_tag, download_bottle, ensure_bottles_in_store, find_store_version,
    fixup_macho_placeholders, formula_url, ghcr_token, is_macho_name, macos_major,
    macos_version_name, mismatch_message, read_otool_deps, read_otool_id, resolve_formula,
    resolve_placeholder, token_scope, FormulaError, FormulaInfo,
};
use kong::brew::installer::{ensure_installed, listed_names, newly_installed};
use kong::brew::parser::{detect_and_parse, parse_brewfile, BrewDep, BrewDepKind};
use kong::brew::resolver::{bottle_store_path, BottleSearch};
use kong::config::{BrewSection, PackageEntry};

fn texts(items: &[&str]) -> Vec<String> {
    items.iter().map(|s| s.to_string()).collect()
}

fn formula(name: &str, dependencies: &[&str]) -> FormulaInfo {
    FormulaInfo {
        name: name.into(),
        version: "1.0".into(),
        keg_only: false,
        dependencies: texts(dependencies),
        bottle_url: format!("https://ghcr.io/{name}"),
        bottle_sha256: "abc".into(),
    }
}

#[test]
fn whole_brewfile() {
    let deps = parse_brewfile(
        "# tools\ntap 'homebrew/services'\n  brew \"redis\", restart_service: true\ncask docker, x\nbrew \"\"\nmas \"x\"\n",
    );
    let seen: Vec<(&str, BrewDepKind)> = deps.iter().map(|d| (d.name.as_str(), d.kind)).collect();
    assert_eq!(
        seen,
        vec![
            ("homebrew/services", BrewDepKind::Tap),
            ("redis", BrewDepKind::Formula),
            ("docker", BrewDepKind::Cask),
        ]
    );
    assert!(detect_and_parse(None).is_empty());
    assert_eq!(detect_and_parse(Some("brew \"a\"")).len(), 1);
}

#[test]
fn tags_of_bottles() {
    assert_eq!(macos_major("15.3.1\n"), Some(15));
    assert_eq!(macos_major("x"), None);
    assert_eq!(macos_version_name(26), "tahoe");
    assert_eq!(macos_version_name(11), "big_sur");
    assert_eq!(macos_version_name(99), "sequoia");
    assert_eq!(bottle_platform_tag("macos", "aarch64", 14).as_deref(), Some("arm64_sonoma"));
    assert_eq!(bottle_platform_tag("macos", "x86_64", 13).as_deref(), Some("ventura"));
    assert_eq!(bottle_platform_tag("linux", "aarch64", 0).as_deref(), Some("arm64_linux"));
    assert_eq!(bottle_platform_tag("linux", "x86_64", 0).as_deref(), Some("x86_64_linux"));
    assert_eq!(bottle_platform_tag("windows", "x86_64", 0), None);
}

const FORMULA: &str = r#"{
    "versions": { "stable": "17.2" },
    "keg_only": true,
    "dependencies": ["icu4c", 3, "krb5"],
    "bottle": { "stable": { "files": {
        "arm64_ventura": { "url": "https://v", "sha256": "22" },
        "arm64_sonoma": { "url": "https://s", "sha256": "33" },
        "x86_64_linux": { "url": "https://l", "sha256": "44" },
        "monterey": { "url": "https://m" }
    } } }
}"#;

#[test]
fn formula_with_its_own_bottle() {
    let f = resolve_formula("postgresql@17", FORMULA, "x86_64_linux").unwrap();
    assert_eq!(f.name, "postgresql@17");
    assert_eq!(f.version, "17.2");
    assert!(f.keg_only);
    assert_eq!(f.dependencies, vec!["icu4c", "krb5"]);
    assert_eq!((f.bottle_url.as_str(), f.bottle_sha256.as_str()), ("https://l", "44"));
}

#[test]
fn newest_older_bottle_stands_in() {
    assert_eq!(resolve_formula("p", FORMULA, "arm64_tahoe").unwrap().bottle_sha256, "33");
    assert_eq!(resolve_formula("p", FORMULA, "arm64_sonoma").unwrap().bottle_sha256, "33");
    assert_eq!(resolve_formula("p", FORMULA, "arm64_ventura").unwrap().bottle_sha256, "22");
    let error = resolve_formula("p", FORMULA, "arm64_monterey").unwrap_err();
    assert_eq!(error.message(), "no suitable bottle found for 'p' (looking for tag 'arm64_monterey')");
    assert!(resolve_formula("p", FORMULA, "tahoe").is_err());
    assert!(resolve_formula("p", FORMULA, "arm64_linux").is_err());
}

#[test]
fn formulae_that_cannot_be_resolved() {
    let error = resolve_formula("p", "<html>", "tahoe").unwrap_err();
    assert_eq!(error.message(), "failed to parse formula JSON for 'p'");
    let error = resolve_formula("p", "{}", "tahoe").unwrap_err();
    assert!(matches!(error, FormulaError::NoStableVersion));
    assert_eq!(error.message(), "missing versions.stable");
    assert_eq!(formula_url("jq"), "https://formulae.brew.sh/api/formula/jq.json");
}

#[test]
fn bottles_are_checked() {
    assert_eq!(token_scope("postgresql@17"), "repository:homebrew/core/postgresql/17:pull");
    assert_eq!(ghcr_token(r#"{"token":"abc"}"#).as_deref(), Some("abc"));
    assert_eq!(ghcr_token("{}"), None);
    assert_eq!(ghcr_token("x"), None);
    let mut f = formula("jq", &[]);
    let error = download_bottle(&f, b"hello").unwrap_err();
    assert_eq!(
        mismatch_message("jq", &error),
        "bottle hash mismatch for 'jq': expected abc, got 2cf24dba5fb0a30e26e83b2ac5b9e29e1b161e5c1fa7425e73043362938b9824"
    );
    f.bottle_sha256 = "2cf24dba5fb0a30e26e83b2ac5b9e29e1b161e5c1fa7425e73043362938b9824".into();
    let info = download_bottle(&f, b"hello").unwrap();
    assert_eq!(info.url, "https://ghcr.io/jq");
    assert_eq!(info.hash, f.bottle_sha256);
}

#[test]
fn missing_bottles_are_downloaded() {
    let entry = |name: &str| PackageEntry {
        name: name.into(),
        version: "1.0".into(),
        hash: None,
        store_path: bottle_store_path(name, "1.0"),
        source_url: None,
    };
    let brew = BrewSection { packages: vec![entry("jq"), entry("redis")] };
    assert_eq!(ensure_bottles_in_store(&brew, "macos", &texts(&["brew/jq-1.0"])), vec!["redis"]);
    assert_eq!(ensure_bottles_in_store(&brew, "linux", &[]), vec!["jq", "redis"]);
    assert!(ensure_bottles_in_store(&brew, "windows", &[]).is_empty());
}

#[test]
fn placeholders_in_binaries_are_resolved() {
    assert!(is_macho_name("libpq.5.dylib"));
    assert!(is_macho_name("psql"));
    assert!(!is_macho_name("psql.txt"));
    let deps = "/x/lib/libpq.dylib:\n\t@@HOMEBREW_PREFIX@@/opt/krb5/lib/libk.dylib (compatibility version 2.0.0)\n\t/usr/lib/libSystem.B.dylib (compatibility version 1.0.0)\n\t@@HOMEBREW_CELLAR@@/icu4c/74.2/lib/libicu.dylib (compatibility version 74.0.0)\n";
    assert_eq!(
        read_otool_deps(deps),
        vec![
            "@@HOMEBREW_PREFIX@@/opt/krb5/lib/libk.dylib",
            "@@HOMEBREW_CELLAR@@/icu4c/74.2/lib/libicu.dylib",
        ]
    );
    let id = "/x/lib/libpq.dylib:\n@@HOMEBREW_PREFIX@@/opt/krb5/lib/libpq.dylib\n";
    assert_eq!(read_otool_id(id).as_deref(), Some("@@HOMEBREW_PREFIX@@/opt/krb5/lib/libpq.dylib"));
    assert_eq!(read_otool_id("/x:\n/usr/lib/x\n"), None);
    let dirs = texts(&["icu4c-74.2", "krb5-1.21"]);
    assert_eq!(find_store_version(&dirs, "krb5").as_deref(), Some("1.21"));
    assert_eq!(find_store_version(&dirs, "jq"), None);
    let similar = texts(&["node-build-1.0", "node-22.11.0"]);
    assert_eq!(find_store_version(&similar, "node").as_deref(), Some("22.11.0"));
    assert_eq!(find_store_version(&texts(&["x264-r3222"]), "x264").as_deref(), Some("r3222"));
    assert_eq!(find_store_version(&texts(&["x264"]), "x264"), None);
    let resolve = |p: &str| resolve_placeholder(p, "/s/brew", &dirs);
    assert_eq!(
        resolve("@@HOMEBREW_CELLAR@@/icu4c/74.2/lib/a.dylib").as_deref(),
        Some("/s/brew/icu4c-74.2/lib/a.dylib")
    );
    assert_eq!(resolve("@@HOMEBREW_CELLAR@@/icu4c/74.2").as_deref(), Some("/s/brew/icu4c-74.2"));
    assert_eq!(resolve("@@HOMEBREW_CELLAR@@/icu4c"), None);
    assert_eq!(resolve("@@HOMEBREW_PREFIX@@/opt/krb5").as_deref(), Some("/s/brew/krb5-1.21"));
    assert_eq!(resolve("@@HOMEBREW_PREFIX@@/opt/jq/lib/x"), None);
    assert_eq!(resolve("/usr/lib/x"), None);
    assert_eq!(
        fixup_macho_placeholders("/x/lib/libpq.dylib", deps, id, "/s/brew", &dirs).unwrap(),
        vec![
            "-change",
            "@@HOMEBREW_PREFIX@@/opt/krb5/lib/libk.dylib",
            "/s/brew/krb5-1.21/lib/libk.dylib",
            "-change",
            "@@HOMEBREW_CELLAR@@/icu4c/74.2/lib/libicu.dylib",
            "/s/brew/icu4c-74.2/lib/libicu.dylib",
            "-id",
            "/s/brew/krb5-1.21/lib/libpq.dylib",
            "/x/lib/libpq.dylib",
        ]
    );
    assert!(!fixup_macho_placeholders("/x/bin/psql", deps, id, "/s/brew", &dirs)
        .unwrap()
        .contains(&"-id".to_string()));
    assert!(fixup_macho_placeholders("/x/lib/libpq.dylib", "", id, "/s/brew", &dirs).is_none());
}

#[test]
fn brew_is_asked_for_what_is_missing() {
    let dep = |name: &str, kind: BrewDepKind| BrewDep { name: name.to_string(), kind };
    let deps = vec![
        dep("redis", BrewDepKind::Formula),
        dep("homebrew/services", BrewDepKind::Tap),
        dep("docker", BrewDepKind::Cask),
        dep("jq", BrewDepKind::Formula),
    ];
    let installed = listed_names("jq\n\n  wget \n");
    assert_eq!(installed, vec!["jq", "wget"]);
    let runs = ensure_installed(&deps, &installed, &[]);
    let args: Vec<String> = runs.iter().map(|r| r.args.join(" ")).collect();
    assert_eq!(args, vec!["tap homebrew/services", "install redis", "install --cask docker"]);
    assert_eq!(
        newly_installed(&runs, &vec![true, false, true]),
        vec!["tap:homebrew/services", "docker"]
    );
    let all = texts(&["redis", "docker", "jq"]);
    assert!(ensure_installed(&deps, &all, &texts(&["homebrew/services"])).is_empty());
}

#[test]
fn formulae_are_looked_at_once_breadth_first() {
    let deps = parse_brewfile("brew \"a\"\ntap \"t\"\nbrew \"b\"\nbrew \"a\"\n");
    let in_store = texts(&["brew/b-1.0", "brew/c-1.0"]);
    let mut search = BottleSearch::new(&deps, in_store, false);
    assert!(search.needs_bottle(&formula("a", &[])));
    assert!(!search.needs_bottle(&formula("b", &[])));
    assert_eq!(search.next().as_deref(), Some("a"));
    search.resolved(formula("a", &["c", "b"]));
    assert_eq!(search.next().as_deref(), Some("b"));
    search.resolved(formula("b", &["c", "a"]));
    assert_eq!(search.next().as_deref(), Some("c"));
    search.resolved(formula("c", &[]));
    assert_eq!(search.next(), None);
    let packages = search.into_packages();
    let names: Vec<&str> = packages.iter().map(|p| p.name.as_str()).collect();
    assert_eq!(names, vec!["a", "b", "c"]);
    assert_eq!(packages[0].hash.as_deref(), Some("abc"));
    assert_eq!(packages[0].source_url.as_deref(), Some("https://ghcr.io/a"));
    assert_eq!(packages[1].hash, None);
    assert_eq!(packages[2].store_path, "brew/c-1.0");
}
