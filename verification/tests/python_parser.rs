use kong::python::parser::{
    detect_and_parse, normalize_python_name, parse_pipfile_lock, parse_poetry_constraint,
    parse_poetry_lock, parse_pyproject_toml, parse_requirement_line, parse_requirements_txt,
    parse_uv_lock, ManifestError, ProjectFiles,
};

#[test]
fn parse_requirements_basic() {
    let deps = parse_requirements_txt("requests==2.31.0\nflask==3.0.0\n# comment\n-r other.txt\n");
    assert_eq!(deps.len(), 2);
    assert_eq!(deps[0].name, "requests");
    assert_eq!(deps[0].version, "2.31.0");
    assert_eq!(deps[1].name, "flask");
}

#[test]
fn normalize_names() {
    assert_eq!(normalize_python_name("Requests"), "requests");
    assert_eq!(normalize_python_name("my-package"), "my_package");
    assert_eq!(normalize_python_name("My.Package"), "my_package");
}

#[test]
fn parse_requirement_specifier_preserved() {
    let dep = parse_requirement_line("requests>=2.28.0").unwrap();
    assert_eq!(dep.name, "requests");
    assert_eq!(dep.version, "");
    assert_eq!(dep.spec, ">=2.28.0");

    let dep = parse_requirement_line("urllib3>=1.21.1,<3").unwrap();
    assert_eq!(dep.name, "urllib3");
    assert_eq!(dep.spec, ">=1.21.1,<3");

    let dep = parse_requirement_line("flask==3.0.0; python_version >= '3.8'").unwrap();
    assert_eq!(dep.name, "flask");
    assert_eq!(dep.version, "3.0.0");
    assert_eq!(dep.spec, "");

    let dep = parse_requirement_line("requests[security]>=2.0").unwrap();
    assert_eq!(dep.name, "requests");
    assert_eq!(dep.spec, ">=2.0");
}

#[test]
fn parse_requirements_keeps_ranges() {
    let deps = parse_requirements_txt(
        "requests==2.31.0\nflask>=3.0,<4  # web\nhttps://x/y.whl\n# comment\n-r other.txt\n",
    );
    assert_eq!(deps.len(), 2);
    assert_eq!(deps[0].version, "2.31.0");
    assert_eq!(deps[1].name, "flask");
    assert_eq!(deps[1].version, "");
    assert_eq!(deps[1].spec, ">=3.0,<4");
}

#[test]
fn poetry_caret_tilde_conversion() {
    let d = parse_poetry_constraint("django", "^4.2.1").unwrap();
    assert_eq!(d.spec, ">=4.2.1,<5.0.0");

    let d = parse_poetry_constraint("foo", "^0.2.3").unwrap();
    assert_eq!(d.spec, ">=0.2.3,<0.3.0");

    let d = parse_poetry_constraint("bar", "~1.4").unwrap();
    assert_eq!(d.spec, ">=1.4,<1.5");

    let d = parse_poetry_constraint("baz", "2.1.0").unwrap();
    assert_eq!(d.version, "2.1.0");
    assert_eq!(d.spec, "");

    let d = parse_poetry_constraint("qux", "*").unwrap();
    assert_eq!(d.version, "");
    assert_eq!(d.spec, "");
}

#[test]
fn names_beyond_ascii_are_lowered() {
    assert_eq!(normalize_python_name("Größe-X"), "größe_x");
    let once = normalize_python_name("My.Odd-Name");
    assert_eq!(normalize_python_name(&once), once);
}

#[test]
fn constraints_of_poetry() {
    let spec = |raw: &str| parse_poetry_constraint("x", raw).unwrap().spec;
    assert_eq!(spec("^0.0.3"), ">=0.0.3,<0.0.4");
    assert_eq!(spec("~1.4.2"), ">=1.4.2,<1.5.0");
    assert_eq!(spec("~1"), ">=1,<2");
    assert_eq!(spec("~=1.4"), "~=1.4");
    assert_eq!(spec(">=1,<2"), ">=1,<2");
    assert_eq!(spec("^x"), ">=x");
}

#[test]
fn dependencies_of_pyproject() {
    let deps = parse_pyproject_toml("[project]\ndependencies = [\"Flask==3.0.0\", \"requests>=2\"]\n").unwrap();
    let seen: Vec<(&str, &str, &str)> =
        deps.iter().map(|d| (d.name.as_str(), d.version.as_str(), d.spec.as_str())).collect();
    assert_eq!(seen, vec![("flask", "3.0.0", ""), ("requests", "", ">=2")]);
    let deps = parse_pyproject_toml(
        "[tool.poetry.dependencies]\npython = \"^3.10\"\ndjango = \"^4.2\"\nuvicorn = { version = \"0.30.0\", extras = [\"standard\"] }\n",
    )
    .unwrap();
    let seen: Vec<(&str, &str, &str)> =
        deps.iter().map(|d| (d.name.as_str(), d.version.as_str(), d.spec.as_str())).collect();
    assert_eq!(seen, vec![("django", "", ">=4.2,<5.0.0"), ("uvicorn", "0.30.0", "")]);
    assert_eq!(parse_pyproject_toml("[").unwrap_err(), ManifestError::NotToml);
}

#[test]
fn locked_dependencies_have_versions() {
    let lock = "[[package]]\nname = \"My-Pkg\"\nversion = \"1.0\"\n[[package]]\nname = \"nov\"\n";
    for deps in [parse_uv_lock(lock).unwrap(), parse_poetry_lock(lock).unwrap()] {
        assert_eq!(deps.len(), 1);
        assert_eq!((deps[0].name.as_str(), deps[0].version.as_str()), ("my_pkg", "1.0"));
    }
    assert_eq!(parse_uv_lock("=").unwrap_err(), ManifestError::NotToml);
    let pipfile = r#"{"default": {"a": {"version": "==1.0"}, "b": {}}, "develop": {"c": {"version": "==2.0"}}}"#;
    let deps = parse_pipfile_lock(pipfile).unwrap();
    let seen: Vec<(&str, &str)> = deps.iter().map(|d| (d.name.as_str(), d.version.as_str())).collect();
    assert_eq!(seen, vec![("a", "1.0"), ("c", "2.0")]);
    assert_eq!(parse_pipfile_lock("{").unwrap_err(), ManifestError::NotJson);
}

#[test]
fn first_manifest_decides() {
    let files = |uv: Option<&str>, requirements: Option<&str>, project: Option<&str>| ProjectFiles {
        uv_lock: uv.map(|s| s.to_string()),
        poetry_lock: None,
        pipfile_lock: None,
        requirements: requirements.map(|s| s.to_string()),
        pyproject: project.map(|s| s.to_string()),
    };
    let lock = "[[package]]\nname = \"a\"\nversion = \"1.0\"\n";
    let project = "[project]\ndependencies = [\"c\"]\n";
    let name = |f: ProjectFiles| detect_and_parse(&f).unwrap()[0].name.clone();
    assert_eq!(name(files(Some(lock), Some("b==1"), Some(project))), "a");
    assert_eq!(name(files(None, Some("b==1"), Some(project))), "b");
    assert_eq!(name(files(None, None, Some(project))), "c");
    assert!(detect_and_parse(&files(None, None, None)).unwrap().is_empty());
}
