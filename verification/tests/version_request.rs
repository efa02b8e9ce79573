use kong::python::version_request::{requested_version, single_minor, version_parts, RequestError};

#[test]
fn excluded_minor_can_narrow_or_empty_range() {
    assert_eq!(single_minor(">=3.10,<3.12,!=3.10.*"), Some("3.11".into()));
    assert_eq!(single_minor("==3.11.*,!=3.11.*"), None);
    assert_eq!(single_minor("==3.11.9,!=3.11.9"), None);
    assert_eq!(single_minor(">=3.11,<3.12,!=3.11.9"), Some("3.11".into()));
    assert_eq!(single_minor(">=3.11,<=3.12"), None);
    assert_eq!(single_minor("~=3.11"), None);
    assert_eq!(single_minor(">=3.11rc1,<3.12"), None);
    assert_eq!(single_minor(""), None);
}
#[test]
fn project_requires_single_minor() {
    for (spec, expected) in [
        (">=3.11,<3.12", "3.11"),
        ("==3.11.*", "3.11"),
        (">=3.11", "latest"),
        (">=3.10,<3.13", "latest"),
        ("~=3.11.2", "3.11"),
        ("==3.11.9", "3.11"),
        ("<3.12, >=3.11.2, !=3.11.5", "3.11"),
        (">=3.12,<3.11", "latest"),
    ] {
        let project = format!("[project]\nrequires-python = '{spec}'\n");
        assert_eq!(requested_version("/p", None, Some(project.as_str())).unwrap(), expected, "{spec}");
    }
}

#[test]
fn file_missing_empty_minor_and_precedence() {
    assert_eq!(requested_version("/p", None, None).unwrap(), "latest");
    assert_eq!(requested_version("/p", Some("# empty\n\n"), None).unwrap(), "latest");
    let project = "[project]\nrequires-python = '==3.12.*'\n";
    assert_eq!(requested_version("/p", Some("# empty\n\n"), Some(project)).unwrap(), "3.12");
    assert_eq!(requested_version("/p", Some(" 3.11\r\n"), Some(project)).unwrap(), "3.11");
    for invalid in ["3", "3.11rc1", "../3.11", "3.11.1.2", "pypy3.11"] {
        let error = requested_version("/p", Some(invalid), Some(project)).unwrap_err();
        assert!(error.message().contains(invalid));
    }
}

#[test]
fn version_file_takes_first_non_comment_line() {
    assert_eq!(requested_version("/p", Some("\n # comment\n 3.11.9 \n3.12\n"), None).unwrap(), "3.11.9");
}

#[test]
fn requests_that_cannot_be_told() {
    let error = requested_version("/p", Some("3.x"), None).unwrap_err();
    assert_eq!(
        error.message(),
        "Invalid Python version '3.x' in /p/.python-version: expected major.minor or major.minor.patch"
    );
    let error = requested_version("/p", None, Some("[")).unwrap_err();
    assert!(matches!(error, RequestError::InvalidProject { .. }));
    assert_eq!(error.message(), "parsing /p/pyproject.toml");
    assert_eq!(version_parts("3.11.9"), Some(vec![3, 11, 9]));
    assert_eq!(version_parts("3"), None);
    assert_eq!(version_parts("3.4294967296"), None);
}
