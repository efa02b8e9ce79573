use kong::download::FileInfo;
use kong::python::client::TransitiveDep;
use kong::python::parser::PythonDep;
use kong::python::resolver::{Action, Resolver};

fn direct(name: &str, version: &str, spec: &str) -> PythonDep {
    PythonDep { name: name.into(), version: version.into(), spec: spec.into() }
}

fn transitive(name: &str, version: &str, spec: &str) -> TransitiveDep {
    TransitiveDep { name: name.into(), version: version.into(), spec: spec.into() }
}

fn resolver(deps: Vec<PythonDep>) -> Resolver {
    let in_store = ["requests-2.31.0", "Jinja2-3.1.0", "jinja2-3.0.0", "my-pkg-1.0"];
    let in_store = in_store.iter().map(|n| format!("python/libs/{n}-cp312-any")).collect();
    Resolver::new(&deps, "cp312".into(), "any".into(), in_store, false)
}

fn shown(a: Action) -> String {
    format!("{a:?}")
}

#[test]
fn packages_are_searched_breadth_first() {
    let mut r = resolver(vec![direct("flask", "3.0.0", ""), direct("requests", "", ">=2")]);
    assert_eq!(shown(r.next()), r#"Resolve { name: "requests", spec: ">=2" }"#);
    assert!(r.resolved(Some("2.31.0".into())).is_ok());
    assert_eq!(
        shown(r.next()),
        r#"Install { name: "flask", version: "3.0.0", store_path: "python/libs/flask-3.0.0-cp312-any", fetch: true }"#
    );
    let info = FileInfo { hash: "ff".into(), url: "https://f".into() };
    r.installed(Some(info), vec![transitive("Jinja2", "3.1.0", "==3.1.0"), transitive("Flask", "", "")]);
    assert_eq!(
        shown(r.next()),
        r#"Install { name: "requests", version: "2.31.0", store_path: "python/libs/requests-2.31.0-cp312-any", fetch: false }"#
    );
    r.installed(None, vec![transitive("jinja2", "3.0.0", "==3.0.0"), transitive("odd", "", ">9")]);
    assert_eq!(shown(r.next()), r#"Resolve { name: "odd", spec: ">9" }"#);
    assert!(r.resolved(None).is_ok());
    assert_eq!(
        shown(r.next()),
        r#"Install { name: "Jinja2", version: "3.1.0", store_path: "python/libs/Jinja2-3.1.0-cp312-any", fetch: false }"#
    );
    r.installed(None, vec![]);
    assert_eq!(
        shown(r.next()),
        r#"Install { name: "jinja2", version: "3.0.0", store_path: "python/libs/jinja2-3.0.0-cp312-any", fetch: false }"#
    );
    r.installed(None, vec![]);
    assert_eq!(shown(r.next()), "Finished");
    let packages = r.into_packages();
    let names: Vec<(&str, &str)> =
        packages.iter().map(|p| (p.name.as_str(), p.version.as_str())).collect();
    assert_eq!(
        names,
        vec![("flask", "3.0.0"), ("requests", "2.31.0"), ("Jinja2", "3.1.0"), ("jinja2", "3.0.0")]
    );
    assert_eq!(packages[0].hash.as_deref(), Some("ff"));
    assert_eq!(packages[0].source_url.as_deref(), Some("https://f"));
    assert_eq!(packages[1].hash, None);
}

#[test]
fn one_version_is_installed_once() {
    let mut r = resolver(vec![direct("my-pkg", "1.0", ""), direct("My_Pkg", "1.0", "")]);
    assert!(shown(r.next()).starts_with(r#"Install { name: "my-pkg""#));
    r.installed(None, vec![transitive("MY-PKG", "2.0", "==2.0")]);
    assert_eq!(shown(r.next()), "Finished");
    assert_eq!(r.into_packages().len(), 1);
}

#[test]
fn unresolved_dependency_of_the_project_is_an_error() {
    let mut r = resolver(vec![direct("ghost", "", ">=1")]);
    assert_eq!(shown(r.next()), r#"Resolve { name: "ghost", spec: ">=1" }"#);
    assert_eq!(r.resolved(None).unwrap_err().name, "ghost");
}

#[test]
fn nothing_is_needed_for_nothing() {
    let mut r = resolver(vec![]);
    assert_eq!(shown(r.next()), "Finished");
    assert!(r.into_packages().is_empty());
}

#[test]
fn packages_in_the_store_are_fetched_by_force() {
    let stored = || vec!["python/libs/a-1.0-cp312-any".to_string()];
    let mut r = Resolver::new(&vec![direct("a", "1.0", "")], "cp312".into(), "any".into(), stored(), true);
    assert!(shown(r.next()).ends_with("fetch: true }"));
    r.installed(Some(FileInfo { hash: "aa".into(), url: "https://a".into() }), vec![]);
    assert_eq!(shown(r.next()), "Finished");
    assert_eq!(r.into_packages()[0].hash.as_deref(), Some("aa"));

    let mut r = Resolver::new(&vec![direct("a", "1.0", "")], "cp312".into(), "any".into(), stored(), false);
    assert!(shown(r.next()).ends_with("fetch: false }"));
    r.installed(None, vec![]);
    assert_eq!(shown(r.next()), "Finished");
    assert_eq!(r.into_packages()[0].hash, None);
}
