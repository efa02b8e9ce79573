use kong::actions::FsAction;
use kong::config::{KongRules, PackageEntry, PythonSection, RuntimeEntry, RuntimeSection};
use kong::python::entry_points::{console_script_steps, SiteEntry};
use kong::python::venv::{
    aside_sibling, atomic_swap_venv, bin_dir, build_venv, final_venv_path, python_runtime_dir,
    pyvenv_cfg, site_packages, swap_error, temp_sibling, venv_python, SwapStep,
};

fn shown(steps: &[FsAction]) -> Vec<String> {
    steps.iter().map(|a| format!("{a:?}")).collect()
}

fn python() -> PythonSection {
    PythonSection {
        version: "3.12.0".into(),
        platform: "test".into(),
        packages: vec![PackageEntry {
            name: "webserve".into(),
            version: "1.0".into(),
            hash: None,
            store_path: "python/libs/webserve-1.0-cp312-test".into(),
            source_url: None,
        }],
    }
}

fn rules() -> KongRules {
    KongRules {
        version: 1,
        project: "t".into(),
        generated: "now".into(),
        runtimes: Some(RuntimeSection {
            python: Some(RuntimeEntry {
                version: "3.12.0".into(),
                store_path: "python/runtime/3.12.0".into(),
            }),
            node: None,
            rust: None,
        }),
        python: Some(python()),
        node: None,
        rust: None,
        brew: None,
        scripts: vec![],
        services: vec![],
    }
}

fn in_store() -> Vec<String> {
    vec!["python/libs/webserve-1.0-cp312-test".to_string()]
}

const EXE: &str = "/store/python/runtime/3.12.0/bin/python3";

#[test]
fn use_materializes_console_scripts() {
    let entries = vec![
        SiteEntry {
            name: "webserve-1.0.dist-info".into(),
            is_dir: true,
            entry_points: Some("[console_scripts]\nwebserve = webserve.main:run\n".into()),
        },
        SiteEntry { name: "webserve".into(), is_dir: true, entry_points: None },
    ];
    let temp = temp_sibling("/proj/.venv", 7);
    let live = final_venv_path(&temp);
    let steps =
        console_script_steps(&entries, &bin_dir(&temp, false), &venv_python(&live, false), false);
    assert_eq!(steps.len(), 2);
    match &steps[0] {
        FsAction::Write { path, content } => {
            assert_eq!(path, "/proj/.venv.kong-tmp-7/bin/webserve");
            assert!(content.contains("from webserve.main import run"), "body: {content}");
            assert!(content.contains("sys.exit(run())"), "body: {content}");
            assert_eq!(content.lines().next(), Some("#!/proj/.venv/bin/python"));
        }
        other => panic!("{other:?}"),
    }
    assert_eq!(
        format!("{:?}", steps[1]),
        r#"MakeExecutable { path: "/proj/.venv.kong-tmp-7/bin/webserve" }"#
    );
    let windows =
        console_script_steps(&entries, &bin_dir(&temp, true), &venv_python(&live, true), true);
    let names: Vec<String> = windows
        .iter()
        .map(|a| match a {
            FsAction::Write { path, .. } => path.clone(),
            other => panic!("{other:?}"),
        })
        .collect();
    assert_eq!(
        names,
        vec![
            "/proj/.venv.kong-tmp-7/Scripts/webserve-script.py",
            "/proj/.venv.kong-tmp-7/Scripts/webserve.bat",
        ]
    );
}

#[test]
fn activation_scripts_reference_final_venv_not_temp() {
    for (windows, name) in [(false, "activate"), (true, "Activate.ps1"), (true, "activate.bat")] {
        let plan =
            build_venv("/proj", 7, false, &python(), "/store", &in_store(), Some(EXE), false, windows);
        let body = plan
            .steps
            .iter()
            .find_map(|a| match a {
                FsAction::WriteNew { path, content, .. } if path.ends_with(name) => Some(content),
                _ => None,
            })
            .unwrap();
        assert!(body.contains("/proj/.venv\""), "body:\n{body}");
        assert!(!body.contains(".venv.kong-tmp-"), "body:\n{body}");
    }
}

#[test]
fn build_uses_temp_then_swaps_leaving_no_leftovers() {
    let plan =
        build_venv("/proj", 7, false, &python(), "/store", &in_store(), Some(EXE), false, false);
    assert_eq!(plan.venv, "/proj/.venv");
    assert_eq!(plan.temp, "/proj/.venv.kong-tmp-7");
    assert_eq!(plan.temp, temp_sibling("/proj/.venv", 7));
    let steps = shown(&plan.steps);
    assert_eq!(
        steps[..5],
        [
            r#"CreateDir { path: "/proj/.venv.kong-tmp-7/lib/python3.12/site-packages" }"#,
            r#"Write { path: "/proj/.venv.kong-tmp-7/pyvenv.cfg", content: "home = /store/python/runtime/3.12.0/bin\ninclude-system-site-packages = false\nversion = 3.12.0\n" }"#,
            r#"CreateDir { path: "/proj/.venv.kong-tmp-7/bin" }"#,
            r#"Symlink { path: "/proj/.venv.kong-tmp-7/bin/python3", target: "/store/python/runtime/3.12.0/bin/python3" }"#,
            r#"Symlink { path: "/proj/.venv.kong-tmp-7/bin/python", target: "/store/python/runtime/3.12.0/bin/python3" }"#,
        ]
    );
    assert_eq!(
        steps.last().unwrap(),
        r#"LinkTree { path: "/proj/.venv.kong-tmp-7/lib/python3.12/site-packages", source: "/store/python/libs/webserve-1.0-cp312-test" }"#
    );
    let again =
        build_venv("/proj", 7, true, &python(), "/store", &in_store(), Some(EXE), false, false);
    assert_eq!(shown(&again.steps)[0], r#"RemoveTree { path: "/proj/.venv.kong-tmp-7" }"#);
    assert_eq!(shown(&again.steps)[1..], steps[..]);
}

/// Runs an exchange on three places, with a set of steps that fail.
fn exchange(
    live: Option<&'static str>,
    aside: Option<&'static str>,
    failing: &[SwapStep],
) -> (SwapStep, Option<&'static str>, Option<&'static str>, Option<&'static str>) {
    let mut live = live;
    let mut fresh = Some("new");
    let mut aside = aside;
    let mut step = SwapStep::LookForLive;
    for _ in 0..10 {
        let works = !failing.contains(&step);
        let outcome = match step {
            SwapStep::LookForLive => live.is_some(),
            SwapStep::LookForAside => aside.is_some(),
            SwapStep::MoveInFirst | SwapStep::MoveIn => {
                if works {
                    live = fresh.take();
                }
                works
            }
            SwapStep::ClearAside | SwapStep::RemoveOld => {
                if works {
                    aside = None;
                }
                works
            }
            SwapStep::MoveAside => {
                if works {
                    aside = live.take();
                }
                works
            }
            SwapStep::RollBack => {
                if works {
                    live = aside.take();
                }
                works
            }
            _ => return (step, live, fresh, aside),
        };
        step = atomic_swap_venv(step, outcome);
    }
    panic!("the exchange does not end");
}

#[test]
fn rebuild_over_existing_venv_is_complete_throughout() {
    let plan =
        build_venv("/proj", 9, false, &python(), "/store", &in_store(), Some(EXE), false, false);
    let site = site_packages(&plan.temp, "3.12.0", false);
    let mut cfg = false;
    let mut package = false;
    for step in &plan.steps {
        let path = match step {
            FsAction::CreateDir { path } | FsAction::Symlink { path, .. } => path,
            FsAction::Write { path, .. } | FsAction::WriteNew { path, .. } => path,
            FsAction::PlaceFile { path, .. } | FsAction::LinkTree { path, .. } => path,
            other => panic!("{other:?}"),
        };
        assert!(path.starts_with(&format!("{}/", plan.temp)), "{path}");
        assert!(path != &plan.venv && !path.starts_with("/proj/.venv/"), "{path}");
        cfg |= *path == format!("{}/pyvenv.cfg", plan.temp);
        if let FsAction::LinkTree { path, source } = step {
            package |= *path == site && source == "/store/python/libs/webserve-1.0-cp312-test";
        }
    }
    assert!(cfg && package);
    let entries = vec![SiteEntry {
        name: "webserve-1.0.dist-info".into(),
        is_dir: true,
        entry_points: Some("[console_scripts]\nwebserve = webserve.main:run\n".into()),
    }];
    let scripts = console_script_steps(
        &entries,
        &bin_dir(&plan.temp, false),
        &venv_python(&plan.venv, false),
        false,
    );
    assert!(matches!(&scripts[0], FsAction::Write { path, .. } if *path == format!("{}/bin/webserve", plan.temp)));
    assert_eq!(exchange(Some("old"), None, &[]), (SwapStep::Done, Some("new"), None, None));
    assert_eq!(
        exchange(Some("old"), Some("stale"), &[]),
        (SwapStep::Done, Some("new"), None, None)
    );
    assert_eq!(
        exchange(Some("old"), None, &[SwapStep::MoveIn]),
        (SwapStep::FailedToReplace, Some("old"), Some("new"), None)
    );
    assert_eq!(
        exchange(Some("old"), None, &[SwapStep::MoveAside]),
        (SwapStep::FailedToMoveAside, Some("old"), Some("new"), None)
    );
    assert_eq!(
        exchange(Some("old"), None, &[SwapStep::MoveIn, SwapStep::RollBack]),
        (SwapStep::FailedToReplace, None, Some("new"), Some("old"))
    );
    assert_eq!(
        exchange(Some("old"), None, &[SwapStep::RemoveOld]),
        (SwapStep::Done, Some("new"), None, Some("old"))
    );
}

#[test]
fn atomic_swap_target_present_source_consumed() {
    let (step, live, fresh, aside) = exchange(Some("old"), None, &[]);
    assert_eq!(step, SwapStep::Done);
    assert_eq!(live, Some("new"));
    assert_eq!(fresh, None);
    assert_eq!(aside, None);
    assert_eq!(exchange(None, None, &[]), (SwapStep::Done, Some("new"), None, None));
    assert_eq!(
        exchange(None, None, &[SwapStep::MoveInFirst]),
        (SwapStep::FailedToMoveIn, None, Some("new"), None)
    );
}

#[test]
fn failed_exchanges_are_reported() {
    assert_eq!(
        swap_error(SwapStep::FailedToMoveIn, "/p/t", "/p/.venv").as_deref(),
        Some("swap failed: /p/t -> /p/.venv")
    );
    assert_eq!(
        swap_error(SwapStep::FailedToMoveAside, "/p/t", "/p/.venv").as_deref(),
        Some("could not move old .venv aside: /p/.venv")
    );
    assert_eq!(
        swap_error(SwapStep::FailedToReplace, "/p/t", "/p/.venv").as_deref(),
        Some("swap failed (old .venv restored): /p/t -> /p/.venv")
    );
    assert_eq!(swap_error(SwapStep::Done, "/p/t", "/p/.venv"), None);
}

#[test]
fn names_of_environments() {
    assert_eq!(aside_sibling("/p/.venv", 42), "/p/.venv.kong-old-42");
    assert_eq!(final_venv_path("/p/.venv.kong-tmp-42"), "/p/.venv");
    assert_eq!(final_venv_path("/p/.venv"), "/p/.venv");
    assert_eq!(site_packages("/v", "3.9.1", false), "/v/lib/python3.9/site-packages");
    assert_eq!(site_packages("/v", "3.9.1", true), "/v/Lib/site-packages");
    assert_eq!(venv_python("/v", true), "/v/Scripts/python.exe");
    assert_eq!(
        pyvenv_cfg("/h", "3.9.1"),
        "home = /h\ninclude-system-site-packages = false\nversion = 3.9.1\n"
    );
    assert_eq!(
        python_runtime_dir("/store", &rules()).as_deref(),
        Some("/store/python/runtime/3.12.0")
    );
    assert_eq!(python_runtime_dir("/store", &KongRules { runtimes: None, ..rules() }), None);
}

#[test]
fn windows_environment_has_its_interpreters() {
    let exe = "/store/python/runtime/3.12.0/python.exe";
    let plan = build_venv("/proj", 7, false, &python(), "/store", &[], Some(exe), true, true);
    let steps = shown(&plan.steps);
    assert_eq!(
        steps[3..5],
        [
            r#"PlaceFile { path: "/proj/.venv.kong-tmp-7/Scripts/python.exe", source: "/store/python/runtime/3.12.0/python.exe" }"#,
            r#"PlaceFile { path: "/proj/.venv.kong-tmp-7/Scripts/pythonw.exe", source: "/store/python/runtime/3.12.0/pythonw.exe" }"#,
        ]
    );
    assert!(steps.iter().all(|s| !s.starts_with("LinkTree")));
}
