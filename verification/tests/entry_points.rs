use kong::actions::FsAction;
use kong::python::entry_points::{
    batch_source, console_script_steps, generate_console_scripts, launcher_source,
    parse_console_scripts, ConsoleScript, SiteEntry,
};

#[test]
fn parse_module_attr_form() {
    let txt = "[console_scripts]\nuvicorn = uvicorn.main:main\nalembic = alembic.config:main\n";
    let scripts = parse_console_scripts(txt);
    assert_eq!(scripts.len(), 2);
    assert_eq!(scripts[0].name, "uvicorn");
    assert_eq!(scripts[0].module, "uvicorn.main");
    assert_eq!(scripts[0].attr.as_deref(), Some("main"));
    assert_eq!(scripts[1].name, "alembic");
    assert_eq!(scripts[1].module, "alembic.config");
    assert_eq!(scripts[1].attr.as_deref(), Some("main"));
}

#[test]
fn parse_module_only_form() {
    let txt = "[console_scripts]\nsomecli = somepkg.cli\n";
    let scripts = parse_console_scripts(txt);
    assert_eq!(scripts.len(), 1);
    assert_eq!(scripts[0].name, "somecli");
    assert_eq!(scripts[0].module, "somepkg.cli");
    assert_eq!(scripts[0].attr, None);
}

#[test]
fn ignores_other_sections_and_extras() {
    let txt = "[metadata]\nfoo = bar\n\
               [console_scripts]\npip = pip._internal.cli.main:main [extra]\n\
               [gui_scripts]\nmygui = mygui.app:run\n\
               [other]\nbaz = qux:y\n";
    let scripts = parse_console_scripts(txt);
    assert_eq!(scripts.len(), 2);
    assert_eq!(scripts[0].name, "pip");
    assert_eq!(scripts[0].module, "pip._internal.cli.main");
    assert_eq!(scripts[0].attr.as_deref(), Some("main"));
    assert_eq!(scripts[1].name, "mygui");
    assert_eq!(scripts[1].attr.as_deref(), Some("run"));
}

#[test]
fn launcher_has_shebang_and_call() {
    let script = ConsoleScript {
        name: "uvicorn".into(),
        module: "uvicorn.main".into(),
        attr: Some("main".into()),
    };
    let py = "/proj/.venv/bin/python";
    let src = launcher_source(py, &script);
    assert!(src.starts_with("#!/proj/.venv/bin/python\n"), "shebang: {src}");
    assert!(src.contains("from uvicorn.main import main"));
    assert!(src.contains("sys.exit(main())"));
}

#[test]
fn launcher_module_only_calls_main() {
    let script = ConsoleScript {
        name: "somecli".into(),
        module: "somepkg.cli".into(),
        attr: None,
    };
    let src = launcher_source("/p/.venv/bin/python", &script);
    assert!(src.contains("import somepkg.cli"));
    assert!(src.contains("sys.exit(somepkg.cli.main())"));
}

#[test]
fn generate_writes_executable_with_venv_shebang() {
    let entries = vec![
        SiteEntry {
            name: "uvicorn-0.30.0.dist-info".into(),
            is_dir: true,
            entry_points: Some("[console_scripts]\nuvicorn = uvicorn.main:main\n".into()),
        },
        SiteEntry { name: "plain-1.0.dist-info".into(), is_dir: true, entry_points: None },
    ];
    assert_eq!(generate_console_scripts(&entries).len(), 1);
    let steps = console_script_steps(&entries, "/t/bin", "/t/bin/python", false);
    assert_eq!(steps.len(), 2);
    match &steps[0] {
        FsAction::Write { path, content } => {
            assert_eq!(path, "/t/bin/uvicorn");
            assert!(content.starts_with("#!/t/bin/python\n"), "shebang: {content}");
        }
        other => panic!("{other:?}"),
    }
    assert_eq!(format!("{:?}", steps[1]), r#"MakeExecutable { path: "/t/bin/uvicorn" }"#);
}

#[test]
fn launcher_in_full() {
    let script = ConsoleScript {
        name: "tool".into(),
        module: "pkg.cli".into(),
        attr: Some("App.run".into()),
    };
    assert_eq!(
        launcher_source("C:\\v\\Scripts\\python.exe", &script),
        "#!C:/v/Scripts/python.exe\n# -*- coding: utf-8 -*-\nimport re\nimport sys\nfrom pkg.cli import App\nif __name__ == '__main__':\n    sys.argv[0] = re.sub(r'(-script\\.pyw?|\\.exe)?$', '', sys.argv[0])\n    sys.exit(App.run())\n"
    );
    assert_eq!(
        batch_source("C:/v/Scripts/python.exe", &script),
        "@echo off\r\n\"C:\\v\\Scripts\\python.exe\" \"%~dp0tool-script.py\" %*\r\n"
    );
}

#[test]
fn odd_entries_declare_nothing() {
    let txt = "[Console_Scripts]\n# note\n; note\nnoequals\n = x:y\nname =\nn = :f\nok = m:f\n";
    let scripts = parse_console_scripts(txt);
    assert_eq!(scripts.len(), 1);
    assert_eq!(scripts[0].name, "ok");
    let outside = SiteEntry {
        name: "pkg".into(),
        is_dir: true,
        entry_points: Some("[console_scripts]\na = b:c\n".into()),
    };
    assert!(generate_console_scripts(&vec![outside]).is_empty());
}
