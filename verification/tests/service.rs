use kong::config::{BrewSection, KongRules, PackageEntry, ServiceEntry};
use kong::service::{
    after_initialize, after_launch, after_port, after_wait, build_service_env, chosen_port,
    expand_cmd, logs, match_services, read_pid, read_pid_status, read_port, shell_quote, start,
    start_one, status, status_header, stop, stop_one, ServiceError, ServicePaths, ServiceStatus,
};

fn texts(items: &[&str]) -> Vec<String> {
    items.iter().map(|s| s.to_string()).collect()
}

fn postgres() -> ServiceEntry {
    ServiceEntry {
        name: "postgres".into(),
        brew_package: "postgresql@17".into(),
        port: Some(5432),
        init_cmd: Some("initdb -D {data_dir}".into()),
        start_cmd: "pg_ctl -D {data_dir} -l {log_file} -o '-p {port}' start".into(),
        stop_cmd: "pg_ctl -D {data_dir} stop".into(),
    }
}

fn redis() -> ServiceEntry {
    ServiceEntry {
        name: "redis".into(),
        brew_package: "redis".into(),
        port: None,
        init_cmd: None,
        start_cmd: "redis-server --pidfile {pid_file} --port {port}".into(),
        stop_cmd: "signal:TERM".into(),
    }
}

fn rules(services: Vec<ServiceEntry>) -> KongRules {
    KongRules {
        version: 1,
        project: "p".into(),
        generated: "now".into(),
        runtimes: None,
        python: None,
        node: None,
        rust: None,
        brew: Some(BrewSection {
            packages: vec![PackageEntry {
                name: "redis".into(),
                version: "7".into(),
                hash: None,
                store_path: "brew/redis-7".into(),
                source_url: None,
            }],
        }),
        scripts: vec![],
        services,
    }
}

#[test]
fn files_of_a_service() {
    let files = ServicePaths::new("/e", "redis");
    assert_eq!(files.root, "/e/services/redis");
    assert_eq!(files.data_dir, "/e/services/redis/data");
    assert_eq!(files.pid_file, "/e/services/redis/pid");
    assert_eq!(files.log_file, "/e/services/redis/log");
    assert_eq!(files.port_file, "/e/services/redis/port");
}

#[test]
fn services_by_name() {
    let two = rules(vec![postgres(), redis()]);
    assert_eq!(match_services(&two, None).unwrap(), vec![0, 1]);
    assert_eq!(match_services(&two, Some("redis")).unwrap(), vec![1]);
    assert_eq!(stop(&two, Some("redis")).unwrap(), vec![1]);
    let error = match_services(&two, Some("mysql")).unwrap_err();
    assert_eq!(error.message(), "service 'mysql' not found. Available: postgres, redis");
    let error = stop(&rules(vec![]), None).unwrap_err();
    assert!(matches!(error, ServiceError::NoServices));
    assert_eq!(
        error.message(),
        "No services defined in kong.rules. Does the project have a Brewfile with postgres/redis?"
    );
}

#[test]
fn ports_of_services() {
    let two = rules(vec![postgres(), redis()]);
    assert_eq!(start(&two, None, None).unwrap(), vec![(0, 5432), (1, 0)]);
    assert_eq!(start(&two, Some("redis"), Some(7000)).unwrap(), vec![(1, 7000)]);
    assert!(start(&two, Some("x"), None).is_err());
    assert_eq!(chosen_port(&postgres(), Some(1)), 1);
}

#[test]
fn commands_are_expanded_with_quotes() {
    assert_eq!(shell_quote("/plain/path"), "/plain/path");
    assert_eq!(shell_quote("/with space"), "'/with space'");
    assert_eq!(shell_quote("it's"), "'it'\\''s'");
    assert_eq!(shell_quote("/tmp/a;b"), "'/tmp/a;b'");
    assert_eq!(shell_quote("/tmp/$HOME"), "'/tmp/$HOME'");
    assert_eq!(shell_quote(""), "''");
    assert_eq!(shell_quote("/a-b_c/d.e+f,g@h%i:j=k"), "/a-b_c/d.e+f,g@h%i:j=k");
    let files = ServicePaths::new("/e x", "redis");
    assert_eq!(
        expand_cmd("run {data_dir} {port} {pid_file} {port}", &files, 80),
        "run '/e x/services/redis/data' 80 '/e x/services/redis/pid' 80"
    );
}

#[test]
fn variables_of_a_service() {
    let existing = texts(&["/s/brew/redis-7/bin", "/s/brew/redis-7/lib"]);
    let env = build_service_env(
        &redis(),
        "/s",
        &rules(vec![redis()]),
        &existing,
        Some("/usr/bin"),
        None,
        true,
        false,
    );
    let seen: Vec<(&str, &str)> = env.iter().map(|(k, v)| (k.as_str(), v.as_str())).collect();
    assert_eq!(
        seen,
        vec![
            ("PATH", "/s/brew/redis-7/bin:/usr/bin"),
            ("DYLD_LIBRARY_PATH", "/s/brew/redis-7/lib"),
            ("HOMEBREW_PREFIX", "/s/brew/redis-7"),
        ]
    );
    let bare = build_service_env(&postgres(), "/s", &rules(vec![]), &[], None, None, false, false);
    assert_eq!(bare, vec![("PATH".to_string(), String::new())]);
}

#[test]
fn state_of_a_service() {
    assert_eq!(read_pid(Some(" 42\n")), Some(42));
    assert_eq!(read_pid(Some("4x")), None);
    assert_eq!(read_pid(None), None);
    assert_eq!(read_port(Some("5432\n")), Some(5432));
    assert_eq!(read_port(Some("99999")), None);
    assert_eq!(read_port(None), None);
    assert_eq!(read_pid_status(Some(1), true), ServiceStatus::Running(1));
    assert_eq!(read_pid_status(Some(1), false), ServiceStatus::Dead(1));
    assert_eq!(read_pid_status(None, true), ServiceStatus::Stopped);
}

#[test]
fn running_service_is_not_started_again() {
    let files = ServicePaths::new("/e", "postgres");
    let step = |status: ServiceStatus, empty: bool| {
        format!("{:?}", start_one(&postgres(), &files, 5432, status, empty))
    };
    assert_eq!(step(ServiceStatus::Running(7), true), "AlreadyRunning");
    assert_eq!(
        step(ServiceStatus::Stopped, true),
        r#"Initialize { command: "initdb -D /e/services/postgres/data" }"#
    );
    let launch = r#"Launch { command: "pg_ctl -D /e/services/postgres/data -l /e/services/postgres/log -o '-p 5432' start" }"#;
    assert_eq!(step(ServiceStatus::Dead(7), false), launch);
    assert_eq!(
        format!("{:?}", after_initialize(&postgres(), &files, 5432, true, "")),
        launch
    );
    assert_eq!(
        format!("{:?}", after_initialize(&postgres(), &files, 5432, false, "disk full")),
        r#"Failed { message: "init command failed for postgres: disk full" }"#
    );
}

#[test]
fn start_goes_on_to_its_end() {
    assert_eq!(
        format!("{:?}", after_launch(&redis(), 6379, true, "", "")),
        r#"RecordPort { content: "6379" }"#
    );
    assert_eq!(
        format!("{:?}", after_launch(&redis(), 6379, false, " bad \n", " out ")),
        r#"Failed { message: "failed to start redis: bad\nout" }"#
    );
    assert_eq!(format!("{:?}", after_port(Some("42"))), "Started");
    assert_eq!(format!("{:?}", after_port(Some(" \n"))), "AwaitPid");
    assert_eq!(format!("{:?}", after_port(None)), "AwaitPid");
    assert_eq!(
        format!("{:?}", after_wait(&postgres(), Some("4242\n/data\n"))),
        r#"RecordPid { content: "4242" }"#
    );
    assert_eq!(format!("{:?}", after_wait(&postgres(), None)), "Started");
    assert_eq!(format!("{:?}", after_wait(&redis(), Some("4242\n"))), "Started");
}

#[test]
fn services_are_stopped() {
    let files = ServicePaths::new("/e", "x");
    let step = |svc: &ServiceEntry, state: ServiceStatus| format!("{:?}", stop_one(svc, &files, state));
    assert_eq!(step(&redis(), ServiceStatus::Running(9)), "Signal { pid: 9 }");
    assert_eq!(
        step(&postgres(), ServiceStatus::Running(9)),
        r#"Command { command: "pg_ctl -D /e/services/x/data stop" }"#
    );
    assert_eq!(step(&redis(), ServiceStatus::Dead(9)), "NotRunning");
    assert_eq!(step(&redis(), ServiceStatus::Stopped), "NotRunning");
}

#[test]
fn table_of_services() {
    assert_eq!(status_header(), "SERVICE      STATUS   PORT     PID");
    assert_eq!(
        status("postgres", ServiceStatus::Running(42), Some(5432)),
        "postgres     running  5432     42"
    );
    assert_eq!(status("redis", ServiceStatus::Stopped, None), "redis        stopped  —        —");
    assert_eq!(status("redis", ServiceStatus::Dead(3), None), "redis        dead     —        3");
}

#[test]
fn last_lines_of_a_log() {
    assert_eq!(logs("a\nb\r\nc\n", 2), vec!["b", "c"]);
    assert_eq!(logs("a\nb\n", 5), vec!["a", "b"]);
    assert!(logs("a\nb\n", 0).is_empty());
}
