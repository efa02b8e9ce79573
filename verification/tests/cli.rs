use kong::cli::{clone_destination, project_name, scripts_to_run};
use kong::paths::from_native;

#[test]
fn destination_of_a_clone() {
    assert_eq!(clone_destination("https://github.com/a/repo.git", None), "repo");
    assert_eq!(clone_destination("https://github.com/a/repo/", None), "repo");
    assert_eq!(clone_destination("https://github.com/a/repo", Some("here")), "here");
}

#[test]
fn name_of_a_project() {
    assert_eq!(project_name("/home/a/app", "unknown", false), "app");
    assert_eq!(project_name("/home/a/app/", "unknown", false), "app");
    assert_eq!(project_name("/home/a/app/.", "unknown", false), "app");
    assert_eq!(project_name("..", "unknown", false), "unknown");
    assert_eq!(project_name(".", "unknown", false), "unknown");
    assert_eq!(project_name("/", "unknown", false), "unknown");
    assert_eq!(project_name("C:\\w\\proj", "unknown", false), "C:\\w\\proj");
    for dir in [
        "C:\\w\\proj",
        "C:/w/proj/",
        "\\\\?\\C:\\w\\proj",
        "\\\\server\\share\\proj",
        "\\\\?\\UNC\\server\\share\\proj",
        "w\\proj\\",
    ] {
        assert_eq!(project_name(dir, "unknown", true), "proj", "{dir}");
    }
    for dir in ["C:\\", "\\\\server\\share", "//server/share/", "C:\\w\\.."] {
        assert_eq!(project_name(dir, "unknown", true), "unknown", "{dir}");
    }
}

#[test]
fn machine_paths_are_written_with_slashes() {
    assert_eq!(from_native("/a\\b", false), "/a\\b");
    assert_eq!(from_native("C:\\a\\b", true), "C:/a/b");
    assert_eq!(from_native("\\\\?\\C:\\a", true), "C:/a");
    assert_eq!(from_native("\\\\?\\UNC\\s\\t\\a", true), "//s/t/a");
    assert_eq!(from_native("a/b\\c", true), "a/b/c");
}

#[test]
fn scripts_behind_a_setup() {
    let scripts = vec![("a".to_string(), "x".to_string()), ("b".to_string(), "y".to_string())];
    assert_eq!(scripts_to_run(&vec![], &scripts), vec!["a", "b"]);
    assert_eq!(scripts_to_run(&vec!["b".to_string()], &scripts), vec!["b"]);
}
