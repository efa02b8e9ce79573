use kong::extract::{
    archive_kind, extension_of, extract, extract_targz, extract_targz_strip, extract_targz_strip1,
    extract_wheel, hard_link_target, retry_hard_link, strip_components, ArchiveKind, TarKind,
};

#[test]
fn extract_targz_normalises_bad_directory_mode() {
    assert_eq!(
        format!("{:?}", extract_targz("baddir/", TarKind::Dir, "/extracted")),
        r#"MakeDir { path: "/extracted/baddir/" }"#
    );
    assert_eq!(
        format!("{:?}", extract_targz("baddir/file.txt", TarKind::File, "/extracted")),
        r#"Unpack { path: "/extracted/baddir/file.txt" }"#
    );
}

#[test]
fn extract_targz_normal_archive_works() {
    assert_eq!(
        format!("{:?}", extract_targz("pkg/", TarKind::Dir, "/out")),
        r#"MakeDir { path: "/out/pkg/" }"#
    );
    assert_eq!(
        format!("{:?}", extract_targz("pkg/index.js", TarKind::File, "/out")),
        r#"Unpack { path: "/out/pkg/index.js" }"#
    );
}

#[test]
fn kinds_of_archives() {
    assert_eq!(extract("/d/A-1.0-py3-none-any.WHL").unwrap(), ArchiveKind::Zip);
    assert_eq!(extract("x.zip").unwrap(), ArchiveKind::Zip);
    assert_eq!(extract("x.tgz").unwrap(), ArchiveKind::TarGz);
    assert_eq!(extract("/d/x-1.0.Tar.Gz").unwrap(), ArchiveKind::TarGz);
    assert_eq!(extract("serde-1.0.crate").unwrap(), ArchiveKind::TarGz);
    let error = extract("/d/x.rar").unwrap_err();
    assert_eq!(error.message(), "unsupported archive format: /d/x.rar");
    assert_eq!(archive_kind("a.tar.xz"), None);
}

#[test]
fn components_are_stripped() {
    assert_eq!(strip_components("a/b/c", 1).as_deref(), Some("b/c"));
    assert_eq!(strip_components("./a//b/./c/", 1).as_deref(), Some("a/b/c"));
    assert_eq!(strip_components("/a/b", 1).as_deref(), Some("a/b"));
    assert_eq!(strip_components("/a/b", 0).as_deref(), Some("/a/b"));
    assert_eq!(strip_components("/", 0).as_deref(), Some("/"));
    assert_eq!(strip_components("a/b", 2), None);
    assert_eq!(strip_components("", 0), None);
}

#[test]
fn extensions() {
    assert_eq!(extension_of("a/b.tar.gz").as_deref(), Some("gz"));
    assert_eq!(extension_of("a/.hidden"), None);
    assert_eq!(extension_of("a/name"), None);
    assert_eq!(extension_of("a.b/.."), None);
    assert_eq!(extension_of("a.d/"), Some("d".to_string()));
    assert_eq!(extension_of("name."), Some(String::new()));
}

#[test]
fn wheels_in_wheels_are_left_out() {
    assert_eq!(format!("{:?}", extract_wheel("inner-1.0.whl", false, "/d")), "Skip");
    assert_eq!(
        format!("{:?}", extract_wheel("pkg/__init__.py", false, "/d")),
        r#"Unpack { path: "/d/pkg/__init__.py" }"#
    );
    assert_eq!(format!("{:?}", extract_wheel("pkg/", true, "/d")), r#"MakeDir { path: "/d/pkg/" }"#);
}

#[test]
fn first_component_is_stripped() {
    assert_eq!(format!("{:?}", extract_targz_strip1("node-v22/", TarKind::Dir, "/d")), "Skip");
    assert_eq!(
        format!("{:?}", extract_targz_strip1("node-v22/bin", TarKind::Dir, "/d")),
        r#"MakeDir { path: "/d/bin" }"#
    );
    assert_eq!(
        format!("{:?}", extract_targz_strip1("node-v22/bin/npm", TarKind::Symlink, "/d")),
        r#"Unpack { path: "/d/bin/npm" }"#
    );
}

#[test]
fn hard_links_wait_for_their_targets() {
    let path = "pg/17.0/lib/b";
    let link = "pg/17.0/lib/a";
    assert_eq!(hard_link_target(link, 2, "/d"), "/d/lib/a");
    assert_eq!(
        format!("{:?}", extract_targz_strip(path, TarKind::HardLink, Some(link), true, 2, "/d")),
        r#"HardLink { path: "/d/lib/b", target: "/d/lib/a" }"#
    );
    assert_eq!(
        format!("{:?}", extract_targz_strip(path, TarKind::HardLink, Some(link), false, 2, "/d")),
        r#"Defer { path: "/d/lib/b", target: "/d/lib/a" }"#
    );
    assert_eq!(
        format!("{:?}", retry_hard_link("/d/lib/b".to_string(), "/d/lib/a".to_string(), true)),
        r#"HardLink { path: "/d/lib/b", target: "/d/lib/a" }"#
    );
    assert_eq!(
        format!("{:?}", retry_hard_link("/d/lib/b".to_string(), "/d/lib/a".to_string(), false)),
        "Skip"
    );
    assert_eq!(
        format!("{:?}", extract_targz_strip(path, TarKind::HardLink, None, true, 2, "/d")),
        "Skip"
    );
    assert_eq!(
        format!("{:?}", extract_targz_strip("pg/17.0", TarKind::Dir, None, false, 2, "/d")),
        "Skip"
    );
    assert_eq!(
        format!("{:?}", extract_targz_strip("pg/17.0/bin", TarKind::Dir, None, false, 2, "/d")),
        r#"MakeDir { path: "/d/bin" }"#
    );
    assert_eq!(
        format!("{:?}", extract_targz_strip("pg/17.0/bin/x", TarKind::File, None, false, 2, "/d")),
        r#"Unpack { path: "/d/bin/x" }"#
    );
}
