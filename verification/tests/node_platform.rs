use kong::node::platform::{is_compatible, map_arch, map_os, HostTriple};

fn host(os: &str, cpu: &str, libc: Option<&str>) -> HostTriple {
    HostTriple {
        os: os.to_string(),
        cpu: cpu.to_string(),
        libc: libc.map(|s| s.to_string()),
    }
}

fn v(items: &[&str]) -> Vec<String> {
    items.iter().map(|s| s.to_string()).collect()
}

#[test]
fn no_constraints_always_kept() {
    let h = host("linux", "x64", Some("glibc"));
    assert!(is_compatible(&h, &[], &[], &[]));
}

#[test]
fn darwin_os_skipped_on_linux() {
    let h = host("linux", "x64", Some("glibc"));
    assert!(!is_compatible(&h, &v(&["darwin"]), &[], &[]));
}

#[test]
fn arm64_cpu_skipped_on_x64() {
    let h = host("linux", "x64", Some("glibc"));
    assert!(!is_compatible(&h, &v(&["linux"]), &v(&["arm64"]), &[]));
}

#[test]
fn musl_libc_skipped_on_glibc_host() {
    let h = host("linux", "x64", Some("glibc"));
    assert!(!is_compatible(&h, &v(&["linux"]), &v(&["x64"]), &v(&["musl"])));
}

#[test]
fn glibc_libc_kept_on_glibc_host() {
    let h = host("linux", "x64", Some("glibc"));
    assert!(is_compatible(&h, &v(&["linux"]), &v(&["x64"]), &v(&["glibc"])));
}

#[test]
fn platform_negation_kept_on_linux() {
    let h = host("linux", "x64", Some("glibc"));
    assert!(is_compatible(&h, &v(&["!win32"]), &[], &[]));
}

#[test]
fn negation_skipped_when_host_matches_negated() {
    let h = host("win32", "x64", None);
    assert!(!is_compatible(&h, &v(&["!win32"]), &[], &[]));
}

#[test]
fn libc_field_ignored_off_linux() {
    let h = host("darwin", "arm64", None);
    assert!(is_compatible(&h, &v(&["darwin"]), &v(&["arm64"]), &v(&["glibc"])));
}

#[test]
fn win32_x64_keeps_matching_native() {
    let h = host("win32", "x64", None);
    assert!(is_compatible(&h, &v(&["win32"]), &v(&["x64"]), &[]));
    assert!(!is_compatible(&h, &v(&["linux"]), &v(&["x64"]), &[]));
}

#[test]
fn darwin_arm64_keeps_matching_native() {
    let h = host("darwin", "arm64", None);
    assert!(is_compatible(&h, &v(&["darwin"]), &v(&["arm64"]), &[]));
    assert!(!is_compatible(&h, &v(&["darwin"]), &v(&["x64"]), &[]));
}

#[test]
fn rspack_seven_platforms_only_one_kept_on_linux_glibc() {
    let h = host("linux", "x64", Some("glibc"));
    let variants: &[(&[&str], &[&str], &[&str])] = &[
        (&["linux"], &["x64"], &["musl"]),
        (&["linux"], &["arm64"], &["musl"]),
        (&["linux"], &["x64"], &["glibc"]),
        (&["darwin"], &["x64"], &[]),
        (&["win32"], &["x64"], &[]),
        (&["linux"], &["arm64"], &["glibc"]),// linux-arm64-gnu  → skip
        (&["darwin"], &["arm64"], &[]),
    ];
    let kept: Vec<bool> = variants
        .iter()
        .map(|(os, cpu, libc)| is_compatible(&h, &v(os), &v(cpu), &v(libc)))
        .collect();
    assert_eq!(kept, vec![false, false, true, false, false, false, false]);
    assert_eq!(kept.iter().filter(|k| **k).count(), 1);
}

#[test]
fn host_triple_current_is_npm_vocab() {
    for os in ["linux", "macos", "windows"] {
        for arch in ["x86_64", "aarch64", "x86"] {
            let h = HostTriple::current(os, arch, &[]);
            assert!(!h.os.is_empty());
            assert!(h.os != "macos" && h.os != "windows");
            assert!(h.cpu != "x86_64" && h.cpu != "aarch64");
            assert_eq!(h.libc.is_some(), os == "linux");
        }
    }
}

#[test]
fn map_helpers() {
    assert_eq!(map_os("macos"), "darwin");
    assert_eq!(map_os("windows"), "win32");
    assert_eq!(map_os("linux"), "linux");
    assert_eq!(map_arch("x86_64"), "x64");
    assert_eq!(map_arch("aarch64"), "arm64");
    assert_eq!(map_arch("x86"), "ia32");
}
