use kong::python::wheel::{
    score_py_abi, score_wheel, select_best_file_for, OsFamily, PypiDigests, PypiFileEntry, TargetPlatform, TargetTag,
};

const PLAT: &str = "manylinux2014_x86_64";
const ARCH: &str = "x86_64.whl";

fn entry(filename: &str) -> PypiFileEntry {
    PypiFileEntry {
        filename: filename.to_string(),
        url: format!("https://example/{filename}"),
        digests: PypiDigests { sha256: "0".repeat(64) },
        packagetype: "bdist_wheel".to_string(),
        requires_python: None,
    }
}

fn sdist(filename: &str) -> PypiFileEntry {
    let mut e = entry(filename);
    e.packagetype = "sdist".to_string();
    e
}

fn target(tag: &str) -> TargetTag {
    TargetTag::parse(tag)
}

#[test]
fn rejects_cp313t_wheel_for_cp310_target() {
    let t = target("cp310");
    let bad = "bcrypt-4.3.0-cp313-cp313t-manylinux_2_34_x86_64.whl";
    assert_eq!(
        score_wheel(bad, &t, PLAT, ARCH),
        None,
        "a cp313t wheel must be rejected for a cp310 target"
    );
    assert_eq!(
        score_wheel("bcrypt-4.3.0-cp313-cp313-manylinux2014_x86_64.whl", &t, PLAT, ARCH),
        None
    );
    assert_eq!(
        score_wheel("bcrypt-4.3.0-cp39-cp39-manylinux2014_x86_64.whl", &t, PLAT, ARCH),
        None
    );
}

#[test]
fn accepts_exact_cp310_wheel() {
    let t = target("cp310");
    let good = "bcrypt-4.3.0-cp310-cp310-manylinux2014_x86_64.whl";
    let s = score_wheel(good, &t, PLAT, ARCH).expect("cp310 wheel must match cp310");
    assert_eq!(s, 100, "exact version + native ABI is the most specific");
}

#[test]
fn picks_cp310_over_other_wheels_in_a_multi_wheel_release() {
    let files = vec![
        entry("bcrypt-4.3.0-cp39-cp39-manylinux2014_x86_64.whl"),
        entry("bcrypt-4.3.0-cp313-cp313t-manylinux_2_34_x86_64.whl"),
        entry("bcrypt-4.3.0-cp310-cp310-manylinux2014_x86_64.whl"),
        entry("bcrypt-4.3.0-cp312-cp312-manylinux2014_x86_64.whl"),
        sdist("bcrypt-4.3.0.tar.gz"),
    ];
    let chosen = select_best_file_for(&files, "cp310", PLAT, ARCH).expect("a compatible wheel exists");
    assert_eq!(chosen.filename, "bcrypt-4.3.0-cp310-cp310-manylinux2014_x86_64.whl");
}

#[test]
fn accepts_abi3_built_for_older_minor() {
    let t = target("cp310");
    let s = score_wheel(
        "cryptography-42.0.0-cp37-abi3-manylinux2014_x86_64.whl",
        &t, PLAT, ARCH,
    );
    assert!(s.is_some(), "cp37-abi3 must be usable on cp310");
}

#[test]
fn rejects_abi3_built_for_newer_minor() {
    let t = target("cp310");
    assert_eq!(
        score_wheel("foo-1.0-cp311-abi3-manylinux2014_x86_64.whl", &t, PLAT, ARCH),
        None
    );
}

#[test]
fn prefers_exact_cp_over_abi3() {
    let files = vec![
        entry("foo-1.0-cp37-abi3-manylinux2014_x86_64.whl"),
        entry("foo-1.0-cp310-cp310-manylinux2014_x86_64.whl"),
    ];
    let chosen = select_best_file_for(&files, "cp310", PLAT, ARCH).unwrap();
    assert_eq!(chosen.filename, "foo-1.0-cp310-cp310-manylinux2014_x86_64.whl");
}

#[test]
fn accepts_pure_python_wheel() {
    let t = target("cp310");
    let s = score_wheel("requests-2.31.0-py3-none-any.whl", &t, PLAT, ARCH);
    assert!(s.is_some(), "py3-none-any is always compatible");
    let files = vec![
        entry("requests-2.31.0-py3-none-any.whl"),
        entry("requests-2.31.0-cp310-cp310-manylinux2014_x86_64.whl"),
    ];
    let chosen = select_best_file_for(&files, "cp310", PLAT, ARCH).unwrap();
    assert_eq!(chosen.filename, "requests-2.31.0-cp310-cp310-manylinux2014_x86_64.whl");
}

#[test]
fn pure_python_chosen_when_no_native_match() {
    let files = vec![
        entry("foo-1.0-cp39-cp39-manylinux2014_x86_64.whl"),
        entry("foo-1.0-py3-none-any.whl"),
    ];
    let chosen = select_best_file_for(&files, "cp310", PLAT, ARCH).unwrap();
    assert_eq!(chosen.filename, "foo-1.0-py3-none-any.whl");
}

#[test]
fn rejects_wrong_platform() {
    let t = target("cp310");
    assert_eq!(
        score_wheel("foo-1.0-cp310-cp310-win_amd64.whl", &t, PLAT, ARCH),
        None
    );
}

#[test]
fn handles_compressed_tag_set() {
    let t = target("cp310");
    let s = score_wheel(
        "foo-1.0-cp38.cp39.cp310-abi3-manylinux2014_x86_64.whl",
        &t, PLAT, ARCH,
    );
    assert!(s.is_some(), "compressed set containing cp310 must match");
}

#[test]
fn falls_back_to_sdist_when_no_compatible_wheel() {
    let files = vec![
        entry("foo-1.0-cp313-cp313t-manylinux2014_x86_64.whl"),
        sdist("foo-1.0.tar.gz"),
    ];
    let chosen = select_best_file_for(&files, "cp310", PLAT, ARCH).expect("sdist fallback");
    assert_eq!(chosen.filename, "foo-1.0.tar.gz");
}

#[test]
fn rejects_darwin_wheel_on_linux_target() {
    let t = target("cp310");
    assert_eq!(
        score_wheel("psycopg2-2.9.9-cp310-cp310-macosx_11_0_arm64.whl", &t, PLAT, ARCH),
        None,
        "darwin arm64 wheel must be rejected on a linux target"
    );
    assert_eq!(
        score_wheel("psycopg2-2.9.9-cp310-cp310-macosx_10_9_x86_64.whl", &t, PLAT, ARCH),
        None,
        "darwin x86_64 wheel must be rejected on a linux target (the live bug)"
    );
    assert_eq!(
        score_wheel("pglast-6.0-cp310-cp310-macosx_11_0_universal2.whl", &t, PLAT, ARCH),
        None
    );
}

#[test]
fn rejects_windows_wheel_on_linux_target() {
    let t = target("cp310");
    assert_eq!(
        score_wheel("foo-1.0-cp310-cp310-win_amd64.whl", &t, PLAT, ARCH),
        None
    );
    assert_eq!(score_wheel("foo-1.0-cp310-cp310-win32.whl", &t, PLAT, ARCH), None);
}

#[test]
fn rejects_other_linux_arch_on_x86_64_target() {
    let t = target("cp310");
    assert_eq!(
        score_wheel("foo-1.0-cp310-cp310-manylinux2014_aarch64.whl", &t, PLAT, ARCH),
        None
    );
    assert_eq!(
        score_wheel("foo-1.0-cp310-cp310-musllinux_1_2_aarch64.whl", &t, PLAT, ARCH),
        None
    );
    assert_eq!(
        score_wheel("foo-1.0-cp310-cp310-manylinux1_i686.whl", &t, PLAT, ARCH),
        None
    );
}

#[test]
fn accepts_all_linux_x86_64_variants() {
    let t = target("cp310");
    for plat in [
        "manylinux1_x86_64",
        "manylinux2010_x86_64",
        "manylinux2014_x86_64",
        "manylinux_2_17_x86_64",
        "manylinux_2_34_x86_64",
        "musllinux_1_1_x86_64",
        "musllinux_1_2_x86_64",
        "linux_x86_64",
    ] {
        let f = format!("foo-1.0-cp310-cp310-{plat}.whl");
        assert!(
            score_wheel(&f, &t, PLAT, ARCH).is_some(),
            "{plat} must be accepted on a linux x86_64 target"
        );
    }
}

#[test]
fn selects_manylinux_rejecting_darwin_and_win_in_a_release() {
    let files = vec![
        entry("pkg-1.0-cp310-cp310-macosx_11_0_arm64.whl"),
        entry("pkg-1.0-cp310-cp310-macosx_10_9_x86_64.whl"),
        entry("pkg-1.0-cp310-cp310-win_amd64.whl"),
        entry("pkg-1.0-cp310-cp310-manylinux2014_x86_64.whl"),
    ];
    let chosen = select_best_file_for(&files, "cp310", PLAT, ARCH)
        .expect("the manylinux wheel must be selected");
    assert_eq!(chosen.filename, "pkg-1.0-cp310-cp310-manylinux2014_x86_64.whl");
}

const MAC_PLAT: &str = "macosx_11_0_arm64";
const MAC_ARCH: &str = "arm64.whl";

#[test]
fn macos_target_accepts_darwin_rejects_manylinux_and_win() {
    let t = target("cp310");
    assert!(
        score_wheel("pkg-1.0-cp310-cp310-macosx_11_0_arm64.whl", &t, MAC_PLAT, MAC_ARCH).is_some()
    );
    assert!(
        score_wheel("pkg-1.0-cp310-cp310-macosx_11_0_universal2.whl", &t, MAC_PLAT, MAC_ARCH).is_some()
    );
    assert_eq!(
        score_wheel("pkg-1.0-cp310-cp310-manylinux2014_x86_64.whl", &t, MAC_PLAT, MAC_ARCH),
        None
    );
    assert_eq!(
        score_wheel("pkg-1.0-cp310-cp310-win_amd64.whl", &t, MAC_PLAT, MAC_ARCH),
        None
    );
    assert!(
        score_wheel("pkg-1.0-py3-none-any.whl", &t, MAC_PLAT, MAC_ARCH).is_some()
    );
    assert_eq!(
        score_wheel("pkg-1.0-cp310-cp310-macosx_10_9_x86_64.whl", &t, MAC_PLAT, MAC_ARCH),
        None
    );
}

#[test]
fn macos_target_picks_darwin_over_linux_in_a_release() {
    let files = vec![
        entry("pkg-1.0-cp310-cp310-manylinux2014_x86_64.whl"),
        entry("pkg-1.0-cp310-cp310-win_amd64.whl"),
        entry("pkg-1.0-cp310-cp310-macosx_11_0_arm64.whl"),
    ];
    let chosen = select_best_file_for(&files, "cp310", MAC_PLAT, MAC_ARCH)
        .expect("darwin arm64 wheel must be selected on a mac target");
    assert_eq!(chosen.filename, "pkg-1.0-cp310-cp310-macosx_11_0_arm64.whl");
}

#[test]
fn windows_target_accepts_win_rejects_others() {
    let t = target("cp310");
    const WIN_PLAT: &str = "win_amd64";
    const WIN_ARCH: &str = "amd64.whl";
    assert!(
        score_wheel("pkg-1.0-cp310-cp310-win_amd64.whl", &t, WIN_PLAT, WIN_ARCH).is_some()
    );
    assert_eq!(
        score_wheel("pkg-1.0-cp310-cp310-manylinux2014_x86_64.whl", &t, WIN_PLAT, WIN_ARCH),
        None
    );
    assert_eq!(
        score_wheel("pkg-1.0-cp310-cp310-macosx_11_0_arm64.whl", &t, WIN_PLAT, WIN_ARCH),
        None
    );
    assert!(score_wheel("pkg-1.0-py3-none-any.whl", &t, WIN_PLAT, WIN_ARCH).is_some());
}

#[test]
fn platform_parser_classifies_families_and_arch() {
    assert_eq!(TargetPlatform::family_of("manylinux2014_x86_64"), OsFamily::Linux);
    assert_eq!(TargetPlatform::family_of("musllinux_1_2_x86_64"), OsFamily::Linux);
    assert_eq!(TargetPlatform::family_of("linux_x86_64"), OsFamily::Linux);
    assert_eq!(TargetPlatform::family_of("macosx_11_0_arm64"), OsFamily::MacOs);
    assert_eq!(TargetPlatform::family_of("win_amd64"), OsFamily::Windows);
    assert_eq!(TargetPlatform::family_of("win32"), OsFamily::Windows);
    assert_eq!(TargetPlatform::family_of("any"), OsFamily::Pure);

    assert_eq!(TargetPlatform::arch_of("manylinux_2_17_x86_64"), "x86_64");
    assert_eq!(TargetPlatform::arch_of("manylinux2014_aarch64"), "aarch64");
    assert_eq!(TargetPlatform::arch_of("macosx_11_0_arm64"), "aarch64");
    assert_eq!(TargetPlatform::arch_of("win_amd64"), "x86_64");
    assert_eq!(TargetPlatform::arch_of("win32"), "x86");
    assert_eq!(TargetPlatform::arch_of("any"), "");
}

#[test]
fn derive_falls_back_to_arch_suffix_when_no_platform_tag() {
    let t = target("cp310");
    let s = score_wheel("pkg-1.0-py3-none-any.whl", &t, "", "x86_64.whl");
    assert!(s.is_some(), "pure-python still installs with no platform tag");
    assert_eq!(
        score_wheel("pkg-1.0-cp310-cp310-manylinux2014_x86_64.whl", &t, "", "x86_64.whl"),
        None,
        "without a known target OS family, native wheels are not provably compatible"
    );
}

#[test]
fn scores_of_wheels() {
    let t = target("cp310");
    let score = |name: &str| score_wheel(name, &t, PLAT, ARCH);
    assert_eq!(score("a-1-cp310-abi3-manylinux2014_x86_64.whl"), Some(95));
    assert_eq!(score("a-1-cp310-none-manylinux2014_x86_64.whl"), Some(90));
    assert_eq!(score("a-1-cp37-abi3-manylinux2014_x86_64.whl"), Some(77));
    assert_eq!(score("a-1-py3-none-any.whl"), Some(50));
    assert_eq!(score("a-1-py2.py3-none-any.whl"), Some(50));
    assert_eq!(score("a-1-py39-none-any.whl"), Some(48));
    assert_eq!(score("a-1-py2-none-any.whl"), None);
    assert_eq!(score("a-1.tar.gz"), None);
    assert_eq!(score("a.whl"), None);
}

#[test]
fn first_name_of_equal_scores_is_taken() {
    let files = vec![
        entry("b-1-py3-none-any.whl"),
        entry("a-1-py3-none-any.whl"),
        sdist("a-1.tar.gz"),
    ];
    let chosen = select_best_file_for(&files, "cp310", PLAT, ARCH).unwrap();
    assert_eq!(chosen.filename, "a-1-py3-none-any.whl");
    assert!(select_best_file_for(&[], "cp310", PLAT, ARCH).is_none());
}

#[test]
fn more_specific_wheels_score_higher() {
    let t = target("cp312");
    let score = |name: &str| score_wheel(name, &t, PLAT, ARCH).unwrap();
    let descending = [
        "a-1-cp312-cp312-manylinux2014_x86_64.whl",
        "a-1-cp312-abi3-manylinux2014_x86_64.whl",
        "a-1-cp311-abi3-manylinux2014_x86_64.whl",
        "a-1-cp37-abi3-manylinux2014_x86_64.whl",
        "a-1-py3-none-any.whl",
    ];
    for pair in descending.windows(2) {
        assert!(score(pair[0]) > score(pair[1]), "{pair:?}");
    }
}

#[test]
fn builds_for_an_interpreter_are_ordered() {
    for runs in 0..=25u32 {
        let tag = |n: u32| format!("cp3{n}");
        let t = target(&tag(runs));
        let score = |py: &str, abi: &str| score_py_abi(py, abi, &t, true);
        let own = score(&tag(runs), &tag(runs)).unwrap();
        let own_stable = score(&tag(runs), "abi3").unwrap();
        let plain = score("py3", "none").unwrap();
        assert!(own > own_stable && own_stable > plain);
        for n in 0..40u32 {
            let stable = score(&tag(n), "abi3");
            assert_eq!(stable.is_some(), n <= runs, "{n} {runs}");
            if n < runs {
                assert!(own_stable > stable.unwrap() && stable.unwrap() > plain, "{n} {runs}");
            }
            if n > 0 && n < runs {
                assert!(score(&tag(n - 1), "abi3") < stable, "{n} {runs}");
            }
            assert_eq!(score(&tag(n), &tag(n)).is_some(), n == runs, "{n} {runs}");
        }
    }
}
