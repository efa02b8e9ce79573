use kong::python::pep440::{select_best, SpecifierSet, Version};

fn v(s: &str) -> Version {
    Version::parse(s).unwrap_or_else(|| panic!("parse failed: {s}"))
}

#[test]
fn parses_basic_release() {
    let a = v("1.2.3");
    assert_eq!(a.release, vec![1, 2, 3]);
    assert!(!a.is_prerelease());
}

#[test]
fn ordering_release() {
    assert!(v("1.2.0") < v("1.10.0"));
    assert!(v("2.0.0") > v("1.99.99"));
    assert!(v("1.2") < v("1.2.1"));
    assert_eq!(v("1.2"), v("1.2.0"));
}

#[test]
fn ordering_prerelease() {
    assert!(v("1.0a1") < v("1.0b1"));
    assert!(v("1.0b1") < v("1.0rc1"));
    assert!(v("1.0rc1") < v("1.0"));
    assert!(v("1.0.dev1") < v("1.0a1"));
    assert!(v("1.0") < v("1.0.post1"));
}

#[test]
fn prerelease_aliases() {
    assert_eq!(v("1.0alpha1"), v("1.0a1"));
    assert_eq!(v("1.0beta2"), v("1.0b2"));
    assert_eq!(v("1.0c1"), v("1.0rc1"));
    assert_eq!(v("1.0preview3"), v("1.0rc3"));
}

#[test]
fn epoch_and_local() {
    assert!(v("1!1.0") > v("9.9.9"));
    assert!(Version::parse("1.0+ubuntu1").is_some());
}

#[test]
fn specifier_ge_lt_range() {
    let spec = SpecifierSet::parse(">=2.10,<3");
    let avail = vec!["2.10.4".into(), "2.11.0".into(), "3.0.0".into()];
    assert_eq!(select_best(&avail, &spec), Some("2.11.0"));
}

#[test]
fn specifier_exact_pin() {
    let spec = SpecifierSet::parse("==2.10.4");
    let avail = vec!["2.10.4".into(), "2.11.0".into(), "3.0.0".into()];
    assert_eq!(select_best(&avail, &spec), Some("2.10.4"));
    assert_eq!(spec.exact_pin().as_deref(), Some("2.10.4"));
}

#[test]
fn specifier_not_equal() {
    let spec = SpecifierSet::parse("!=2.11.0,>=2.10");
    let avail = vec!["2.10.4".into(), "2.11.0".into(), "2.12.0".into()];
    assert_eq!(select_best(&avail, &spec), Some("2.12.0"));
}

#[test]
fn specifier_bare_picks_latest_stable() {
    let spec = SpecifierSet::parse("");
    assert!(spec.is_empty());
    let avail = vec!["1.0.0".into(), "2.0.0".into(), "1.5.0".into()];
    assert_eq!(select_best(&avail, &spec), Some("2.0.0"));
}

#[test]
fn compatible_release_operator() {
    let spec = SpecifierSet::parse("~=2.2");
    let avail = vec!["2.1.0".into(), "2.5.0".into(), "3.0.0".into()];
    assert_eq!(select_best(&avail, &spec), Some("2.5.0"));

    let spec = SpecifierSet::parse("~=1.4.2");
    let avail = vec!["1.4.1".into(), "1.4.9".into(), "1.5.0".into()];
    assert_eq!(select_best(&avail, &spec), Some("1.4.9"));
}

#[test]
fn equal_star_prefix() {
    let spec = SpecifierSet::parse("==1.4.*");
    let avail = vec!["1.3.0".into(), "1.4.0".into(), "1.4.7".into(), "1.5.0".into()];
    assert_eq!(select_best(&avail, &spec), Some("1.4.7"));
}

#[test]
fn upper_bound_excludes_too_new() {
    let spec = SpecifierSet::parse(">=1.0,<2.0");
    let avail = vec!["1.9.0".into(), "2.0.0".into(), "2.1.0".into()];
    assert_eq!(select_best(&avail, &spec), Some("1.9.0"));
}

#[test]
fn prerelease_excluded_when_a_stable_satisfies() {
    let spec = SpecifierSet::parse(">=1.0");
    let avail = vec!["1.0.0".into(), "2.0.0rc1".into()];
    assert_eq!(select_best(&avail, &spec), Some("1.0.0"));
}

#[test]
fn prerelease_taken_when_only_prereleases_satisfy() {
    let spec = SpecifierSet::parse(">=2.0.0rc1");
    let avail = vec!["1.0.0".into(), "2.0.0rc1".into()];
    assert_eq!(select_best(&avail, &spec), Some("2.0.0rc1"));
}

#[test]
fn final_outranks_its_own_prerelease() {
    let spec = SpecifierSet::parse(">=2.0.0rc1");
    let avail = vec!["2.0.0rc1".into(), "2.0.0".into()];
    assert_eq!(select_best(&avail, &spec), Some("2.0.0"));
}

#[test]
fn nothing_satisfies_returns_none() {
    let spec = SpecifierSet::parse(">=9.0");
    let avail = vec!["1.0.0".into(), "2.0.0".into()];
    assert_eq!(select_best(&avail, &spec), None);
}

#[test]
fn merge_constraints() {
    let mut spec = SpecifierSet::parse(">=2.10");
    let parent = SpecifierSet::parse("<3");
    spec.merge(&parent);
    let avail = vec!["2.10.0".into(), "2.99.0".into(), "3.0.0".into()];
    assert_eq!(select_best(&avail, &spec), Some("2.99.0"));
}

#[test]
fn unparseable_clause_is_skipped_not_crashed() {
    let spec = SpecifierSet::parse(">=1.0,@@garbage");
    let avail = vec!["1.0.0".into(), "2.0.0".into()];
    assert_eq!(select_best(&avail, &spec), Some("2.0.0"));
}

#[test]
fn order_holds_between_all_phases() {
    let ascending = [
        "1.0.dev1",
        "1.0.dev2",
        "1.0a1.dev1",
        "1.0a1",
        "1.0a2",
        "1.0b1",
        "1.0rc1",
        "1.0",
        "1.0.post1.dev1",
        "1.0.post1",
        "1.0.1",
        "1!0.1",
    ];
    for (i, a) in ascending.iter().enumerate() {
        for (j, b) in ascending.iter().enumerate() {
            assert_eq!(v(a) < v(b), i < j, "{a} {b}");
            assert_eq!(v(a) == v(b), i == j, "{a} {b}");
        }
    }
}

#[test]
fn spellings_of_one_version() {
    assert_eq!(v("v1.0"), v(" 1.0.0 "));
    assert_eq!(v("1.0-1"), v("1.0.post1"));
    assert_eq!(v("1.0rev2"), v("1.0.post2"));
    assert_eq!(v("1.0_R3"), v("1.0.post3"));
    assert_eq!(v("1.0-RC.1"), v("1.0rc1"));
    assert_eq!(v("1.0+local.1"), v("1.0"));
    for bad in ["", "x", "1..2", "1.0+", "1.0foo", "!1", "18446744073709551616"] {
        assert!(Version::parse(bad).is_none(), "{bad}");
    }
}

#[test]
fn operators_match_as_they_say() {
    let matches = |spec: &str, version: &str| SpecifierSet::parse(spec).matches(&v(version));
    assert!(matches("", "9.9"));
    for version in ["1.4", "1.4.7", "1.5", "2.0"] {
        assert_eq!(matches("~=1.4", version), matches(">=1.4,==1.*", version));
        assert_eq!(matches("!=1.4.*", version), !matches("==1.4.*", version));
        assert_eq!(matches("!=1.4", version), !matches("==1.4", version));
    }
    assert!(matches("===1.4", "1.4.0"));
    assert!(matches("<=1.4", "1.4.0"));
    assert!(!matches("<1.4", "1.4.0"));
    assert!(matches(">1.4", "1.4.1"));
    assert!(SpecifierSet::parse(">=1.*").is_empty());
}

#[test]
fn last_of_equal_versions_is_taken() {
    let avail: Vec<String> = vec!["1.0".into(), "1.0.0".into(), "0.9".into(), "junk".into()];
    assert_eq!(select_best(&avail, &SpecifierSet::parse("")), Some("1.0.0"));
}

#[test]
fn named_pre_releases_are_considered() {
    let best = |available: &[&str], spec: &str| {
        let available: Vec<String> = available.iter().map(|s| s.to_string()).collect();
        select_best(&available, &SpecifierSet::parse(spec)).map(|s| s.to_string())
    };
    let two = ["2.0.0", "2.1.0rc1"];
    assert_eq!(best(&two, ">=2.0.0rc1").as_deref(), Some("2.1.0rc1"));
    assert_eq!(best(&two, ">=2.0.0").as_deref(), Some("2.0.0"));
    assert_eq!(best(&two, ">=2.0.0,!=2.0.0rc1").as_deref(), Some("2.0.0"));
    assert_eq!(best(&two, "===2.1.0rc1").as_deref(), Some("2.1.0rc1"));
    assert_eq!(best(&["1.0.dev3", "1.0.dev4"], ">=1.0.dev1").as_deref(), Some("1.0.dev4"));
}

#[test]
fn large_numbers_are_ordered() {
    let v = |s: &str| Version::parse(s).unwrap();
    assert!(v("1.0.post1") < v("1.0.post9223372036854775808"));
    assert!(v("1.0rc1.dev9223372036854775807") < v("1.0rc1"));
    assert!(v("1.0.post1.dev18446744073709551615") < v("1.0.post1"));
}

#[test]
fn dev_suffix_lowers_any_version() {
    for text in ["1.0", "1.0a1", "1.0-2", "1.0.post1", "v1.0rc", "1!2.3", "1.0."] {
        for n in [0u64, 7, u64::MAX] {
            let lowered = format!("{text}.dev{n}");
            assert_eq!(v(&lowered).dev, Some(n), "{lowered}");
            assert!(v(&lowered) < v(text), "{lowered}");
        }
    }
}

#[test]
fn operators_compare_as_versions_do() {
    let versions = ["0.9", "1.4", "1.4.0", "1.4rc1", "1.4.post1", "1!0.1"];
    for a in versions {
        for b in versions {
            let holds = |op: &str| SpecifierSet::parse(&format!("{op}{b}")).matches(&v(a));
            assert_eq!(holds("=="), v(a) == v(b), "{a} {b}");
            assert_eq!(holds("!= "), v(a) != v(b), "{a} {b}");
            assert_eq!(holds(">="), v(a) >= v(b), "{a} {b}");
            assert_eq!(holds("<="), v(a) <= v(b), "{a} {b}");
            assert_eq!(holds(">"), v(a) > v(b), "{a} {b}");
            assert_eq!(holds(" < "), v(a) < v(b), "{a} {b}");
        }
    }
}

#[test]
fn longer_compatible_releases() {
    let matches = |spec: &str, version: &str| SpecifierSet::parse(spec).matches(&v(version));
    for version in ["2.2", "2.2.1", "2.2.3", "2.2.9", "2.3", "3.0"] {
        assert_eq!(matches("~=2.2.2", version), matches(">=2.2.2,==2.2.*", version), "{version}");
    }
    assert!(matches("~=2.2.2", "2.2.9"));
    assert!(!matches("~=2.2.2", "2.3"));
    assert!(matches("==1!2.*", "1!2.7"));
    assert!(!matches("==1!2.*", "2.7"));
}
