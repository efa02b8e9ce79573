use kong::brew::parser::{parse_line, BrewDepKind};

#[test]
fn parse_formula() {
    let dep = parse_line(r#"brew "postgresql@17""#).unwrap();
    assert_eq!(dep.name, "postgresql@17");
    assert_eq!(dep.kind, BrewDepKind::Formula);
}

#[test]
fn parse_cask() {
    let dep = parse_line(r#"cask "docker""#).unwrap();
    assert_eq!(dep.name, "docker");
    assert_eq!(dep.kind, BrewDepKind::Cask);
}

#[test]
fn parse_tap() {
    let dep = parse_line(r#"tap "homebrew/cask-fonts""#).unwrap();
    assert_eq!(dep.name, "homebrew/cask-fonts");
    assert_eq!(dep.kind, BrewDepKind::Tap);
}

#[test]
fn parse_with_options() {
    let dep = parse_line(r#"brew "redis", restart_service: true"#).unwrap();
    assert_eq!(dep.name, "redis");
}

#[test]
fn skip_comment() {
    assert!(parse_line("# this is a comment").is_none());
}

#[test]
fn skip_empty() {
    assert!(parse_line("").is_none());
}
