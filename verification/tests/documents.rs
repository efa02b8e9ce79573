use kong::chars;
use kong::doc::{flag_of, get_in, list_of, parse_json, parse_toml, table_of, text_of, Doc};

fn keys(d: &Doc) -> Vec<&str> {
    d.as_table().unwrap().iter().map(|(k, _)| k.as_str()).collect()
}

#[test]
fn json_documents() {
    let d = parse_json(r#"{"b": [1, "x", null, true, 1.5], "a": {"k": "v"}, "é": false}"#).unwrap();
    assert_eq!(keys(&d), vec!["a", "b", "é"]);
    let items = d.get("b").unwrap().as_list().unwrap();
    assert!(matches!(items[0], Doc::Scalar));
    assert_eq!(items[1].as_str().unwrap(), "x");
    assert!(matches!(items[2], Doc::Null));
    assert!(matches!(items[3], Doc::Bool(true)));
    assert!(matches!(items[4], Doc::Scalar));
    assert_eq!(text_of(get_in(get_in(Some(&d), "a"), "k")).unwrap(), "v");
    assert!(get_in(get_in(Some(&d), "b"), "k").is_none());
    assert!(!flag_of(d.get("é")));
    assert!(flag_of(Some(&items[3])));
    assert!(list_of(d.get("a")).is_none());
    assert!(table_of(d.get("a")).is_some());
    assert!(parse_json("{").is_none());
    assert!(parse_json("").is_none());
    assert!(matches!(parse_json("\"t\""), Some(Doc::Text(_))));
}

#[test]
fn toml_documents() {
    let d = parse_toml("z = 1\n[a]\nt = \"v\"\nf = true\nd = 2020-01-01\nx = 1.5\nl = [1, \"y\"]\n").unwrap();
    assert_eq!(keys(&d), vec!["a", "z"]);
    let a = d.get("a").unwrap();
    assert_eq!(a.get("t").unwrap().as_str().unwrap(), "v");
    assert!(flag_of(a.get("f")));
    assert!(matches!(a.get("d"), Some(Doc::Scalar)));
    assert!(matches!(a.get("x"), Some(Doc::Scalar)));
    assert_eq!(list_of(a.get("l")).unwrap().len(), 2);
    assert!(parse_toml("a = ").is_none());
    assert!(parse_toml("").is_some());
}

#[test]
fn whitespace_is_that_of_unicode() {
    for n in 0..=0x10ffffu32 {
        if let Some(c) = char::from_u32(n) {
            let text = [c];
            let empty = chars::trim(&text).is_empty();
            assert_eq!(empty, c.is_whitespace(), "{n:x}");
        }
    }
}
