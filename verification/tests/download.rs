use kong::download::{download_and_verify, file_name, sha256_hex, verify_hash};

const HELLO: &str = "2cf24dba5fb0a30e26e83b2ac5b9e29e1b161e5c1fa7425e73043362938b9824";

#[test]
fn sha256_hash_is_hex() {
    let hash = sha256_hex(b"hello");
    assert_eq!(hash.len(), 64);
    assert!(hash.chars().all(|c| c.is_ascii_hexdigit()));
    assert_eq!(hash, HELLO);
    assert_eq!(
        sha256_hex(b""),
        "e3b0c44298fc1c149afbf4c8996fb92427ae41e4649b934ca495991b7852b855"
    );
}

#[test]
fn expected_digest_must_match() {
    assert_eq!(verify_hash(b"hello", None).unwrap(), HELLO);
    assert_eq!(verify_hash(b"hello", Some(HELLO)).unwrap(), HELLO);
    let error = verify_hash(b"hello", Some("00")).unwrap_err();
    assert_eq!(error.expected, "00");
    assert_eq!(error.got, HELLO);
}

#[test]
fn download_is_saved_under_its_name() {
    assert_eq!(file_name("https://x/y/z.whl"), "z.whl");
    let d = download_and_verify("https://x/y/z.whl", "/tmp/d", b"hello", Some(HELLO)).unwrap();
    assert_eq!(d.path, "/tmp/d/z.whl");
    assert_eq!(d.hash, HELLO);
    assert_eq!(d.url, "https://x/y/z.whl");
    assert!(download_and_verify("https://x/y/z.whl", "/tmp/d", b"hullo", Some(HELLO)).is_err());
}
