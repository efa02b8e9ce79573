//! Downloads and their checksums.
use vstd::prelude::*;

use crate::chars;
use crate::paths;

verus! {

/// A file that was downloaded.
#[derive(Debug)]
pub struct DownloadResult {
    pub path: String,
    /// The SHA-256 digest of its content, in hexadecimal.
    pub hash: String,
    pub url: String,
}

/// Where a package came from.
#[derive(Debug)]
pub struct FileInfo {
    /// The SHA-256 digest of the file, in hexadecimal.
    pub hash: String,
    pub url: String,
}

/// The hexadecimal digit for a number below sixteen.
pub open spec fn hex_digit(n: int) -> char {
    if n < 10 {
        ('0' as u32 + n) as char
    } else {
        ('a' as u32 + (n - 10)) as char
    }
}

/// Bytes in hexadecimal: two small digits for each byte.
pub open spec fn hex_text(bytes: Seq<u8>) -> Seq<char> {
    Seq::new(
        2 * bytes.len(),
        |i: int|
            if i % 2 == 0 {
                hex_digit(bytes[i / 2] as int / 16)
            } else {
                hex_digit(bytes[i / 2] as int % 16)
            },
    )
}

/// The SHA-256 digest of some bytes.
pub uninterp spec fn sha256(bytes: Seq<u8>) -> Seq<u8>;

/// `sha2::Sha256::digest`: the digest depends on the bytes alone, and has 32
/// bytes.
#[verifier::external_body]
fn sha256_digest(bytes: &[u8]) -> (r: Vec<u8>)
    ensures
        r@ == sha256(bytes@),
        r@.len() == 32,
{
    <sha2::Sha256 as sha2::Digest>::digest(bytes).to_vec()
}

/// `hex::encode`: two small hexadecimal digits for each byte, the higher half
/// first. The text must fit in memory.
#[verifier::external_body]
fn hex_encode(bytes: &[u8]) -> (r: String)
    requires
        bytes@.len() <= 0x3fff_ffff,
    ensures
        r@ == hex_text(bytes@),
{
    hex::encode(bytes)
}

/// The SHA-256 digest of some bytes, in hexadecimal.
pub open spec fn digest_text(bytes: Seq<u8>) -> Seq<char> {
    hex_text(sha256(bytes))
}

/// A hexadecimal digit in small letters.
pub open spec fn is_hex_digit(c: char) -> bool {
    '0' <= c <= '9' || 'a' <= c <= 'f'
}

/// The SHA-256 digest of some bytes, in hexadecimal: 64 digits.
pub fn sha256_hex(bytes: &[u8]) -> (r: String)
    ensures
        r@ == digest_text(bytes@),
        r@.len() == 64,
        forall|i: int| 0 <= i < r@.len() ==> is_hex_digit(#[trigger] r@[i]),
{
    let digest = sha256_digest(bytes);
    let r = hex_encode(&digest);
    proof {
        assert forall|i: int| 0 <= i < r@.len() implies is_hex_digit(#[trigger] r@[i]) by {
            let b = digest@[i / 2];
            assert(b as int / 16 < 16 && b as int % 16 < 16);
        }
    }
    r
}

/// A file whose digest is not the expected one.
#[derive(Debug)]
pub struct HashMismatch {
    pub expected: String,
    pub got: String,
}

/// Checks what was downloaded against the digest that is expected of it, and
/// returns its digest.
pub fn verify_hash(bytes: &[u8], expected: Option<&str>) -> (r: Result<String, HashMismatch>)
    ensures
        match r {
            Ok(hash) => hash@ == digest_text(bytes@) && (expected matches Some(e) ==> e@
                == digest_text(bytes@)),
            Err(m) => expected matches Some(e) && e@ != digest_text(bytes@) && m.expected@ == e@
                && m.got@ == digest_text(bytes@),
        },
{
    let hash = sha256_hex(bytes);
    if let Some(e) = expected {
        if !chars::str_same(hash.as_str(), e) {
            return Err(HashMismatch { expected: String::from_str(e), got: hash });
        }
    }
    Ok(hash)
}

/// The name under which a download is saved: what stands behind the last slash of
/// its address.
pub fn file_name(url: &str) -> (r: String)
    ensures
        r@ == paths::last_part(url@),
{
    let whole = chars::of(url);
    chars::to_string(paths::last_of(&whole))
}

/// What is recorded of a download that has been checked and saved under
/// `dest_dir`.
pub fn download_and_verify(
    url: &str,
    dest_dir: &str,
    bytes: &[u8],
    expected_hash: Option<&str>,
) -> (r: Result<DownloadResult, HashMismatch>)
    ensures
        match r {
            Ok(d) => {
                &&& expected_hash matches Some(e) ==> e@ == digest_text(bytes@)
                &&& d.path@ == paths::joined(dest_dir@, paths::last_part(url@))
                &&& d.hash@ == digest_text(bytes@)
                &&& d.url@ == url@
            },
            Err(m) => expected_hash matches Some(e) && e@ != digest_text(bytes@) && m.expected@
                == e@ && m.got@ == digest_text(bytes@),
        },
{
    match verify_hash(bytes, expected_hash) {
        Ok(hash) => Ok(
            DownloadResult {
                path: paths::join(dest_dir, file_name(url).as_str()),
                hash,
                url: String::from_str(url),
            },
        ),
        Err(m) => Err(m),
    }
}

} // verus!
