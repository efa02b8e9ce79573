//! What holds of digests and of the names of files that are downloaded.
use vstd::prelude::*;

use crate::download;
use crate::paths;
use crate::text_laws;

verus! {

/// The value of a hexadecimal digit.
pub open spec fn digit_value(c: char) -> int {
    if '0' <= c <= '9' {
        c as u32 - '0' as u32
    } else {
        c as u32 - 'a' as u32 + 10
    }
}

/// A digest is written with two lower-case hexadecimal digits for each byte, the high
/// one first, so that the bytes can be read back.
pub proof fn digits_give_bytes_back(bytes: Seq<u8>, i: int)
    requires
        0 <= i < bytes.len(),
    ensures
        ({
            let s = download::hex_text(bytes);
            &&& s.len() == 2 * bytes.len()
            &&& '0' <= s[2 * i] <= '9' || 'a' <= s[2 * i] <= 'f'
            &&& '0' <= s[2 * i + 1] <= '9' || 'a' <= s[2 * i + 1] <= 'f'
            &&& digit_value(s[2 * i]) * 16 + digit_value(s[2 * i + 1]) == bytes[i]
        }),
{
    let s = download::hex_text(bytes);
    let b = bytes[i] as int;
    assert((2 * i) / 2 == i && (2 * i) % 2 == 0);
    assert((2 * i + 1) / 2 == i && (2 * i + 1) % 2 == 1);
    assert(s[2 * i] == download::hex_digit(b / 16));
    assert(s[2 * i + 1] == download::hex_digit(b % 16));
    assert(0 <= b / 16 < 16 && 0 <= b % 16 < 16 && b == 16 * (b / 16) + b % 16);
}

/// A file is named as the last part of its address.
pub proof fn file_is_named_by_address(address: Seq<char>, name: Seq<char>)
    requires
        !name.contains('/'),
    ensures
        paths::last_part(address + seq!['/'] + name) == name,
        paths::last_part(name) == name,
{
    let s = address + seq!['/'] + name;
    text_laws::rfind_is_last(s, '/');
    text_laws::rfind_is_last(name, '/');
    assert(s[address.len() as int] == '/');
    match crate::text::rfind(s, '/') {
        Some(k) => {
            if k > address.len() {
                assert(s[k] == name[k - address.len() - 1]);
                assert(name.contains('/'));
            }
            assert(k == address.len());
            assert(s.skip(k + 1) =~= name);
        },
        None => {
            assert(s.contains('/'));
        },
    }
}

} // verus!
