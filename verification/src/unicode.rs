//! What comes from the Unicode tables of std: properties of characters, small letters,
//! and how characters are shown.
use vstd::prelude::*;

use crate::text;

verus! {

/// The characters beyond ASCII with the Unicode properties of letters and numbers.
pub uninterp spec fn wide_is_alphanumeric(c: char) -> bool;

/// The characters with the Unicode properties of letters and numbers.
pub open spec fn is_alphanumeric(c: char) -> bool {
    if c as u32 <= 127 {
        text::is_ascii_alnum(c)
    } else {
        wide_is_alphanumeric(c)
    }
}

/// `char::is_alphanumeric`: a property of the character alone, and for an ASCII
/// character whether it is a letter or a digit.
#[verifier::external_body]
pub(crate) fn char_is_alphanumeric(c: char) -> (r: bool)
    ensures
        c as u32 > 127 ==> r == wide_is_alphanumeric(c),
        c as u32 <= 127 ==> r == text::is_ascii_alnum(c),
{
    c.is_alphanumeric()
}

/// The small letters that a character beyond ASCII is mapped to.
pub uninterp spec fn wide_lower(c: char) -> Seq<char>;

/// The small letters that a character is mapped to.
pub open spec fn lower(c: char) -> Seq<char> {
    if c as u32 <= 127 {
        seq![text::lower_char(c)]
    } else {
        wide_lower(c)
    }
}

/// `char::to_lowercase`: the mapping depends on the character alone, and takes
/// an ASCII character to its one small letter.
#[verifier::external_body]
pub(crate) fn char_to_lowercase(c: char) -> (r: Vec<char>)
    ensures
        c as u32 > 127 ==> r@ == wide_lower(c),
        c as u32 <= 127 ==> r@ == seq![text::lower_char(c)],
{
    c.to_lowercase().collect()
}

/// A text with characters beyond ASCII in small letters.
pub uninterp spec fn wide_lowercase(s: Seq<char>) -> Seq<char>;

/// A text in small letters.
pub open spec fn lowercase(s: Seq<char>) -> Seq<char> {
    if text::is_ascii(s) {
        text::ascii_lower(s)
    } else {
        wide_lowercase(s)
    }
}

/// `str::to_lowercase`: the result depends on the text alone, and an ASCII text
/// has its capitals made small.
#[verifier::external_body]
pub(crate) fn str_to_lowercase(s: &str) -> (r: String)
    ensures
        !text::is_ascii(s@) ==> r@ == wide_lowercase(s@),
        text::is_ascii(s@) ==> r@ == text::ascii_lower(s@),
{
    s.to_lowercase()
}

/// A character beyond ASCII as it is written in a text in quotes.
pub uninterp spec fn wide_escape(c: char) -> Seq<char>;

/// `char::escape_debug`: how a character beyond ASCII is written where a text is shown
/// in quotes, as itself or by its number, depends on the character alone.
#[verifier::external_body]
pub(crate) fn char_escape(c: char) -> (r: String)
    requires
        c as u32 > 127,
    ensures
        r@ == wide_escape(c),
{
    c.escape_debug().to_string()
}

} // verus!
