//! Character classes, as `char`'s own methods define them.
use vstd::prelude::*;

verus! {

/// The characters with the Unicode `White_Space` property (PropList.txt):
/// tab through carriage return, space, U+0085, U+00A0, U+1680, U+2000 through
/// U+200A, U+2028, U+2029, U+202F, U+205F and U+3000.
pub open spec fn spec_is_whitespace(c: char) -> bool {
    ||| c == ' '
    ||| ('\t' <= c && c <= '\r')
    ||| c == '\u{85}'
    ||| c == '\u{A0}'
    ||| c == '\u{1680}'
    ||| ('\u{2000}' <= c && c <= '\u{200A}')
    ||| c == '\u{2028}'
    ||| c == '\u{2029}'
    ||| c == '\u{202F}'
    ||| c == '\u{205F}'
    ||| c == '\u{3000}'
}

/// Whether `c` has the Unicode `Alphabetic` property, as `char::is_alphabetic` tells.
pub uninterp spec fn char_alphabetic(c: char) -> bool;

/// Whether `c` is in one of the Unicode number categories, as `char::is_numeric` tells.
pub uninterp spec fn char_numeric(c: char) -> bool;

/// A character that may stand in a word: a letter, a number or `_`.
pub open spec fn is_word_char(c: char) -> bool {
    char_alphabetic(c) || char_numeric(c) || c == '_'
}

/// Whether `c` has the `White_Space` property, as `char::is_whitespace` tells.
pub(crate) fn is_whitespace(c: char) -> (r: bool)
    ensures
        r == spec_is_whitespace(c),
{
    c == ' ' || ('\t' <= c && c <= '\r') || c == '\u{85}' || c == '\u{A0}' || c == '\u{1680}'
        || ('\u{2000}' <= c && c <= '\u{200A}') || c == '\u{2028}' || c == '\u{2029}' || c
        == '\u{202F}' || c == '\u{205F}' || c == '\u{3000}'
}

/// `char::is_alphabetic`: whether `c` has the `Alphabetic` property (named, not spelled out).
#[verifier::external_body]
pub(crate) fn is_alphabetic(c: char) -> (r: bool)
    ensures
        r == char_alphabetic(c),
{
    c.is_alphabetic()
}

/// `char::is_numeric`: whether `c` is in a Unicode number category (named, not spelled out).
#[verifier::external_body]
pub(crate) fn is_numeric(c: char) -> (r: bool)
    ensures
        r == char_numeric(c),
{
    c.is_numeric()
}

/// `char::is_alphanumeric`, which its documentation defines as `is_alphabetic() || is_numeric()`.
#[verifier::external_body]
pub(crate) fn is_alphanumeric(c: char) -> (r: bool)
    ensures
        r == (char_alphabetic(c) || char_numeric(c)),
{
    c.is_alphanumeric()
}

} // verus!
