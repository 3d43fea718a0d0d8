//! The character classes that key casing and trimming depend on.
//!
//! Within ASCII each class is a short list. Beyond ASCII the classes are
//! tables of the Unicode standard; those are named here and decided by the
//! standard library.
use vstd::prelude::*;

verus! {

/// Whether `c`, a character beyond ASCII, has the Unicode property
/// `Uppercase`.
pub uninterp spec fn unicode_uppercase(c: char) -> bool;

/// Whether `c`, a character beyond ASCII, has the Unicode property
/// `Lowercase`.
pub uninterp spec fn unicode_lowercase(c: char) -> bool;

/// Whether `c`, a character beyond ASCII, has the Unicode property
/// `White_Space`.
pub uninterp spec fn unicode_whitespace(c: char) -> bool;

/// `c` is an ASCII character.
pub open spec fn ascii(c: char) -> bool {
    c <= '\u{7f}'
}

/// `c` is a capital: within ASCII a letter from `A` to `Z`, beyond it a
/// character with the property `Uppercase`.
pub open spec fn uppercase(c: char) -> bool {
    if ascii(c) {
        'A' <= c <= 'Z'
    } else {
        unicode_uppercase(c)
    }
}

/// `c` is a lower-case letter: within ASCII a letter from `a` to `z`, beyond
/// it a character with the property `Lowercase`.
pub open spec fn lowercase(c: char) -> bool {
    if ascii(c) {
        'a' <= c <= 'z'
    } else {
        unicode_lowercase(c)
    }
}

/// `c` is white space: within ASCII the space and the five controls from
/// the tab to the carriage return, beyond it a character with the property
/// `White_Space`.
pub open spec fn whitespace(c: char) -> bool {
    if ascii(c) {
        c == ' ' || '\t' <= c <= '\r'
    } else {
        unicode_whitespace(c)
    }
}

/// Decides whether a character is a capital.
///
/// Wraps `char::is_uppercase`, which the standard library documents as the
/// test for the property `Uppercase` of the Unicode character database. The
/// contract says what that database holds within ASCII, the letters `A` to
/// `Z`, and names the answer beyond it.
#[verifier::external_body]
pub(crate) fn is_uppercase(c: char) -> (r: bool)
    ensures
        r == (if ascii(c) {
            'A' <= c <= 'Z'
        } else {
            unicode_uppercase(c)
        }),
{
    c.is_uppercase()
}

/// Decides whether a character is a lower-case letter.
///
/// Wraps `char::is_lowercase`, which the standard library documents as the
/// test for the property `Lowercase` of the Unicode character database. The
/// contract says what that database holds within ASCII, the letters `a` to
/// `z`, and names the answer beyond it.
#[verifier::external_body]
pub(crate) fn is_lowercase(c: char) -> (r: bool)
    ensures
        r == (if ascii(c) {
            'a' <= c <= 'z'
        } else {
            unicode_lowercase(c)
        }),
{
    c.is_lowercase()
}

/// Decides whether a character is white space.
///
/// Wraps `char::is_whitespace`, which the standard library documents as the
/// test for the property `White_Space` of the Unicode character database.
/// The contract says what that database holds within ASCII, the space and
/// the controls U+0009 to U+000D, and names the answer beyond it.
#[verifier::external_body]
pub(crate) fn is_whitespace(c: char) -> (r: bool)
    ensures
        r == (if ascii(c) {
            c == ' ' || '\t' <= c <= '\r'
        } else {
            unicode_whitespace(c)
        }),
{
    c.is_whitespace()
}

} // verus!
