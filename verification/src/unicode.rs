use vstd::prelude::*;

verus! {

/// What `char::is_alphanumeric` answers for `c`: whether `c` has the Unicode
/// `Alphabetic` property or a numeric general category.
pub uninterp spec fn char_is_alphanumeric(c: char) -> bool;

/// What `char::is_whitespace` answers for `c`: whether `c` has the Unicode
/// `White_Space` property.
pub uninterp spec fn char_is_whitespace(c: char) -> bool;

/// ASCII letters and digits.
pub open spec fn is_ascii_alphanumeric(c: char) -> bool {
    ('a' <= c && c <= 'z') || ('A' <= c && c <= 'Z') || ('0' <= c && c <= '9')
}

/// The ASCII characters with the Unicode `White_Space` property:
/// space and U+0009 to U+000D.
pub open spec fn is_ascii_white_space(c: char) -> bool {
    c == ' ' || ('\u{9}' <= c && c <= '\u{d}')
}

/// Calls `char::is_alphanumeric`.
///
/// Trusted: the answer is the value named by `char_is_alphanumeric`, and on
/// ASCII input it is exactly "letter or digit" (the ASCII members of the
/// Unicode `Alphabetic` property and of the numeric categories, which the
/// documentation names as the definition).
#[verifier::external_body]
pub(crate) fn is_alphanumeric(c: char) -> (r: bool)
    ensures
        r == char_is_alphanumeric(c),
        (c as u32) < 128 ==> (r == is_ascii_alphanumeric(c)),
{
    c.is_alphanumeric()
}

/// Calls `char::is_whitespace`.
///
/// Trusted: the answer is the value named by `char_is_whitespace`, and on
/// ASCII input it is exactly space or U+0009 to U+000D (the ASCII members
/// of the Unicode `White_Space` property, which the documentation names
/// as the definition).
#[verifier::external_body]
pub(crate) fn is_whitespace(c: char) -> (r: bool)
    ensures
        r == char_is_whitespace(c),
        (c as u32) < 128 ==> (r == is_ascii_white_space(c)),
{
    c.is_whitespace()
}

/// Calls `String::push`.
///
/// Trusted: the string afterwards is the string before with `c` appended,
/// as the documentation of `String::push` says.
#[verifier::external_body]
pub(crate) fn push_char(s: &mut String, c: char)
    ensures
        final(s)@ == old(s)@.push(c),
{
    s.push(c)
}

} // verus!
