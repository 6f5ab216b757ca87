//! What this crate takes on trust from the standard library about characters
//! and strings. Nothing in this file is proved.

use vstd::prelude::*;

verus! {

/// Whether `c` has the Unicode property `White_Space`, as the standard
/// library's tables have it.
pub uninterp spec fn unicode_white_space(c: char) -> bool;

/// Whether `c` is alphabetic or numeric in Unicode, as the standard library's
/// tables have it.
pub uninterp spec fn unicode_alphanumeric(c: char) -> bool;

/// The characters of ASCII: up to U+007F.
pub open spec fn is_ascii(c: char) -> bool {
    c <= '\u{7f}'
}

/// The white space of ASCII: the space, and the five characters from the
/// tab (U+0009) to the carriage return (U+000D).
pub open spec fn ascii_white_space(c: char) -> bool {
    c == ' ' || '\u{9}' <= c <= '\u{d}'
}

/// The letters and digits of ASCII.
pub open spec fn ascii_alphanumeric(c: char) -> bool {
    'a' <= c <= 'z' || 'A' <= c <= 'Z' || '0' <= c <= '9'
}

/// Assumed of `char::is_whitespace`: it returns for every character, and its
/// answer depends on the character alone. Within ASCII it is true of the
/// space and of U+0009 to U+000D and of nothing else; what it is beyond
/// ASCII is not stated.
pub assume_specification[ char::is_whitespace ](c: char) -> (b: bool)
    ensures
        b == unicode_white_space(c),
        is_ascii(c) ==> b == ascii_white_space(c),
;

/// Assumed of `char::is_alphanumeric`: it returns for every character, and
/// its answer depends on the character alone. Within ASCII it is true of the
/// letters and the digits and of nothing else; what it is beyond ASCII is not
/// stated.
pub assume_specification[ char::is_alphanumeric ](c: char) -> (b: bool)
    ensures
        b == unicode_alphanumeric(c),
        is_ascii(c) ==> b == ascii_alphanumeric(c),
;

/// Assumed of `String::push`: it appends the character to the end of the
/// string and leaves the characters before it as they were.
pub assume_specification[ String::push ](s: &mut String, c: char)
    ensures
        final(s)@ == old(s)@.push(c),
;

} // verus!
