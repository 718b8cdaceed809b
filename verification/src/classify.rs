//! Character classification predicates used by the parser and the renderer.

use vstd::prelude::*;

verus! {

/// True for the unreserved URI characters: ASCII alphanumerics and
/// `-` `.` `_` `~`. These are the only characters the renderer copies
/// into the output without percent-encoding them.
pub open spec fn spec_is_unreserved(c: char) -> bool {
    ('a' <= c && c <= 'z') || ('A' <= c && c <= 'Z') || ('0' <= c && c <= '9') || c == '-' || c
        == '.' || c == '_' || c == '~'
}

/// True for an ASCII hexadecimal digit, either case. Used to recognize a
/// previously percent-encoded `%XX` triple inside a substituted value.
pub open spec fn spec_is_hex_digit(c: char) -> bool {
    ('0' <= c && c <= '9') || ('a' <= c && c <= 'f') || ('A' <= c && c <= 'F')
}

/// True for an ASCII decimal digit. The max-length modifier `:N` accepts
/// only these.
pub open spec fn spec_is_ascii_digit(c: char) -> bool {
    '0' <= c && c <= '9'
}

/// Characters that may not appear in a variable name: they are reserved
/// for operator or modifier roles.
pub open spec fn spec_is_reserved_in_name(c: char) -> bool {
    c == '+' || c == '#' || c == '/' || c == ';' || c == '?' || c == '&' || c == ' ' || c == '!'
        || c == '=' || c == '$' || c == '|' || c == '*' || c == ':' || c == '~' || c == '-'
}

pub fn is_unreserved(c: char) -> (r: bool)
    ensures
        r == spec_is_unreserved(c),
{
    ('a' <= c && c <= 'z') || ('A' <= c && c <= 'Z') || ('0' <= c && c <= '9') || c == '-' || c
        == '.' || c == '_' || c == '~'
}

pub fn is_hex_digit(c: char) -> (r: bool)
    ensures
        r == spec_is_hex_digit(c),
{
    ('0' <= c && c <= '9') || ('a' <= c && c <= 'f') || ('A' <= c && c <= 'F')
}

pub fn is_ascii_digit(c: char) -> (r: bool)
    ensures
        r == spec_is_ascii_digit(c),
{
    '0' <= c && c <= '9'
}

/// True when the character is a UTF-16 surrogate code point, which never
/// occurs in a well-formed Rust `char`.
pub fn is_surrogate(cp: char) -> (r: bool)
    ensures
        r == (0xD800 <= cp as u32 && cp as u32 <= 0xDFFF),
        !r,
{
    cp as u32 >= 0xD800 && cp as u32 <= 0xDFFF
}

/// True when the character lies in the basic private-use area, the
/// `iprivate` class of internationalized resource identifiers.
pub fn is_iprivate(cp: char) -> (r: bool)
    ensures
        r == (0xE000 <= cp as u32 && cp as u32 <= 0xF8FF),
{
    cp >= '\u{E000}' && cp <= '\u{F8FF}'
}

/// True when the character belongs to the `ucschar` class of
/// internationalized resource identifiers.
pub fn is_ucschar(cp: char) -> (r: bool)
    ensures
        r == ((0xA0 <= cp as u32 && cp as u32 <= 0xD7FF) || (0xF900 <= cp as u32 && cp as u32
            <= 0xFDCF) || (0xFDF0 <= cp as u32 && cp as u32 <= 0xFFEF)),
{
    (cp >= '\u{A0}' && cp <= '\u{D7FF}') || (cp >= '\u{F900}' && cp <= '\u{FDCF}') || (cp
        >= '\u{FDF0}' && cp <= '\u{FFEF}')
}

} // verus!
