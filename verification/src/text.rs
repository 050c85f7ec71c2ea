//! Building text a character at a time.
use vstd::prelude::*;

verus! {

/// Whether a number is a Unicode scalar value: a code point that is no
/// surrogate.
pub open spec fn is_scalar_value(code: u32) -> bool {
    code <= 0xD7FF || 0xE000 <= code <= 0x10FFFF
}

/// Appends one character with `String::push`.
///
/// The standard library documents that the character is added at the end.
#[verifier::external_body]
pub(crate) fn push_char(text: &mut String, c: char)
    ensures
        final(text)@ == old(text)@.push(c),
{
    text.push(c);
}

/// Makes a character of a code point with `char::from_u32`.
///
/// The standard library documents that the result is `None` exactly when the
/// number is no Unicode scalar value.
#[verifier::external_body]
pub(crate) fn char_from_u32(code: u32) -> (r: Option<char>)
    ensures
        match r {
            Some(c) => is_scalar_value(code) && c == code as char,
            None => !is_scalar_value(code),
        },
{
    char::from_u32(code)
}

/// The number that a text spells in base sixteen, as the standard library
/// reads it, or `None` where it reads none.
pub uninterp spec fn hex_value(text: Seq<char>) -> Option<u32>;

/// Reads a number in base sixteen with `u32::from_str_radix`.
///
/// The result depends on the text alone; an error of the standard library
/// gives `None`.
#[verifier::external_body]
pub(crate) fn parse_hex(text: &str) -> (r: Option<u32>)
    ensures
        r == hex_value(text@),
{
    match u32::from_str_radix(text, 16) {
        Ok(value) => Some(value),
        Err(_) => None,
    }
}

/// The number that a text spells in base ten, as the standard library reads
/// a 64-bit signed number, or `None` where it reads none.
pub uninterp spec fn decimal_value(text: Seq<char>) -> Option<i64>;

/// Reads a 64-bit signed number in base ten with `str::parse`.
///
/// The result depends on the text alone; an error of the standard library
/// gives `None`.
#[verifier::external_body]
pub(crate) fn parse_i64(text: &str) -> (r: Option<i64>)
    ensures
        r == decimal_value(text@),
{
    match text.parse::<i64>() {
        Ok(value) => Some(value),
        Err(_) => None,
    }
}

/// The text that the standard library writes for a 64-bit signed number.
pub uninterp spec fn decimal_text(n: i64) -> Seq<char>;

/// Writes a 64-bit signed number in base ten with `ToString::to_string`.
///
/// The text depends on the number alone.
#[verifier::external_body]
pub(crate) fn format_i64(n: i64) -> (r: String)
    ensures
        r@ == decimal_text(n),
{
    n.to_string()
}

} // verus!
