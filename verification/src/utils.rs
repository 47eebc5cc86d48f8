//! Reading strings: which notation a string is of, and the channels that it
//! denotes.
//!
//! A string is of a notation, or it is not: a function that reads one
//! returns the channels, or an `InvalidFormat` that holds the string.

use vstd::prelude::*;
use vstd::string::*;
use crate::error::{is_reading, Grammar, InvalidFormat};
use crate::grammar::{
    doubled,
    expanded_hex,
    is_hex_text,
    is_rgb_text,
    is_rgba_text,
    is_xrgba_text,
    parse_hex,
    parse_rgb,
    parse_rgba,
    parse_xrgba,
    Channels,
};
use crate::scan::{scan_hex, scan_rgb, scan_rgba, scan_xrgba};
use crate::text::to_chars;

verus! {

/// What `classify` returns for hexadecimal notation.
pub const HEX: u8 = 0;

/// What `classify` returns for a call of `rgb`.
pub const RGB: u8 = 1;

/// What `classify` returns for a call of `rgba`.
pub const RGBA: u8 = 2;

/// What `classify` returns for slash-separated notation.
pub const XRGBA: u8 = 3;

/// What `classify` returns for a string of no notation.
pub const UNSUPPORTED: u8 = 9;

/// The number of the first notation that `s` is of, the notations taken in
/// the order hexadecimal, `rgb`, `rgba`, slash-separated.
pub open spec fn classification(s: Seq<char>) -> u8 {
    if is_hex_text(s) {
        HEX
    } else if is_rgb_text(s) {
        RGB
    } else if is_rgba_text(s) {
        RGBA
    } else if is_xrgba_text(s) {
        XRGBA
    } else {
        UNSUPPORTED
    }
}

/// The first three of four channels.
pub open spec fn without_alpha(c: Channels) -> (u8, u8, u8) {
    (c.0, c.1, c.2)
}

/// The first three of the channels that a text denotes, if it denotes any.
pub open spec fn colour_of(denoted: Option<Channels>) -> Option<(u8, u8, u8)> {
    match denoted {
        Some(c) => Some(without_alpha(c)),
        None => None,
    }
}

/// Tells which notation `s` is of: 0 for hexadecimal, 1 for `rgb`, 2 for
/// `rgba`, 3 for slash-separated, 9 for none of them.
pub fn classify(s: &str) -> (kind: u8)
    ensures
        kind == classification(s@),
{
    let chars = to_chars(s);
    if scan_hex(&chars).is_some() {
        HEX
    } else if scan_rgb(&chars).is_some() {
        RGB
    } else if scan_rgba(&chars).is_some() {
        RGBA
    } else if scan_xrgba(&chars).is_some() {
        XRGBA
    } else {
        UNSUPPORTED
    }
}

/// Whether `hex` is `#` and three, four, six or eight hexadecimal digits.
pub fn check_hex(hex: &str) -> (valid: bool)
    ensures
        valid == is_hex_text(hex@),
{
    scan_hex(&to_chars(hex)).is_some()
}

/// Whether `xrgba` is four pairs of hexadecimal digits separated by `/`.
pub fn check_xrgba(xrgba: &str) -> (valid: bool)
    ensures
        valid == is_xrgba_text(xrgba@),
{
    scan_xrgba(&to_chars(xrgba)).is_some()
}

/// Whether `rgb` is a call of `rgb` with three channels in one unit.
pub fn check_rgb(rgb: &str) -> (valid: bool)
    ensures
        valid == is_rgb_text(rgb@),
{
    scan_rgb(&to_chars(rgb)).is_some()
}

/// Whether `rgba` is a call of `rgba` with three channels in one unit and
/// an alpha between 0 and 1.
pub fn check_rgba(rgba: &str) -> (valid: bool)
    ensures
        valid == is_rgba_text(rgba@),
{
    scan_rgba(&to_chars(rgba)).is_some()
}

/// Appends the character at `index` of `s` twice.
fn push_doubled(out: &mut String, s: &str, index: usize)
    requires
        index < s@.len(),
        index < usize::MAX,
    ensures
        final(out)@ == old(out)@ + seq![s@[index as int], s@[index as int]],
{
    let piece = s.substring_char(index, index + 1);
    out.append(piece);
    out.append(piece);
    assert(piece@ =~= seq![s@[index as int]]);
    assert(out@ =~= old(out)@ + seq![s@[index as int], s@[index as int]]);
}

/// The long form of a hexadecimal string: three or four digits are doubled
/// one by one, six or eight digits are returned as they are.
pub fn expand_hex(hex: &str) -> (result: Result<String, InvalidFormat>)
    ensures
        match result {
            Ok(long) => is_hex_text(hex@) && long@ == expanded_hex(hex@),
            Err(error) => !is_hex_text(hex@) && error.is_about(hex@, Grammar::Hex),
        },
{
    let chars = to_chars(hex);
    if scan_hex(&chars).is_none() {
        return Err(InvalidFormat::new(hex, Grammar::Hex));
    }
    if chars.len() > 5 {
        return Ok(String::from_str(hex));
    }
    proof {
        reveal_strlit("#");
    }
    let ghost digits = hex@.skip(1);
    let mut long = String::from_str("#");
    push_doubled(&mut long, hex, 1);
    push_doubled(&mut long, hex, 2);
    push_doubled(&mut long, hex, 3);
    if chars.len() == 5 {
        push_doubled(&mut long, hex, 4);
    }
    assert(long@ =~= seq!['#'] + doubled(digits));
    Ok(long)
}

/// Reads the colour channels of a hexadecimal string; an alpha pair, if
/// there is one, is left out.
pub fn hex_to_tuple(hex: &str) -> (result: Result<(u8, u8, u8), InvalidFormat>)
    ensures
        is_reading(result, colour_of(parse_hex(hex@)), hex@, Grammar::Hex),
{
    match scan_hex(&to_chars(hex)) {
        Some(c) => Ok((c.0, c.1, c.2)),
        None => Err(InvalidFormat::new(hex, Grammar::Hex)),
    }
}

/// Reads the four channels of a hexadecimal string; alpha is 255 where the
/// string has no alpha pair.
pub fn hex_to_tuple_alpha(hex: &str) -> (result: Result<Channels, InvalidFormat>)
    ensures
        is_reading(result, parse_hex(hex@), hex@, Grammar::Hex),
{
    match scan_hex(&to_chars(hex)) {
        Some(c) => Ok(c),
        None => Err(InvalidFormat::new(hex, Grammar::Hex)),
    }
}

/// Reads the channels of a call of `rgb`.
pub fn rgb_to_tuple(rgb: &str) -> (result: Result<(u8, u8, u8), InvalidFormat>)
    ensures
        is_reading(result, colour_of(parse_rgb(rgb@)), rgb@, Grammar::Rgb),
{
    match scan_rgb(&to_chars(rgb)) {
        Some(c) => Ok((c.0, c.1, c.2)),
        None => Err(InvalidFormat::new(rgb, Grammar::Rgb)),
    }
}

/// Reads the channels of a call of `rgba`.
pub fn rgba_to_tuple_alpha(rgba: &str) -> (result: Result<Channels, InvalidFormat>)
    ensures
        is_reading(result, parse_rgba(rgba@), rgba@, Grammar::Rgba),
{
    match scan_rgba(&to_chars(rgba)) {
        Some(c) => Ok(c),
        None => Err(InvalidFormat::new(rgba, Grammar::Rgba)),
    }
}

/// Reads the colour channels of a slash-separated string; its alpha pair
/// is left out.
pub fn xrgba_to_tuple(xrgba: &str) -> (result: Result<(u8, u8, u8), InvalidFormat>)
    ensures
        is_reading(result, colour_of(parse_xrgba(xrgba@)), xrgba@, Grammar::Xrgba),
{
    match scan_xrgba(&to_chars(xrgba)) {
        Some(c) => Ok((c.0, c.1, c.2)),
        None => Err(InvalidFormat::new(xrgba, Grammar::Xrgba)),
    }
}

/// Reads the four channels of a slash-separated string.
pub fn xrgba_to_tuple_alpha(xrgba: &str) -> (result: Result<Channels, InvalidFormat>)
    ensures
        is_reading(result, parse_xrgba(xrgba@), xrgba@, Grammar::Xrgba),
{
    match scan_xrgba(&to_chars(xrgba)) {
        Some(c) => Ok(c),
        None => Err(InvalidFormat::new(xrgba, Grammar::Xrgba)),
    }
}

} // verus!
