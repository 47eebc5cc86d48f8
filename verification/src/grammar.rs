//! The notations that a colour is read from, as predicates on character
//! sequences, and the channels that a text of each notation denotes.
//!
//! A text belongs to a notation as a whole: nothing may precede or follow it.

use vstd::prelude::*;
use crate::number::{digits_value, pow10};
use crate::text::{
    all_digits,
    all_hex_digits,
    hex_digit_value,
    is_digit,
    is_hex_digit,
    is_space,
    lowered,
};
use crate::units::{fraction_channel_rounded, percentage_milli_channel};

verus! {

/// The four channels of a colour: red, green, blue and alpha.
pub type Channels = (u8, u8, u8, u8);

/// The value of the two hexadecimal digits `high` and `low`.
pub open spec fn pair_value(high: char, low: char) -> u8
    recommends
        is_hex_digit(high),
        is_hex_digit(low),
{
    (16 * hex_digit_value(high) + hex_digit_value(low)) as u8
}

// Hexadecimal notation.

/// Whether `s` is `#` and then three, four, six or eight hexadecimal digits.
pub open spec fn is_hex_text(s: Seq<char>) -> bool {
    &&& (s.len() == 4 || s.len() == 5 || s.len() == 7 || s.len() == 9)
    &&& s[0] == '#'
    &&& all_hex_digits(s.skip(1))
}

/// `s` with each character written twice.
pub open spec fn doubled(s: Seq<char>) -> Seq<char> {
    Seq::new(2 * s.len(), |i: int| s[i / 2])
}

/// The long form of a hexadecimal text: a text of three or four digits has
/// each digit doubled, a text of six or eight digits is as it stands.
pub open spec fn expanded_hex(s: Seq<char>) -> Seq<char>
    recommends
        is_hex_text(s),
{
    if s.len() == 4 || s.len() == 5 {
        seq!['#'] + doubled(s.skip(1))
    } else {
        s
    }
}

/// The channels of a hexadecimal text: the digit pairs of its long form in
/// turn, and an opaque alpha where it has no fourth pair.
pub open spec fn hex_channels(s: Seq<char>) -> Channels
    recommends
        is_hex_text(s),
{
    let e = expanded_hex(s);
    (
        pair_value(e[1], e[2]),
        pair_value(e[3], e[4]),
        pair_value(e[5], e[6]),
        if e.len() == 9 {
            pair_value(e[7], e[8])
        } else {
            255u8
        },
    )
}

/// What a text denotes as hexadecimal notation, if anything.
pub open spec fn parse_hex(s: Seq<char>) -> Option<Channels> {
    if is_hex_text(s) {
        Some(hex_channels(s))
    } else {
        None
    }
}

// Slash-separated notation.

/// Whether `s` is four pairs of hexadecimal digits with a `/` between each
/// two of them.
pub open spec fn is_xrgba_text(s: Seq<char>) -> bool {
    &&& s.len() == 11
    &&& s[2] == '/' && s[5] == '/' && s[8] == '/'
    &&& is_hex_digit(s[0]) && is_hex_digit(s[1])
    &&& is_hex_digit(s[3]) && is_hex_digit(s[4])
    &&& is_hex_digit(s[6]) && is_hex_digit(s[7])
    &&& is_hex_digit(s[9]) && is_hex_digit(s[10])
}

/// The channels of a slash-separated text: its four pairs in turn.
pub open spec fn xrgba_channels(s: Seq<char>) -> Channels
    recommends
        is_xrgba_text(s),
{
    (
        pair_value(s[0], s[1]),
        pair_value(s[3], s[4]),
        pair_value(s[6], s[7]),
        pair_value(s[9], s[10]),
    )
}

/// What a text denotes as slash-separated notation, if anything.
pub open spec fn parse_xrgba(s: Seq<char>) -> Option<Channels> {
    if is_xrgba_text(s) {
        Some(xrgba_channels(s))
    } else {
        None
    }
}

// Functional notation: the parts of a call.

/// The index of the first `c` in `s`, or the length of `s` if it holds none.
pub open spec fn first_index(s: Seq<char>, c: char) -> int
    decreases s.len(),
{
    if s.len() == 0 || s[0] == c {
        0
    } else {
        1 + first_index(s.drop_first(), c)
    }
}

/// The first index of a character lies within the sequence, or is its length.
pub proof fn lemma_first_index(s: Seq<char>, c: char)
    ensures
        0 <= first_index(s, c) <= s.len(),
        first_index(s, c) < s.len() ==> s[first_index(s, c)] == c,
        forall|i: int| 0 <= i < first_index(s, c) ==> s[i] != c,
    decreases s.len(),
{
    if s.len() > 0 && s[0] != c {
        let rest = s.drop_first();
        lemma_first_index(rest, c);
        assert forall|i: int| 0 <= i < first_index(s, c) implies s[i] != c by {
            if i > 0 {
                assert(rest[i - 1] == s[i]);
            }
        }
    }
}

/// Where `c` stands at `at` and nowhere before, `at` is its first index.
pub proof fn lemma_first_index_at(s: Seq<char>, c: char, at: int)
    requires
        0 <= at <= s.len(),
        forall|i: int| 0 <= i < at ==> s[i] != c,
        at < s.len() ==> s[at] == c,
    ensures
        first_index(s, c) == at,
    decreases s.len(),
{
    if at > 0 {
        let rest = s.drop_first();
        assert forall|i: int| 0 <= i < at - 1 implies rest[i] != c by {
            assert(rest[i] == s[i + 1]);
        }
        lemma_first_index_at(rest, c, at - 1);
    }
}

/// The pieces of `s` between its separators, in order.  There is one piece
/// more than there are separators, and a piece may be empty.
pub open spec fn split(s: Seq<char>, separator: char) -> Seq<Seq<char>>
    decreases s.len(),
{
    let i = first_index(s, separator);
    if 0 <= i < s.len() {
        seq![s.take(i)] + split(s.skip(i + 1), separator)
    } else {
        seq![s]
    }
}

/// A text without a separator is one piece.
pub proof fn lemma_split_whole(s: Seq<char>, separator: char)
    requires
        forall|i: int| 0 <= i < s.len() ==> s[i] != separator,
    ensures
        split(s, separator) == seq![s],
{
    lemma_first_index_at(s, separator, s.len() as int);
}

/// A text without a separator, a separator and more text: the first piece
/// is the text before the separator, the others are those of what follows.
pub proof fn lemma_split_first(first: Seq<char>, rest: Seq<char>, separator: char)
    requires
        forall|i: int| 0 <= i < first.len() ==> first[i] != separator,
    ensures
        split(first + seq![separator] + rest, separator) == seq![first] + split(rest, separator),
{
    let s = first + seq![separator] + rest;
    assert forall|i: int| 0 <= i < first.len() implies s[i] != separator by {
        assert(s[i] == first[i]);
    }
    assert(s[first.len() as int] == separator);
    lemma_first_index_at(s, separator, first.len() as int);
    assert(s.take(first.len() as int) == first);
    assert(s.skip(first.len() as int + 1) == rest);
}

/// `s` without the white space that it begins with.
pub open spec fn trim_start(s: Seq<char>) -> Seq<char>
    decreases s.len(),
{
    if s.len() > 0 && is_space(s[0]) {
        trim_start(s.drop_first())
    } else {
        s
    }
}

/// The arguments written in `body`: its pieces between commas.  White space
/// may follow a comma and is no part of the argument after it.
pub open spec fn arguments(body: Seq<char>) -> Seq<Seq<char>> {
    let pieces = split(body, ',');
    Seq::new(
        pieces.len(),
        |i: int|
            if i == 0 {
                pieces[i]
            } else {
                trim_start(pieces[i])
            },
    )
}

/// Whether `s` is `name`, in letters of either case, then `(`, anything, and `)`.
pub open spec fn is_call(s: Seq<char>, name: Seq<char>) -> bool {
    &&& s.len() >= name.len() + 2
    &&& lowered(s.take(name.len() as int)) == name
    &&& s[name.len() as int] == '('
    &&& s.last() == ')'
}

/// What stands between the brackets of a call.
pub open spec fn call_body(s: Seq<char>, name: Seq<char>) -> Seq<char>
    recommends
        is_call(s, name),
{
    s.subrange(name.len() as int + 1, s.len() - 1)
}

// Functional notation: one argument.

/// Whether `t` is a channel as a plain integer: one to six digits that
/// denote at most 255.
pub open spec fn is_plain_channel(t: Seq<char>) -> bool {
    &&& 1 <= t.len() <= 6
    &&& all_digits(t)
    &&& digits_value(t) <= 255
}

/// Whether `t` is `whole` digits, a point, and one to three digits more.
pub open spec fn is_pointed(t: Seq<char>, whole: int) -> bool {
    &&& whole + 2 <= t.len() <= whole + 4
    &&& all_digits(t.take(whole))
    &&& t[whole] == '.'
    &&& all_digits(t.skip(whole + 1))
}

/// Thousand times the number that `t` denotes, where `t` is pointed after
/// `whole` digits.
pub open spec fn pointed_milli(t: Seq<char>, whole: int) -> nat
    recommends
        is_pointed(t, whole),
{
    let places = t.skip(whole + 1);
    1000 * digits_value(t.take(whole)) + digits_value(places) * pow10((3 - places.len()) as nat)
}

/// Whether `t` is a number as a percentage is written with: one to six
/// digits, or one to three digits, a point and one to three digits.
pub open spec fn is_percent_number(t: Seq<char>) -> bool {
    ||| 1 <= t.len() <= 6 && all_digits(t)
    ||| is_pointed(t, 1)
    ||| is_pointed(t, 2)
    ||| is_pointed(t, 3)
}

/// Thousand times the number that `t` denotes.
pub open spec fn percent_number_milli(t: Seq<char>) -> nat
    recommends
        is_percent_number(t),
{
    if is_pointed(t, 1) {
        pointed_milli(t, 1)
    } else if is_pointed(t, 2) {
        pointed_milli(t, 2)
    } else if is_pointed(t, 3) {
        pointed_milli(t, 3)
    } else {
        1000 * digits_value(t)
    }
}

/// Whether `t` is a channel as a percentage: a number of at most 100 and `%`.
pub open spec fn is_percent_channel(t: Seq<char>) -> bool {
    &&& t.len() >= 2
    &&& t.last() == '%'
    &&& is_percent_number(t.drop_last())
    &&& percent_number_milli(t.drop_last()) <= 100_000
}

/// The channel that the argument `t` denotes.
pub open spec fn channel_value(t: Seq<char>) -> u8
    recommends
        is_plain_channel(t) || is_percent_channel(t),
{
    if t.len() > 0 && t.last() == '%' {
        percentage_milli_channel(percent_number_milli(t.drop_last()) as int) as u8
    } else {
        digits_value(t) as u8
    }
}

/// Whether `red`, `green` and `blue` are three channels in one unit: all of
/// them plain integers, or all of them percentages.
pub open spec fn are_channels(red: Seq<char>, green: Seq<char>, blue: Seq<char>) -> bool {
    ||| is_plain_channel(red) && is_plain_channel(green) && is_plain_channel(blue)
    ||| is_percent_channel(red) && is_percent_channel(green) && is_percent_channel(blue)
}

/// Whether `t` is an alpha as a fraction: one digit, a point and at least
/// one digit more, denoting at most 1.
pub open spec fn is_alpha(t: Seq<char>) -> bool {
    &&& t.len() >= 3
    &&& is_digit(t[0])
    &&& t[1] == '.'
    &&& all_digits(t.skip(2))
    &&& (t[0] == '0' || (t[0] == '1' && digits_value(t.skip(2)) == 0))
}

/// The channel that the alpha `t` denotes: 255 times the fraction, rounded
/// to the nearest integer.
pub open spec fn alpha_value(t: Seq<char>) -> u8
    recommends
        is_alpha(t),
{
    if t[0] == '1' {
        255u8
    } else {
        fraction_channel_rounded(
            digits_value(t.skip(2)) as int,
            pow10((t.len() - 2) as nat) as int,
        ) as u8
    }
}

// Functional notation: whole texts.

/// The name that a call of three channels begins with.
pub open spec fn rgb_name() -> Seq<char> {
    seq!['r', 'g', 'b']
}

/// The name that a call of three channels and an alpha begins with.
pub open spec fn rgba_name() -> Seq<char> {
    seq!['r', 'g', 'b', 'a']
}

/// Whether `s` is a call of `rgb` with three channels in one unit.
pub open spec fn is_rgb_text(s: Seq<char>) -> bool {
    let a = arguments(call_body(s, rgb_name()));
    &&& is_call(s, rgb_name())
    &&& a.len() == 3
    &&& are_channels(a[0], a[1], a[2])
}

/// The channels of a call of `rgb`; its alpha is opaque.
pub open spec fn rgb_channels(s: Seq<char>) -> Channels
    recommends
        is_rgb_text(s),
{
    let a = arguments(call_body(s, rgb_name()));
    (channel_value(a[0]), channel_value(a[1]), channel_value(a[2]), 255u8)
}

/// What a text denotes as a call of `rgb`, if anything.
pub open spec fn parse_rgb(s: Seq<char>) -> Option<Channels> {
    if is_rgb_text(s) {
        Some(rgb_channels(s))
    } else {
        None
    }
}

/// Whether `s` is a call of `rgba` with three channels in one unit and an alpha.
pub open spec fn is_rgba_text(s: Seq<char>) -> bool {
    let a = arguments(call_body(s, rgba_name()));
    &&& is_call(s, rgba_name())
    &&& a.len() == 4
    &&& are_channels(a[0], a[1], a[2])
    &&& is_alpha(a[3])
}

/// The channels of a call of `rgba`.
pub open spec fn rgba_channels(s: Seq<char>) -> Channels
    recommends
        is_rgba_text(s),
{
    let a = arguments(call_body(s, rgba_name()));
    (channel_value(a[0]), channel_value(a[1]), channel_value(a[2]), alpha_value(a[3]))
}

/// What a text denotes as a call of `rgba`, if anything.
pub open spec fn parse_rgba(s: Seq<char>) -> Option<Channels> {
    if is_rgba_text(s) {
        Some(rgba_channels(s))
    } else {
        None
    }
}

} // verus!
