//! The notations that a colour is written in, and the functions that write them.
//!
//! Each notation is a function from four channels to a character sequence;
//! each writer returns a string that is exactly that sequence.

use vstd::prelude::*;
use vstd::string::*;
use crate::grammar::Channels;
use crate::number::{decimal_text, milli_text, push_decimal, push_milli};
use crate::text::{digit_char, digit_str};
use crate::units::{
    fraction_milli,
    percentage_milli,
    percentage_rounded,
    u8_to_fraction_milli,
    u8_to_percentage_milli,
    u8_to_percentage_rounded,
};

verus! {

/// A channel as two lower-case hexadecimal digits.
pub open spec fn hex_pair(channel: u8) -> Seq<char> {
    seq![digit_char(channel as int / 16), digit_char(channel as int % 16)]
}

/// `rrggbb`: the colour channels as hexadecimal pairs.
pub open spec fn hex_stripped_text(c: Channels) -> Seq<char> {
    hex_pair(c.0) + hex_pair(c.1) + hex_pair(c.2)
}

/// `#rrggbb`.
pub open spec fn hex_text(c: Channels) -> Seq<char> {
    seq!['#'] + hex_stripped_text(c)
}

/// `rrggbbaa`: all four channels as hexadecimal pairs.
pub open spec fn hex8_stripped_text(c: Channels) -> Seq<char> {
    hex_stripped_text(c) + hex_pair(c.3)
}

/// `#rrggbbaa`.
pub open spec fn hex8_text(c: Channels) -> Seq<char> {
    seq!['#'] + hex8_stripped_text(c)
}

/// `rr/gg/bb/aa`.
pub open spec fn xrgba_text(c: Channels) -> Seq<char> {
    hex_pair(c.0) + seq!['/'] + hex_pair(c.1) + seq!['/'] + hex_pair(c.2) + seq!['/'] + hex_pair(
        c.3,
    )
}

/// `r,g,b`: the colour channels as decimal integers.
pub open spec fn rgb_stripped_text(c: Channels) -> Seq<char> {
    decimal_text(c.0 as nat) + seq![','] + decimal_text(c.1 as nat) + seq![','] + decimal_text(
        c.2 as nat,
    )
}

/// `r%,g%,b%`: the colour channels as percentages of three decimal places.
pub open spec fn percentages_text(c: Channels) -> Seq<char> {
    milli_text(percentage_milli(c.0) as nat) + seq!['%', ','] + milli_text(
        percentage_milli(c.1) as nat,
    ) + seq!['%', ','] + milli_text(percentage_milli(c.2) as nat) + seq!['%']
}

/// `r%,g%,b%`: the colour channels as whole percentages.
pub open spec fn rounded_percentages_text(c: Channels) -> Seq<char> {
    decimal_text(percentage_rounded(c.0) as nat) + seq!['%', ','] + decimal_text(
        percentage_rounded(c.1) as nat,
    ) + seq!['%', ','] + decimal_text(percentage_rounded(c.2) as nat) + seq!['%']
}

/// The alpha channel as a fraction of three decimal places.
pub open spec fn alpha_text(alpha: u8) -> Seq<char> {
    milli_text(fraction_milli(alpha) as nat)
}

/// `rgb(` and `)` around `inner`.
pub open spec fn rgb_call(inner: Seq<char>) -> Seq<char> {
    seq!['r', 'g', 'b', '('] + inner + seq![')']
}

/// `rgba(` and `)` around `inner` and the alpha channel.
pub open spec fn rgba_call(inner: Seq<char>, alpha: u8) -> Seq<char> {
    seq!['r', 'g', 'b', 'a', '('] + inner + seq![','] + alpha_text(alpha) + seq![')']
}

/// `rgb(r,g,b)`.
pub open spec fn rgb_text(c: Channels) -> Seq<char> {
    rgb_call(rgb_stripped_text(c))
}

/// `rgb(r%,g%,b%)` with percentages of three decimal places.
pub open spec fn rgb_percentage_text(c: Channels) -> Seq<char> {
    rgb_call(percentages_text(c))
}

/// `rgb(r%,g%,b%)` with whole percentages.
pub open spec fn rgb_percentage_rounded_text(c: Channels) -> Seq<char> {
    rgb_call(rounded_percentages_text(c))
}

/// `r,g,b,a`.
pub open spec fn rgba_stripped_text(c: Channels) -> Seq<char> {
    rgb_stripped_text(c) + seq![','] + alpha_text(c.3)
}

/// `rgba(r,g,b,a)`.
pub open spec fn rgba_text(c: Channels) -> Seq<char> {
    rgba_call(rgb_stripped_text(c), c.3)
}

/// `rgba(r%,g%,b%,a)` with percentages of three decimal places.
pub open spec fn rgba_percentage_text(c: Channels) -> Seq<char> {
    rgba_call(percentages_text(c), c.3)
}

/// `rgba(r%,g%,b%,a)` with whole percentages.
pub open spec fn rgba_percentage_rounded_text(c: Channels) -> Seq<char> {
    rgba_call(rounded_percentages_text(c), c.3)
}

/// Appends `channel` as two hexadecimal digits.
pub fn push_hex_pair(out: &mut String, channel: u8)
    ensures
        final(out)@ == old(out)@ + hex_pair(channel),
{
    out.append(digit_str(channel / 16));
    out.append(digit_str(channel % 16));
    assert(out@ =~= old(out)@ + hex_pair(channel));
}

/// Appends the colour channels as hexadecimal pairs.
fn push_hex_stripped(out: &mut String, c: Channels)
    ensures
        final(out)@ == old(out)@ + hex_stripped_text(c),
{
    push_hex_pair(out, c.0);
    push_hex_pair(out, c.1);
    push_hex_pair(out, c.2);
    assert(out@ =~= old(out)@ + hex_stripped_text(c));
}

/// Appends the colour channels as decimal integers.
fn push_rgb_stripped(out: &mut String, c: Channels)
    ensures
        final(out)@ == old(out)@ + rgb_stripped_text(c),
{
    proof {
        reveal_strlit(",");
    }
    push_decimal(out, c.0 as u32);
    out.append(",");
    push_decimal(out, c.1 as u32);
    out.append(",");
    push_decimal(out, c.2 as u32);
    assert(out@ =~= old(out)@ + rgb_stripped_text(c));
}

/// Appends the colour channels as percentages of three decimal places.
fn push_percentages(out: &mut String, c: Channels)
    ensures
        final(out)@ == old(out)@ + percentages_text(c),
{
    proof {
        reveal_strlit("%,");
        reveal_strlit("%");
    }
    push_milli(out, u8_to_percentage_milli(c.0));
    out.append("%,");
    push_milli(out, u8_to_percentage_milli(c.1));
    out.append("%,");
    push_milli(out, u8_to_percentage_milli(c.2));
    out.append("%");
    assert(out@ =~= old(out)@ + percentages_text(c));
}

/// Appends the colour channels as whole percentages.
fn push_rounded_percentages(out: &mut String, c: Channels)
    ensures
        final(out)@ == old(out)@ + rounded_percentages_text(c),
{
    proof {
        reveal_strlit("%,");
        reveal_strlit("%");
    }
    push_decimal(out, u8_to_percentage_rounded(c.0) as u32);
    out.append("%,");
    push_decimal(out, u8_to_percentage_rounded(c.1) as u32);
    out.append("%,");
    push_decimal(out, u8_to_percentage_rounded(c.2) as u32);
    out.append("%");
    assert(out@ =~= old(out)@ + rounded_percentages_text(c));
}

/// Appends a comma, the alpha channel as a fraction, and the closing bracket.
fn push_alpha_end(out: &mut String, alpha: u8)
    ensures
        final(out)@ == old(out)@ + seq![','] + alpha_text(alpha) + seq![')'],
{
    proof {
        reveal_strlit(",");
        reveal_strlit(")");
    }
    out.append(",");
    push_milli(out, u8_to_fraction_milli(alpha));
    out.append(")");
}

/// A string that begins a call of `rgb`.
fn begin_rgb() -> (out: String)
    ensures
        out@ == seq!['r', 'g', 'b', '('],
{
    proof {
        reveal_strlit("rgb(");
    }
    let out = String::from_str("rgb(");
    assert(out@ =~= seq!['r', 'g', 'b', '(']);
    out
}

/// A string that begins a call of `rgba`.
fn begin_rgba() -> (out: String)
    ensures
        out@ == seq!['r', 'g', 'b', 'a', '('],
{
    proof {
        reveal_strlit("rgba(");
    }
    let out = String::from_str("rgba(");
    assert(out@ =~= seq!['r', 'g', 'b', 'a', '(']);
    out
}

/// Writes `#rrggbb`; the alpha channel is left out.
pub fn format_hex(c: Channels) -> (text: String)
    ensures
        text@ == hex_text(c),
{
    proof {
        reveal_strlit("#");
    }
    let mut out = String::from_str("#");
    push_hex_stripped(&mut out, c);
    assert(out@ =~= hex_text(c));
    out
}

/// Writes `rrggbb`.
pub fn format_hex_stripped(c: Channels) -> (text: String)
    ensures
        text@ == hex_stripped_text(c),
{
    let mut out = String::new();
    push_hex_stripped(&mut out, c);
    assert(out@ =~= hex_stripped_text(c));
    out
}

/// Writes `#rrggbbaa`.
pub fn format_hex8(c: Channels) -> (text: String)
    ensures
        text@ == hex8_text(c),
{
    proof {
        reveal_strlit("#");
    }
    let mut out = String::from_str("#");
    push_hex_stripped(&mut out, c);
    push_hex_pair(&mut out, c.3);
    assert(out@ =~= hex8_text(c));
    out
}

/// Writes `rrggbbaa`.
pub fn format_hex8_stripped(c: Channels) -> (text: String)
    ensures
        text@ == hex8_stripped_text(c),
{
    let mut out = String::new();
    push_hex_stripped(&mut out, c);
    push_hex_pair(&mut out, c.3);
    assert(out@ =~= hex8_stripped_text(c));
    out
}

/// Writes `rr/gg/bb/aa`.
pub fn format_xrgba(c: Channels) -> (text: String)
    ensures
        text@ == xrgba_text(c),
{
    proof {
        reveal_strlit("/");
    }
    let mut out = String::new();
    push_hex_pair(&mut out, c.0);
    out.append("/");
    push_hex_pair(&mut out, c.1);
    out.append("/");
    push_hex_pair(&mut out, c.2);
    out.append("/");
    push_hex_pair(&mut out, c.3);
    assert(out@ =~= xrgba_text(c));
    out
}

/// Writes `rgb(r,g,b)` with decimal channels.
pub fn format_rgb(c: Channels) -> (text: String)
    ensures
        text@ == rgb_text(c),
{
    proof {
        reveal_strlit(")");
    }
    let mut out = begin_rgb();
    push_rgb_stripped(&mut out, c);
    out.append(")");
    out
}

/// Writes `r,g,b` with decimal channels.
pub fn format_rgb_stripped(c: Channels) -> (text: String)
    ensures
        text@ == rgb_stripped_text(c),
{
    let mut out = String::new();
    push_rgb_stripped(&mut out, c);
    assert(out@ =~= rgb_stripped_text(c));
    out
}

/// Writes `rgb(r%,g%,b%)` with percentages of three decimal places.
pub fn format_rgb_percentage(c: Channels) -> (text: String)
    ensures
        text@ == rgb_percentage_text(c),
{
    proof {
        reveal_strlit(")");
    }
    let mut out = begin_rgb();
    push_percentages(&mut out, c);
    out.append(")");
    out
}

/// Writes `rgb(r%,g%,b%)` with whole percentages.
pub fn format_rgb_percentage_rounded(c: Channels) -> (text: String)
    ensures
        text@ == rgb_percentage_rounded_text(c),
{
    proof {
        reveal_strlit(")");
    }
    let mut out = begin_rgb();
    push_rounded_percentages(&mut out, c);
    out.append(")");
    out
}

/// Writes `rgba(r,g,b,a)` with decimal channels and alpha as a fraction.
pub fn format_rgba(c: Channels) -> (text: String)
    ensures
        text@ == rgba_text(c),
{
    let mut out = begin_rgba();
    push_rgb_stripped(&mut out, c);
    push_alpha_end(&mut out, c.3);
    out
}

/// Writes `r,g,b,a` with decimal channels and alpha as a fraction.
pub fn format_rgba_stripped(c: Channels) -> (text: String)
    ensures
        text@ == rgba_stripped_text(c),
{
    proof {
        reveal_strlit(",");
    }
    let mut out = String::new();
    push_rgb_stripped(&mut out, c);
    out.append(",");
    push_milli(&mut out, u8_to_fraction_milli(c.3));
    assert(out@ =~= rgba_stripped_text(c));
    out
}

/// Writes `rgba(r%,g%,b%,a)` with percentages of three decimal places.
pub fn format_rgba_percentage(c: Channels) -> (text: String)
    ensures
        text@ == rgba_percentage_text(c),
{
    let mut out = begin_rgba();
    push_percentages(&mut out, c);
    push_alpha_end(&mut out, c.3);
    out
}

/// Writes `rgba(r%,g%,b%,a)` with whole percentages.
pub fn format_rgba_percentage_rounded(c: Channels) -> (text: String)
    ensures
        text@ == rgba_percentage_rounded_text(c),
{
    let mut out = begin_rgba();
    push_rounded_percentages(&mut out, c);
    push_alpha_end(&mut out, c.3);
    out
}

} // verus!
