//! What a colour type offers once it can give and take its channels: single
//! channels in several forms, every written notation, and reading from text.

use vstd::prelude::*;
use crate::error::{is_reading, Grammar, InvalidFormat};
use crate::grammar::{parse_hex, parse_rgb, parse_rgba, parse_xrgba, Channels};
use crate::render::{
    format_hex,
    format_hex8,
    format_hex8_stripped,
    format_hex_stripped,
    format_rgb,
    format_rgb_percentage,
    format_rgb_percentage_rounded,
    format_rgb_stripped,
    format_rgba,
    format_rgba_percentage,
    format_rgba_percentage_rounded,
    format_rgba_stripped,
    format_xrgba,
    hex8_stripped_text,
    hex8_text,
    hex_pair,
    hex_stripped_text,
    hex_text,
    push_hex_pair,
    rgb_percentage_rounded_text,
    rgb_percentage_text,
    rgb_stripped_text,
    rgb_text,
    rgba_percentage_rounded_text,
    rgba_percentage_text,
    rgba_stripped_text,
    rgba_text,
    xrgba_text,
};
use crate::units::{
    fraction_milli,
    percentage_milli,
    percentage_rounded,
    u8_to_fraction_milli,
    u8_to_percentage_milli,
    u8_to_percentage_rounded,
};
use crate::utils::{
    hex_to_tuple,
    hex_to_tuple_alpha,
    rgb_to_tuple,
    rgba_to_tuple_alpha,
    without_alpha,
    xrgba_to_tuple_alpha,
};

verus! {

/// `c` with an alpha of 255.
pub open spec fn opaque(c: Channels) -> Channels {
    (c.0, c.1, c.2, 255u8)
}

/// The value built from the channels that a text denotes, if it denotes
/// any; `alpha` says whether the alpha that the text denotes is kept, or
/// replaced by 255.
pub open spec fn built<T: FromTuple>(denoted: Option<Channels>, alpha: bool) -> Option<T> {
    match denoted {
        Some(c) => Some(
            T::of_channels(
                if alpha {
                    c
                } else {
                    opaque(c)
                },
            ),
        ),
        None => None,
    }
}

/// A value that has four channels.
pub trait ToTuple {
    /// The channels of the value: red, green, blue and alpha.
    spec fn channels(&self) -> Channels;

    /// Red, green and blue.
    fn to_tuple(&self) -> (tuple: (u8, u8, u8))
        ensures
            tuple == without_alpha(self.channels()),
    ;

    /// Red, green, blue and alpha.
    fn to_tuple_alpha(&self) -> (tuple: Channels)
        ensures
            tuple == self.channels(),
    ;
}

/// A value that is made from four channels.
pub trait FromTuple: Sized {
    /// The value that has the channels `c`.
    spec fn of_channels(c: Channels) -> Self;

    /// The opaque colour of the given red, green and blue.
    fn from_tuple(tuple: (u8, u8, u8)) -> (value: Self)
        ensures
            value == Self::of_channels((tuple.0, tuple.1, tuple.2, 255u8)),
    ;

    /// The colour of the given red, green, blue and alpha.
    fn from_tuple_alpha(tuple: Channels) -> (value: Self)
        ensures
            value == Self::of_channels(tuple),
    ;
}

/// Each channel as an integer from 0 to 255.
pub trait ComponentAsu8: ToTuple {
    fn red_u8(&self) -> (red: u8)
        ensures
            red == self.channels().0,
    {
        self.to_tuple().0
    }

    fn green_u8(&self) -> (green: u8)
        ensures
            green == self.channels().1,
    {
        self.to_tuple().1
    }

    fn blue_u8(&self) -> (blue: u8)
        ensures
            blue == self.channels().2,
    {
        self.to_tuple().2
    }

    fn alpha_u8(&self) -> (alpha: u8)
        ensures
            alpha == self.channels().3,
    {
        self.to_tuple_alpha().3
    }
}

/// Writes `channel` as two lower-case hexadecimal digits.
pub fn hex_pair_string(channel: u8) -> (text: String)
    ensures
        text@ == hex_pair(channel),
{
    let mut text = String::new();
    push_hex_pair(&mut text, channel);
    assert(text@ =~= hex_pair(channel));
    text
}

/// Each channel as two lower-case hexadecimal digits.
pub trait ComponentAsHexString: ToTuple {
    fn red_hex(&self) -> (text: String)
        ensures
            text@ == hex_pair(self.channels().0),
    {
        hex_pair_string(self.to_tuple().0)
    }

    fn green_hex(&self) -> (text: String)
        ensures
            text@ == hex_pair(self.channels().1),
    {
        hex_pair_string(self.to_tuple().1)
    }

    fn blue_hex(&self) -> (text: String)
        ensures
            text@ == hex_pair(self.channels().2),
    {
        hex_pair_string(self.to_tuple().2)
    }

    fn alpha_hex(&self) -> (text: String)
        ensures
            text@ == hex_pair(self.channels().3),
    {
        hex_pair_string(self.to_tuple_alpha().3)
    }
}

/// Each channel as a percentage of 255: in thousandths of a percent,
/// rounded to three decimal places, and rounded to a whole percentage.
pub trait ComponentAsPercentage: ToTuple {
    fn red_percentage_milli(&self) -> (milli: u32)
        ensures
            milli == percentage_milli(self.channels().0),
    {
        u8_to_percentage_milli(self.to_tuple().0)
    }

    fn red_percentage_rounded(&self) -> (percentage: u8)
        ensures
            percentage == percentage_rounded(self.channels().0),
    {
        u8_to_percentage_rounded(self.to_tuple().0)
    }

    fn green_percentage_milli(&self) -> (milli: u32)
        ensures
            milli == percentage_milli(self.channels().1),
    {
        u8_to_percentage_milli(self.to_tuple().1)
    }

    fn green_percentage_rounded(&self) -> (percentage: u8)
        ensures
            percentage == percentage_rounded(self.channels().1),
    {
        u8_to_percentage_rounded(self.to_tuple().1)
    }

    fn blue_percentage_milli(&self) -> (milli: u32)
        ensures
            milli == percentage_milli(self.channels().2),
    {
        u8_to_percentage_milli(self.to_tuple().2)
    }

    fn blue_percentage_rounded(&self) -> (percentage: u8)
        ensures
            percentage == percentage_rounded(self.channels().2),
    {
        u8_to_percentage_rounded(self.to_tuple().2)
    }

    fn alpha_percentage_milli(&self) -> (milli: u32)
        ensures
            milli == percentage_milli(self.channels().3),
    {
        u8_to_percentage_milli(self.to_tuple_alpha().3)
    }

    fn alpha_percentage_rounded(&self) -> (percentage: u8)
        ensures
            percentage == percentage_rounded(self.channels().3),
    {
        u8_to_percentage_rounded(self.to_tuple_alpha().3)
    }
}

/// Each channel as a fraction of 255, in thousandths, rounded to three
/// decimal places.
pub trait ComponentAsFraction: ToTuple {
    fn red_fraction_milli(&self) -> (milli: u32)
        ensures
            milli == fraction_milli(self.channels().0),
    {
        u8_to_fraction_milli(self.to_tuple().0)
    }

    fn green_fraction_milli(&self) -> (milli: u32)
        ensures
            milli == fraction_milli(self.channels().1),
    {
        u8_to_fraction_milli(self.to_tuple().1)
    }

    fn blue_fraction_milli(&self) -> (milli: u32)
        ensures
            milli == fraction_milli(self.channels().2),
    {
        u8_to_fraction_milli(self.to_tuple().2)
    }

    fn alpha_fraction_milli(&self) -> (milli: u32)
        ensures
            milli == fraction_milli(self.channels().3),
    {
        u8_to_fraction_milli(self.to_tuple_alpha().3)
    }
}

/// The value in each written notation.
pub trait MakeString: ToTuple {
    /// `#rrggbb`.
    fn hex(&self) -> (text: String)
        ensures
            text@ == hex_text(self.channels()),
    {
        format_hex(self.to_tuple_alpha())
    }

    /// `rrggbb`.
    fn hex_stripped(&self) -> (text: String)
        ensures
            text@ == hex_stripped_text(self.channels()),
    {
        format_hex_stripped(self.to_tuple_alpha())
    }

    /// `#rrggbbaa`.
    fn hex8(&self) -> (text: String)
        ensures
            text@ == hex8_text(self.channels()),
    {
        format_hex8(self.to_tuple_alpha())
    }

    /// `rrggbbaa`.
    fn hex8_stripped(&self) -> (text: String)
        ensures
            text@ == hex8_stripped_text(self.channels()),
    {
        format_hex8_stripped(self.to_tuple_alpha())
    }

    /// `rgb(r,g,b)`.
    fn rgb(&self) -> (text: String)
        ensures
            text@ == rgb_text(self.channels()),
    {
        format_rgb(self.to_tuple_alpha())
    }

    /// `r,g,b`.
    fn rgb_stripped(&self) -> (text: String)
        ensures
            text@ == rgb_stripped_text(self.channels()),
    {
        format_rgb_stripped(self.to_tuple_alpha())
    }

    /// `rgb(r%,g%,b%)`, each percentage with up to three decimal places.
    fn rgb_percentage(&self) -> (text: String)
        ensures
            text@ == rgb_percentage_text(self.channels()),
    {
        format_rgb_percentage(self.to_tuple_alpha())
    }

    /// `rgb(r%,g%,b%)`, each percentage a whole number.
    fn rgb_percentage_rounded(&self) -> (text: String)
        ensures
            text@ == rgb_percentage_rounded_text(self.channels()),
    {
        format_rgb_percentage_rounded(self.to_tuple_alpha())
    }

    /// `rgba(r,g,b,a)`, alpha as a fraction with up to three decimal places.
    fn rgba(&self) -> (text: String)
        ensures
            text@ == rgba_text(self.channels()),
    {
        format_rgba(self.to_tuple_alpha())
    }

    /// `r,g,b,a`.
    fn rgba_stripped(&self) -> (text: String)
        ensures
            text@ == rgba_stripped_text(self.channels()),
    {
        format_rgba_stripped(self.to_tuple_alpha())
    }

    /// `rgba(r%,g%,b%,a)`, each percentage with up to three decimal places.
    fn rgba_percentage(&self) -> (text: String)
        ensures
            text@ == rgba_percentage_text(self.channels()),
    {
        format_rgba_percentage(self.to_tuple_alpha())
    }

    /// `rgba(r%,g%,b%,a)`, each percentage a whole number.
    fn rgba_percentage_rounded(&self) -> (text: String)
        ensures
            text@ == rgba_percentage_rounded_text(self.channels()),
    {
        format_rgba_percentage_rounded(self.to_tuple_alpha())
    }

    /// `rr/gg/bb/aa`.
    fn xrgba(&self) -> (text: String)
        ensures
            text@ == xrgba_text(self.channels()),
    {
        format_xrgba(self.to_tuple_alpha())
    }
}

/// The value read from each notation.
pub trait FromString: FromTuple {
    /// Reads a hexadecimal string of any length as an opaque colour: an
    /// alpha that the string holds is left out.
    fn from_hex(s: &str) -> (result: Result<Self, InvalidFormat>)
        ensures
            is_reading(result, built::<Self>(parse_hex(s@), false), s@, Grammar::Hex),
    {
        match hex_to_tuple(s) {
            Ok(tuple) => Ok(Self::from_tuple(tuple)),
            Err(error) => Err(error),
        }
    }

    /// Reads a hexadecimal string of any length; alpha is 255 where the
    /// string holds none.
    fn from_hex8(s: &str) -> (result: Result<Self, InvalidFormat>)
        ensures
            is_reading(result, built::<Self>(parse_hex(s@), true), s@, Grammar::Hex),
    {
        match hex_to_tuple_alpha(s) {
            Ok(tuple) => Ok(Self::from_tuple_alpha(tuple)),
            Err(error) => Err(error),
        }
    }

    /// Reads a call of `rgb` as an opaque colour.
    fn from_rgb(s: &str) -> (result: Result<Self, InvalidFormat>)
        ensures
            is_reading(result, built::<Self>(parse_rgb(s@), true), s@, Grammar::Rgb),
    {
        match rgb_to_tuple(s) {
            Ok(tuple) => Ok(Self::from_tuple(tuple)),
            Err(error) => Err(error),
        }
    }

    /// Reads a call of `rgba`.
    fn from_rgba(s: &str) -> (result: Result<Self, InvalidFormat>)
        ensures
            is_reading(result, built::<Self>(parse_rgba(s@), true), s@, Grammar::Rgba),
    {
        match rgba_to_tuple_alpha(s) {
            Ok(tuple) => Ok(Self::from_tuple_alpha(tuple)),
            Err(error) => Err(error),
        }
    }

    /// Reads a slash-separated string.
    fn from_xrgba(s: &str) -> (result: Result<Self, InvalidFormat>)
        ensures
            is_reading(result, built::<Self>(parse_xrgba(s@), true), s@, Grammar::Xrgba),
    {
        match xrgba_to_tuple_alpha(s) {
            Ok(tuple) => Ok(Self::from_tuple_alpha(tuple)),
            Err(error) => Err(error),
        }
    }
}

} // verus!
