//! An opaque colour of three channels.

use vstd::prelude::*;
use crate::error::{Grammar, InvalidFormat};
use crate::grammar::{hex_channels, is_hex_text};
use crate::render::{format_hex, format_rgb_stripped, hex_text, rgb_stripped_text};
use crate::scan::scan_hex;
use crate::text::to_chars;

verus! {

/// Red, green and blue.
#[derive(Debug, Clone, Copy, PartialEq, Eq, Structural)]
pub struct Rgb(pub u8, pub u8, pub u8);

/// Whether `s` is `#` and six hexadecimal digits.
pub open spec fn is_hex6_text(s: Seq<char>) -> bool {
    is_hex_text(s) && s.len() == 7
}

impl Default for Rgb {
    /// Black.
    fn default() -> (rgb: Rgb)
        ensures
            rgb == Rgb(0, 0, 0),
    {
        Rgb(0, 0, 0)
    }
}

impl Rgb {
    /// Black.
    pub fn new() -> (rgb: Rgb)
        ensures
            rgb == Rgb(0, 0, 0),
    {
        Rgb(0, 0, 0)
    }

    pub fn red(&self) -> (red: u8)
        ensures
            red == self.0,
    {
        self.0
    }

    pub fn green(&self) -> (green: u8)
        ensures
            green == self.1,
    {
        self.1
    }

    pub fn blue(&self) -> (blue: u8)
        ensures
            blue == self.2,
    {
        self.2
    }

    pub fn set_red(&mut self, red: u8)
        ensures
            *final(self) == Rgb(red, old(self).1, old(self).2),
    {
        self.0 = red;
    }

    pub fn set_green(&mut self, green: u8)
        ensures
            *final(self) == Rgb(old(self).0, green, old(self).2),
    {
        self.1 = green;
    }

    pub fn set_blue(&mut self, blue: u8)
        ensures
            *final(self) == Rgb(old(self).0, old(self).1, blue),
    {
        self.2 = blue;
    }

    /// Writes `#rrggbb`.
    pub fn to_hex(&self) -> (text: String)
        ensures
            text@ == hex_text((self.0, self.1, self.2, 255u8)),
    {
        format_hex((self.0, self.1, self.2, 255))
    }

    /// Reads `#rrggbb`: the long form without alpha, and no other.
    pub fn from_hex(color_hex: &str) -> (result: Result<Rgb, InvalidFormat>)
        ensures
            match result {
                Ok(rgb) => {
                    &&& is_hex6_text(color_hex@)
                    &&& rgb == Rgb(
                        hex_channels(color_hex@).0,
                        hex_channels(color_hex@).1,
                        hex_channels(color_hex@).2,
                    )
                },
                Err(error) => {
                    &&& !is_hex6_text(color_hex@)
                    &&& error.is_about(color_hex@, Grammar::Hex)
                },
            },
    {
        let chars = to_chars(color_hex);
        match scan_hex(&chars) {
            Some(c) => {
                if chars.len() == 7 {
                    Ok(Rgb(c.0, c.1, c.2))
                } else {
                    Err(InvalidFormat::new(color_hex, Grammar::Hex))
                }
            },
            None => Err(InvalidFormat::new(color_hex, Grammar::Hex)),
        }
    }

    /// Writes `r,g,b` with decimal channels.
    pub fn to_string(&self) -> (text: String)
        ensures
            text@ == rgb_stripped_text((self.0, self.1, self.2, 255u8)),
    {
        format_rgb_stripped((self.0, self.1, self.2, 255))
    }
}

impl From<&Rgb> for String {
    /// `r,g,b` with decimal channels.
    fn from(color: &Rgb) -> (text: String)
        ensures
            text@ == rgb_stripped_text((color.0, color.1, color.2, 255u8)),
    {
        color.to_string()
    }
}

impl vstd::std_specs::convert::FromSpecImpl<&Rgb> for String {
    open spec fn obeys_from_spec() -> bool {
        false
    }

    open spec fn from_spec(color: &Rgb) -> String {
        arbitrary()
    }
}

} // verus!
