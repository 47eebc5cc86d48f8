//! The colour value: four channels, equal and ordered as the four numbers are.

use std::cmp::Ordering;
use vstd::prelude::*;
use vstd::std_specs::cmp::PartialOrdSpecImpl;
use crate::grammar::Channels;
use crate::render::hex_text;
use crate::traits::{
    ComponentAsFraction,
    ComponentAsHexString,
    ComponentAsPercentage,
    ComponentAsu8,
    FromString,
    FromTuple,
    MakeString,
    ToTuple,
};

verus! {

/// How `a` stands to `b`: the first channel in which they differ decides,
/// red before green before blue before alpha.
pub open spec fn channels_order(a: Channels, b: Channels) -> Ordering {
    if a.0 != b.0 {
        if a.0 < b.0 {
            Ordering::Less
        } else {
            Ordering::Greater
        }
    } else if a.1 != b.1 {
        if a.1 < b.1 {
            Ordering::Less
        } else {
            Ordering::Greater
        }
    } else if a.2 != b.2 {
        if a.2 < b.2 {
            Ordering::Less
        } else {
            Ordering::Greater
        }
    } else if a.3 != b.3 {
        if a.3 < b.3 {
            Ordering::Less
        } else {
            Ordering::Greater
        }
    } else {
        Ordering::Equal
    }
}

/// A colour of four 8-bit channels.  An alpha of 255 is fully opaque.
/// Colours are equal where their channels are, and ordered as their
/// channels are, taken in turn.
#[derive(Debug, Clone, Copy, PartialEq, Eq, Ord, Hash, Structural)]
pub struct Color {
    pub red: u8,
    pub green: u8,
    pub blue: u8,
    pub alpha: u8,
}

impl ToTuple for Color {
    open spec fn channels(&self) -> Channels {
        (self.red, self.green, self.blue, self.alpha)
    }

    fn to_tuple(&self) -> (tuple: (u8, u8, u8)) {
        (self.red, self.green, self.blue)
    }

    fn to_tuple_alpha(&self) -> (tuple: Channels) {
        (self.red, self.green, self.blue, self.alpha)
    }
}

impl FromTuple for Color {
    open spec fn of_channels(c: Channels) -> Color {
        Color { red: c.0, green: c.1, blue: c.2, alpha: c.3 }
    }

    fn from_tuple(tuple: (u8, u8, u8)) -> (value: Color) {
        Color { red: tuple.0, green: tuple.1, blue: tuple.2, alpha: 255 }
    }

    fn from_tuple_alpha(tuple: Channels) -> (value: Color) {
        Color { red: tuple.0, green: tuple.1, blue: tuple.2, alpha: tuple.3 }
    }
}

impl ComponentAsu8 for Color {

}

impl ComponentAsHexString for Color {

}

impl ComponentAsPercentage for Color {

}

impl ComponentAsFraction for Color {

}

impl MakeString for Color {

}

impl FromString for Color {

}

impl PartialOrd for Color {
    fn partial_cmp(&self, other: &Color) -> (order: Option<Ordering>) {
        let a = self.to_tuple_alpha();
        let b = other.to_tuple_alpha();
        let order = if a.0 != b.0 {
            if a.0 < b.0 {
                Ordering::Less
            } else {
                Ordering::Greater
            }
        } else if a.1 != b.1 {
            if a.1 < b.1 {
                Ordering::Less
            } else {
                Ordering::Greater
            }
        } else if a.2 != b.2 {
            if a.2 < b.2 {
                Ordering::Less
            } else {
                Ordering::Greater
            }
        } else if a.3 != b.3 {
            if a.3 < b.3 {
                Ordering::Less
            } else {
                Ordering::Greater
            }
        } else {
            Ordering::Equal
        };
        Some(order)
    }
}

impl PartialOrdSpecImpl for Color {
    open spec fn obeys_partial_cmp_spec() -> bool {
        true
    }

    open spec fn partial_cmp_spec(&self, other: &Color) -> Option<Ordering> {
        Some(channels_order(self.channels(), other.channels()))
    }
}

impl Default for Color {
    /// Opaque black.
    fn default() -> (color: Color)
        ensures
            color == (Color { red: 0, green: 0, blue: 0, alpha: 255 }),
    {
        Color { red: 0, green: 0, blue: 0, alpha: 255 }
    }
}

impl Color {
    /// Opaque black.
    pub fn new() -> (color: Color)
        ensures
            color == (Color { red: 0, green: 0, blue: 0, alpha: 255 }),
    {
        Color { red: 0, green: 0, blue: 0, alpha: 255 }
    }

    /// The colour as it is shown: `#rrggbb`.
    pub fn to_string(&self) -> (text: String)
        ensures
            text@ == hex_text(self.channels()),
    {
        self.hex()
    }
}

} // verus!
