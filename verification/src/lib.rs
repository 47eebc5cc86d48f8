//! Conversion between textual colour notations and four 8-bit channels.
//!
//! A colour is read from hexadecimal (`#rgb`, `#rgba`, `#rrggbb`, `#rrggbbaa`),
//! functional (`rgb(..)`, `rgba(..)`) or slash-separated (`rr/gg/bb/aa`) text
//! and written back in any of these notations.  Every notation is given as a
//! predicate on character sequences, and every executable function is proved
//! against those predicates.
//!
//! - [`text`] and [`number`]: characters, digits and decimal numbers.
//! - [`units`]: channels as percentages and fractions, in thousandths.
//! - [`grammar`]: what each notation is and what its texts denote.
//! - [`scan`]: the recognisers that decide it.
//! - [`render`]: what each notation is written as, and the writers.
//! - [`utils`]: validators and readers on strings.
//! - [`traits`], [`color`], [`rgb`], [`xrgba`]: the colour types.
//! - [`laws`]: what holds of writing and reading together.
//! - [`error`]: the error of a text that is not of its notation.

pub mod color;
pub mod error;
pub mod grammar;
pub mod laws;
pub mod number;
pub mod render;
pub mod rgb;
pub mod scan;
pub mod text;
pub mod traits;
pub mod units;
pub mod utils;
pub mod xrgba;
