//! A colour held as its slash-separated text, `rr/gg/bb/aa`.

use vstd::prelude::*;
use vstd::pervasive::unreached;
use vstd::string::*;
use crate::error::{Grammar, InvalidFormat};
use crate::grammar::{
    hex_channels,
    is_hex_text,
    is_xrgba_text,
    pair_value,
    xrgba_channels,
    Channels,
};
use crate::laws::{law_xrgba_round_trip, law_xrgba_text_round_trip, lemma_pair_text};
use crate::render::{format_xrgba, hex8_text, hex_pair, hex_text, xrgba_text};
use crate::scan::{scan_hex, scan_pair, scan_xrgba};
use crate::text::{is_hex_digit, lowered, to_chars};

verus! {

/// A colour as a string of four pairs of lower-case hexadecimal digits with
/// a `/` between each two of them.
#[derive(Debug)]
pub struct Xrgba(String);

/// Whether `s` is `#` and six or eight hexadecimal digits.
pub open spec fn is_long_hex_text(s: Seq<char>) -> bool {
    is_hex_text(s) && (s.len() == 7 || s.len() == 9)
}

/// Whether `s` is two hexadecimal digits.
pub open spec fn is_pair_text(s: Seq<char>) -> bool {
    s.len() == 2 && is_hex_digit(s[0]) && is_hex_digit(s[1])
}

/// Whether `s` is a slash-separated text without upper-case letters.
pub open spec fn is_lower_xrgba_text(s: Seq<char>) -> bool {
    is_xrgba_text(s) && lowered(s) == s
}

impl View for Xrgba {
    type V = Seq<char>;

    /// The text of the colour.
    closed spec fn view(&self) -> Seq<char> {
        self.0@
    }
}

impl Xrgba {
    /// What holds of every value: its text is slash-separated notation in
    /// lower case.
    #[verifier::type_invariant]
    pub open spec fn well_formed(&self) -> bool {
        is_lower_xrgba_text(self@)
    }

    /// The four channels that the text denotes.
    pub open spec fn channels(&self) -> Channels {
        xrgba_channels(self@)
    }

    /// The colour of the given channels.
    fn of_channels(c: Channels) -> (color: Xrgba)
        ensures
            color@ == xrgba_text(c),
            color.channels() == c,
    {
        proof {
            law_xrgba_round_trip(c);
        }
        Xrgba(format_xrgba(c))
    }

    /// The red pair.
    pub fn red(&self) -> (pair: &str)
        ensures
            pair@ == self@.subrange(0, 2),
            pair@ == hex_pair(self.channels().0),
    {
        proof {
            use_type_invariant(self);
            self.lemma_pairs();
        }
        self.0.as_str().substring_char(0, 2)
    }

    /// The green pair.
    pub fn green(&self) -> (pair: &str)
        ensures
            pair@ == self@.subrange(3, 5),
            pair@ == hex_pair(self.channels().1),
    {
        proof {
            use_type_invariant(self);
            self.lemma_pairs();
        }
        self.0.as_str().substring_char(3, 5)
    }

    /// The blue pair.
    pub fn blue(&self) -> (pair: &str)
        ensures
            pair@ == self@.subrange(6, 8),
            pair@ == hex_pair(self.channels().2),
    {
        proof {
            use_type_invariant(self);
            self.lemma_pairs();
        }
        self.0.as_str().substring_char(6, 8)
    }

    /// The pairs of a text in lower case are the pairs that its channels
    /// are written with.
    proof fn lemma_pairs(&self)
        requires
            self.well_formed(),
        ensures
            self@.len() == 11,
            self@ == xrgba_text(self.channels()),
            self@.subrange(0, 2) == hex_pair(self.channels().0),
            self@.subrange(3, 5) == hex_pair(self.channels().1),
            self@.subrange(6, 8) == hex_pair(self.channels().2),
            self@.subrange(9, 11) == hex_pair(self.channels().3),
    {
        let s = self@;
        let c = self.channels();
        law_xrgba_text_round_trip(s);
        assert(s.subrange(0, 2) =~= hex_pair(c.0));
        assert(s.subrange(3, 5) =~= hex_pair(c.1));
        assert(s.subrange(6, 8) =~= hex_pair(c.2));
        assert(s.subrange(9, 11) =~= hex_pair(c.3));
    }

    /// The channels of the text.
    fn read(&self) -> (c: Channels)
        ensures
            c == self.channels(),
            self@ == xrgba_text(c),
    {
        proof {
            use_type_invariant(self);
            self.lemma_pairs();
        }
        let chars = to_chars(self.0.as_str());
        match scan_xrgba(&chars) {
            Some(c) => c,
            None => unreached(),
        }
    }

    /// The value of `pair`, where it is two hexadecimal digits.
    fn read_pair(pair: &str) -> (result: Result<u8, InvalidFormat>)
        ensures
            match result {
                Ok(value) => is_pair_text(pair@) && value == pair_value(pair@[0], pair@[1]),
                Err(error) => !is_pair_text(pair@) && error.is_about(pair@, Grammar::Xrgba),
            },
    {
        let chars = to_chars(pair);
        if chars.len() != 2 {
            return Err(InvalidFormat::new(pair, Grammar::Xrgba));
        }
        match scan_pair(chars[0], chars[1]) {
            Some(value) => Ok(value),
            None => Err(InvalidFormat::new(pair, Grammar::Xrgba)),
        }
    }

    /// Replaces the red pair by `red`, two hexadecimal digits, which are
    /// kept in lower case.  Any other string is refused and changes nothing.
    pub fn set_red(&mut self, red: &str) -> (result: Result<(), InvalidFormat>)
        ensures
            match result {
                Ok(_) => {
                    &&& is_pair_text(red@)
                    &&& final(self)@ == lowered(red@) + old(self)@.skip(2)
                    &&& final(self).channels() == (
                        pair_value(red@[0], red@[1]),
                        old(self).channels().1,
                        old(self).channels().2,
                        old(self).channels().3,
                    )
                },
                Err(error) => {
                    &&& !is_pair_text(red@)
                    &&& error.is_about(red@, Grammar::Xrgba)
                    &&& final(self)@ == old(self)@
                },
            },
    {
        let c = self.read();
        match Xrgba::read_pair(red) {
            Ok(value) => {
                proof {
                    lemma_pair_text(red@[0], red@[1]);
                }
                *self = Xrgba::of_channels((value, c.1, c.2, c.3));
                assert(self@ =~= lowered(red@) + old(self)@.skip(2));
                Ok(())
            },
            Err(error) => Err(error),
        }
    }

    /// Replaces the green pair by `green`, two hexadecimal digits, which are
    /// kept in lower case.  Any other string is refused and changes nothing.
    pub fn set_green(&mut self, green: &str) -> (result: Result<(), InvalidFormat>)
        ensures
            match result {
                Ok(_) => {
                    &&& is_pair_text(green@)
                    &&& final(self)@ == old(self)@.take(3) + lowered(green@) + old(self)@.skip(5)
                    &&& final(self).channels() == (
                        old(self).channels().0,
                        pair_value(green@[0], green@[1]),
                        old(self).channels().2,
                        old(self).channels().3,
                    )
                },
                Err(error) => {
                    &&& !is_pair_text(green@)
                    &&& error.is_about(green@, Grammar::Xrgba)
                    &&& final(self)@ == old(self)@
                },
            },
    {
        let c = self.read();
        match Xrgba::read_pair(green) {
            Ok(value) => {
                proof {
                    lemma_pair_text(green@[0], green@[1]);
                }
                *self = Xrgba::of_channels((c.0, value, c.2, c.3));
                assert(self@ =~= old(self)@.take(3) + lowered(green@) + old(self)@.skip(5));
                Ok(())
            },
            Err(error) => Err(error),
        }
    }

    /// Replaces the blue pair by `blue`, two hexadecimal digits, which are
    /// kept in lower case.  Any other string is refused and changes nothing.
    pub fn set_blue(&mut self, blue: &str) -> (result: Result<(), InvalidFormat>)
        ensures
            match result {
                Ok(_) => {
                    &&& is_pair_text(blue@)
                    &&& final(self)@ == old(self)@.take(6) + lowered(blue@) + old(self)@.skip(8)
                    &&& final(self).channels() == (
                        old(self).channels().0,
                        old(self).channels().1,
                        pair_value(blue@[0], blue@[1]),
                        old(self).channels().3,
                    )
                },
                Err(error) => {
                    &&& !is_pair_text(blue@)
                    &&& error.is_about(blue@, Grammar::Xrgba)
                    &&& final(self)@ == old(self)@
                },
            },
    {
        let c = self.read();
        match Xrgba::read_pair(blue) {
            Ok(value) => {
                proof {
                    lemma_pair_text(blue@[0], blue@[1]);
                }
                *self = Xrgba::of_channels((c.0, c.1, value, c.3));
                assert(self@ =~= old(self)@.take(6) + lowered(blue@) + old(self)@.skip(8));
                Ok(())
            },
            Err(error) => Err(error),
        }
    }

    /// Replaces the alpha pair by `alpha`, two hexadecimal digits, which are
    /// kept in lower case.  Any other string is refused and changes nothing.
    pub fn set_alpha(&mut self, alpha: &str) -> (result: Result<(), InvalidFormat>)
        ensures
            match result {
                Ok(_) => {
                    &&& is_pair_text(alpha@)
                    &&& final(self)@ == old(self)@.take(9) + lowered(alpha@)
                    &&& final(self).channels() == (
                        old(self).channels().0,
                        old(self).channels().1,
                        old(self).channels().2,
                        pair_value(alpha@[0], alpha@[1]),
                    )
                },
                Err(error) => {
                    &&& !is_pair_text(alpha@)
                    &&& error.is_about(alpha@, Grammar::Xrgba)
                    &&& final(self)@ == old(self)@
                },
            },
    {
        let c = self.read();
        match Xrgba::read_pair(alpha) {
            Ok(value) => {
                proof {
                    lemma_pair_text(alpha@[0], alpha@[1]);
                }
                *self = Xrgba::of_channels((c.0, c.1, c.2, value));
                assert(self@ =~= old(self)@.take(9) + lowered(alpha@));
                Ok(())
            },
            Err(error) => Err(error),
        }
    }

    /// Reads `#rrggbb` or `#rrggbbaa`; alpha is `ff` where the string holds
    /// none.  The short forms are refused.
    pub fn from_hex(color_hex: &str) -> (result: Result<Xrgba, InvalidFormat>)
        ensures
            match result {
                Ok(color) => {
                    &&& is_long_hex_text(color_hex@)
                    &&& color@ == xrgba_text(hex_channels(color_hex@))
                    &&& color.channels() == hex_channels(color_hex@)
                },
                Err(error) => {
                    &&& !is_long_hex_text(color_hex@)
                    &&& error.is_about(color_hex@, Grammar::Hex)
                },
            },
    {
        let chars = to_chars(color_hex);
        match scan_hex(&chars) {
            Some(c) => {
                if chars.len() == 7 || chars.len() == 9 {
                    Ok(Xrgba::of_channels(c))
                } else {
                    Err(InvalidFormat::new(color_hex, Grammar::Hex))
                }
            },
            None => Err(InvalidFormat::new(color_hex, Grammar::Hex)),
        }
    }

    /// Reads `rr/gg/bb/aa`; upper-case digits are taken to lower case.
    pub fn from_xrgba(text: &str) -> (result: Result<Xrgba, InvalidFormat>)
        ensures
            match result {
                Ok(color) => {
                    &&& is_xrgba_text(text@)
                    &&& color@ == lowered(text@)
                    &&& color.channels() == xrgba_channels(text@)
                },
                Err(error) => {
                    &&& !is_xrgba_text(text@)
                    &&& error.is_about(text@, Grammar::Xrgba)
                },
            },
    {
        match scan_xrgba(&to_chars(text)) {
            Some(c) => {
                proof {
                    law_xrgba_text_round_trip(text@);
                }
                Ok(Xrgba::of_channels(c))
            },
            None => Err(InvalidFormat::new(text, Grammar::Xrgba)),
        }
    }

    /// Writes `#rrggbb`: the first three pairs behind a `#`.
    pub fn to_hex(&self) -> (text: String)
        ensures
            text@ == seq!['#'] + self@.subrange(0, 2) + self@.subrange(3, 5) + self@.subrange(6, 8),
            text@ == hex_text(self.channels()),
    {
        proof {
            reveal_strlit("#");
            use_type_invariant(self);
            self.lemma_pairs();
        }
        let mut text = String::from_str("#");
        text.append(self.red());
        text.append(self.green());
        text.append(self.blue());
        assert(text@ =~= hex_text(self.channels()));
        text
    }

    /// Writes `#rrggbbaa`: the four pairs behind a `#`.
    pub fn to_hex8(&self) -> (text: String)
        ensures
            text@ == seq!['#'] + self@.subrange(0, 2) + self@.subrange(3, 5) + self@.subrange(6, 8)
                + self@.subrange(9, 11),
            text@ == hex8_text(self.channels()),
    {
        proof {
            reveal_strlit("#");
            use_type_invariant(self);
            self.lemma_pairs();
        }
        let mut text = String::from_str("#");
        text.append(self.red());
        text.append(self.green());
        text.append(self.blue());
        text.append(self.0.as_str().substring_char(9, 11));
        assert(text@ =~= hex8_text(self.channels()));
        text
    }

    /// The text of the colour, `rr/gg/bb/aa`.
    pub fn to_string(&self) -> (text: String)
        ensures
            text@ == self@,
            is_lower_xrgba_text(text@),
    {
        proof {
            use_type_invariant(self);
        }
        self.0.clone()
    }
}

impl Default for Xrgba {
    /// Opaque black, `00/00/00/ff`.
    fn default() -> (color: Xrgba)
        ensures
            color@ == xrgba_text((0u8, 0u8, 0u8, 255u8)),
    {
        Xrgba::of_channels((0, 0, 0, 255))
    }
}

impl Clone for Xrgba {
    fn clone(&self) -> (copy: Xrgba)
        ensures
            copy@ == self@,
    {
        proof {
            use_type_invariant(self);
        }
        Xrgba(self.0.clone())
    }
}

impl From<&Xrgba> for String {
    /// The text of the colour, `rr/gg/bb/aa`.
    fn from(color: &Xrgba) -> (text: String)
        ensures
            text@ == color@,
    {
        color.to_string()
    }
}

impl vstd::std_specs::convert::FromSpecImpl<&Xrgba> for String {
    open spec fn obeys_from_spec() -> bool {
        false
    }

    open spec fn from_spec(color: &Xrgba) -> String {
        arbitrary()
    }
}

} // verus!
