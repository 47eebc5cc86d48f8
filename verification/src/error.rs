//! The one error of this crate: a text that is not of the notation asked for.

use vstd::prelude::*;
use vstd::string::*;

verus! {

/// A notation that a colour can be read from.
#[derive(Clone, Copy, Debug, PartialEq, Eq, Hash, Structural)]
pub enum Grammar {
    /// `#rgb`, `#rgba`, `#rrggbb` or `#rrggbbaa`.
    Hex,
    /// `rgb(r,g,b)`.
    Rgb,
    /// `rgba(r,g,b,a)`.
    Rgba,
    /// `rr/gg/bb/aa`.
    Xrgba,
}

impl Grammar {
    /// The name of the notation, in lower case.
    pub open spec fn name_text(self) -> Seq<char> {
        match self {
            Grammar::Hex => seq!['h', 'e', 'x'],
            Grammar::Rgb => seq!['r', 'g', 'b'],
            Grammar::Rgba => seq!['r', 'g', 'b', 'a'],
            Grammar::Xrgba => seq!['x', 'r', 'g', 'b', 'a'],
        }
    }

    /// The name of the notation, in lower case.
    pub fn name(&self) -> (name: &'static str)
        ensures
            name@ == self.name_text(),
    {
        proof {
            reveal_strlit("hex");
            reveal_strlit("rgb");
            reveal_strlit("rgba");
            reveal_strlit("xrgba");
        }
        let name = match self {
            Grammar::Hex => "hex",
            Grammar::Rgb => "rgb",
            Grammar::Rgba => "rgba",
            Grammar::Xrgba => "xrgba",
        };
        assert(name@ =~= self.name_text());
        name
    }
}

/// A text was not of the notation that it was to be read as.
#[derive(Debug, PartialEq, Eq)]
pub struct InvalidFormat {
    /// The text as it was given.
    pub input: String,
    /// The notation that was asked for.
    pub grammar: Grammar,
}

impl InvalidFormat {
    /// Whether this error tells of `input` that it is not of `grammar`.
    pub open spec fn is_about(&self, input: Seq<char>, grammar: Grammar) -> bool {
        &&& self.input@ == input
        &&& self.grammar == grammar
    }

    /// What the error says in words.
    pub open spec fn message(&self) -> Seq<char> {
        seq!['I', 'n', 'v', 'a', 'l', 'i', 'd', ' '] + self.grammar.name_text() + seq![':', ' ']
            + self.input@
    }

    /// The error for `input` that is not of `grammar`.
    pub fn new(input: &str, grammar: Grammar) -> (error: InvalidFormat)
        ensures
            error.is_about(input@, grammar),
    {
        InvalidFormat { input: String::from_str(input), grammar }
    }

    /// The error in words: `Invalid `, the notation's name, `: ` and the text.
    pub fn to_string(&self) -> (text: String)
        ensures
            text@ == self.message(),
    {
        proof {
            reveal_strlit("Invalid ");
            reveal_strlit(": ");
        }
        let mut text = String::from_str("Invalid ");
        text.append(self.grammar.name());
        text.append(": ");
        text.append(self.input.as_str());
        assert(text@ =~= self.message());
        text
    }
}

impl Clone for InvalidFormat {
    fn clone(&self) -> (copy: Self)
        ensures
            copy == *self,
    {
        InvalidFormat { input: self.input.clone(), grammar: self.grammar }
    }
}

/// Whether `result` is what reading `input` as `grammar` owes: the value
/// that the text denotes, or the error that tells of `input` where it
/// denotes nothing.
pub open spec fn is_reading<T>(
    result: Result<T, InvalidFormat>,
    denoted: Option<T>,
    input: Seq<char>,
    grammar: Grammar,
) -> bool {
    match denoted {
        Some(value) => result == Ok::<T, InvalidFormat>(value),
        None => result matches Err(error) && error.is_about(input, grammar),
    }
}

} // verus!
