use crate::error::Error;
use vstd::prelude::*;

verus! {

/// Identity of a piece kind, one of a small closed alphabet of characters.
#[derive(Clone, Copy, Debug, PartialEq, Eq, Structural)]
pub enum Color {
    I,
    J,
    L,
    O,
    S,
    T,
    Z,
}

/// The color, if any, that a character stands for: the recognized alphabet
/// is exactly `I J L O S T Z`.
pub open spec fn spec_color_of_char(c: char) -> Option<Color> {
    if c == 'I' {
        Some(Color::I)
    } else if c == 'J' {
        Some(Color::J)
    } else if c == 'L' {
        Some(Color::L)
    } else if c == 'O' {
        Some(Color::O)
    } else if c == 'S' {
        Some(Color::S)
    } else if c == 'T' {
        Some(Color::T)
    } else if c == 'Z' {
        Some(Color::Z)
    } else {
        None
    }
}

/// The character that a color converts back to.
pub open spec fn spec_char_of_color(color: Color) -> char {
    match color {
        Color::I => 'I',
        Color::J => 'J',
        Color::L => 'L',
        Color::O => 'O',
        Color::S => 'S',
        Color::T => 'T',
        Color::Z => 'Z',
    }
}

impl Color {
    /// Converts a character to its color; fails with `InvalidColor` exactly
    /// on characters outside the recognized alphabet.
    pub fn from_char(c: char) -> (r: Result<Color, Error>)
        ensures
            match r {
                Ok(color) => spec_color_of_char(c) == Some(color),
                Err(e) => e == Error::InvalidColor && spec_color_of_char(c) is None,
            },
    {
        match c {
            'I' => Ok(Color::I),
            'J' => Ok(Color::J),
            'L' => Ok(Color::L),
            'O' => Ok(Color::O),
            'S' => Ok(Color::S),
            'T' => Ok(Color::T),
            'Z' => Ok(Color::Z),
            _ => Err(Error::InvalidColor),
        }
    }

    /// Converts a color back to its character.
    pub fn to_char(self) -> (r: char)
        ensures
            r == spec_char_of_color(self),
    {
        match self {
            Color::I => 'I',
            Color::J => 'J',
            Color::L => 'L',
            Color::O => 'O',
            Color::S => 'S',
            Color::T => 'T',
            Color::Z => 'Z',
        }
    }
}

/// Converting a character of the recognized alphabet to a color and back
/// yields the original character; every other character is rejected.
pub proof fn lemma_color_round_trip(c: char)
    ensures
        spec_color_of_char(c) matches Some(color) ==> spec_char_of_color(color) == c,
        spec_color_of_char(c) is None ==> (forall|color: Color| spec_char_of_color(color) != c),
{
}

} // verus!
