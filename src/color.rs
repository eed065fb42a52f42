use vstd::prelude::*;

verus! {

/// The four elemental colors, in their cycle of dominance.
#[derive(Clone, Copy, Debug, PartialEq, Eq, Structural)]
pub enum Color {
    Red,
    Green,
    Yellow,
    Blue,
}

/// The character that does not name a color.
#[derive(Debug, PartialEq, Eq, Structural)]
pub struct ParseColorError;

impl Color {
    /// The next color along the cycle Red, Green, Yellow, Blue, Red.
    pub open spec fn successor(self) -> Color {
        match self {
            Color::Red => Color::Green,
            Color::Green => Color::Yellow,
            Color::Yellow => Color::Blue,
            Color::Blue => Color::Red,
        }
    }

    /// `self` beats `enemy` for exactly four ordered pairs:
    /// (Red, Green), (Green, Yellow), (Yellow, Blue) and (Blue, Red).
    pub open spec fn beats_spec(self, enemy: Color) -> bool {
        ||| self == Color::Red && enemy == Color::Green
        ||| self == Color::Green && enemy == Color::Yellow
        ||| self == Color::Yellow && enemy == Color::Blue
        ||| self == Color::Blue && enemy == Color::Red
    }

    /// The color named by a one-letter code: `r`, `g`, `y` or `b`.
    pub open spec fn from_code(c: char) -> Option<Color> {
        if c == 'r' {
            Some(Color::Red)
        } else if c == 'g' {
            Some(Color::Green)
        } else if c == 'y' {
            Some(Color::Yellow)
        } else if c == 'b' {
            Some(Color::Blue)
        } else {
            None
        }
    }

    /// Whether this color beats `enemy`.
    pub fn beats(&self, enemy: &Color) -> (r: bool)
        ensures
            r == self.beats_spec(*enemy),
    {
        match (self, enemy) {
            (Color::Red, Color::Green) => true,
            (Color::Green, Color::Yellow) => true,
            (Color::Yellow, Color::Blue) => true,
            (Color::Blue, Color::Red) => true,
            _ => false,
        }
    }
}

/// Dominance follows the cycle: each color beats exactly its successor, and
/// in particular no color beats itself.
pub proof fn lemma_beats_is_successor(a: Color, b: Color)
    ensures
        a.beats_spec(b) <==> b == a.successor(),
        !a.beats_spec(a),
{
}

impl TryFrom<char> for Color {
    type Error = ParseColorError;

    fn try_from(c: char) -> (r: Result<Color, ParseColorError>)
        ensures
            r == (match Color::from_code(c) {
                Some(color) => Ok(color),
                None => Err(ParseColorError),
            }),
    {
        match c {
            'r' => Ok(Color::Red),
            'g' => Ok(Color::Green),
            'y' => Ok(Color::Yellow),
            'b' => Ok(Color::Blue),
            _ => Err(ParseColorError),
        }
    }
}

impl vstd::std_specs::convert::TryFromSpecImpl<char> for Color {
    open spec fn obeys_try_from_spec() -> bool {
        true
    }

    open spec fn try_from_spec(c: char) -> Result<Color, ParseColorError> {
        match Color::from_code(c) {
            Some(color) => Ok(color),
            None => Err(ParseColorError),
        }
    }
}

} // verus!
