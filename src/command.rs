use vstd::prelude::*;

use crate::color::{Color, ParseColorError};
use crate::grid::{GRID_HEIGHT, GRID_WIDTH};

verus! {

/// Why a typed command does not name a move.
#[derive(Clone, Copy, Debug, PartialEq, Eq, Structural)]
pub enum CommandError {
    /// The command does not have exactly three characters; this many it has.
    WrongLength(usize),
    /// The first character names no color.
    UnknownColor(char),
    /// The second character is not a column letter `a` to `e`.
    BadColumn,
    /// The third character is a digit but names no row `1` to `7`.
    RowOutOfRange,
    /// The third character is not a digit.
    UnreadableRow,
}

/// The column named by a letter: `a` is column 0, up to `e`.
pub open spec fn column_of(c: char) -> Option<usize> {
    if c == 'a' {
        Some(0usize)
    } else if c == 'b' {
        Some(1usize)
    } else if c == 'c' {
        Some(2usize)
    } else if c == 'd' {
        Some(3usize)
    } else if c == 'e' {
        Some(4usize)
    } else {
        None
    }
}

/// The value of a decimal digit character.
pub open spec fn digit_of(c: char) -> Option<usize> {
    if c == '0' {
        Some(0usize)
    } else if c == '1' {
        Some(1usize)
    } else if c == '2' {
        Some(2usize)
    } else if c == '3' {
        Some(3usize)
    } else if c == '4' {
        Some(4usize)
    } else if c == '5' {
        Some(5usize)
    } else if c == '6' {
        Some(6usize)
    } else if c == '7' {
        Some(7usize)
    } else if c == '8' {
        Some(8usize)
    } else if c == '9' {
        Some(9usize)
    } else {
        None
    }
}

/// The move, or the error, named by a command of three characters: a color
/// letter, a column letter and a row digit counted from 1.
pub open spec fn command_outcome(s: Seq<char>) -> Result<(Color, usize, usize), CommandError> {
    if s.len() != 3 {
        Err(CommandError::WrongLength(s.len() as usize))
    } else {
        match (Color::from_code(s[0]), column_of(s[1]), digit_of(s[2])) {
            (None, _, _) => Err(CommandError::UnknownColor(s[0])),
            (Some(_), None, _) => Err(CommandError::BadColumn),
            (Some(_), Some(_), None) => Err(CommandError::UnreadableRow),
            (Some(color), Some(x), Some(d)) => if d == 0 || d > GRID_HEIGHT {
                Err(CommandError::RowOutOfRange)
            } else {
                Ok((color, x, (d - 1) as usize))
            },
        }
    }
}

fn column(c: char) -> (r: Option<usize>)
    ensures
        r == column_of(c),
{
    match c {
        'a' => Some(0),
        'b' => Some(1),
        'c' => Some(2),
        'd' => Some(3),
        'e' => Some(4),
        _ => None,
    }
}

fn digit(c: char) -> (r: Option<usize>)
    ensures
        r == digit_of(c),
{
    match c {
        '0' => Some(0),
        '1' => Some(1),
        '2' => Some(2),
        '3' => Some(3),
        '4' => Some(4),
        '5' => Some(5),
        '6' => Some(6),
        '7' => Some(7),
        '8' => Some(8),
        '9' => Some(9),
        _ => None,
    }
}

/// Reads a command such as `rc7`: color red, column `c`, row 7, which is
/// the move at x = 2, y = 6.
pub fn parse_command(chars: &Vec<char>) -> (r: Result<(Color, usize, usize), CommandError>)
    ensures
        r == command_outcome(chars@),
        r matches Ok((_, x, y)) ==> x < GRID_WIDTH && y < GRID_HEIGHT,
{
    if chars.len() != 3 {
        return Err(CommandError::WrongLength(chars.len()));
    }
    let color = match Color::try_from(chars[0]) {
        Ok(color) => color,
        Err(ParseColorError) => return Err(CommandError::UnknownColor(chars[0])),
    };
    let x = match column(chars[1]) {
        Some(x) => x,
        None => return Err(CommandError::BadColumn),
    };
    let d = match digit(chars[2]) {
        Some(d) => d,
        None => return Err(CommandError::UnreadableRow),
    };
    if d == 0 || d > GRID_HEIGHT {
        return Err(CommandError::RowOutOfRange);
    }
    Ok((color, x, d - 1))
}

} // verus!
