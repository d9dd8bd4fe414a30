//! Human coordinates of a square: a column letter and a row number.
use vstd::prelude::*;

verus! {

/// A square given by its column letter (`'A'..='H'`) and row (`1..=8`).
#[derive(Debug, Copy, Clone, PartialEq, Eq, Structural)]
pub struct Coord {
    pub col: char,
    pub row: u8,
}

/// The error returned for a column or row outside the board.
#[derive(Debug, Copy, Clone, PartialEq, Eq, Structural)]
pub struct InvalidCoordError {
    pub col: char,
    pub row: u8,
}

/// `col` is a column letter of the board, in either case.
pub open spec fn is_col_letter(col: char) -> bool {
    ('A' <= col <= 'H') || ('a' <= col <= 'h')
}

/// `col` and `row` name a square of the board.
pub open spec fn valid_square(col: char, row: u8) -> bool {
    is_col_letter(col) && 1 <= row <= 8
}

/// The upper-case form of a column letter.
pub open spec fn upper_col(col: char) -> char {
    if 'a' <= col <= 'h' {
        ((col as u32) - 32) as char
    } else {
        col
    }
}

impl Coord {
    /// The coordinate names a square of the board.
    pub open spec fn wf(&self) -> bool {
        'A' <= self.col <= 'H' && 1 <= self.row <= 8
    }

    /// Column number, 0 for `'A'` to 7 for `'H'`.
    pub open spec fn x(&self) -> int {
        self.col as int - 65
    }

    /// Row number, 0 for row 1 to 7 for row 8.
    pub open spec fn y(&self) -> int {
        self.row as int - 1
    }

    pub fn get_x(&self) -> (r: usize)
        requires
            self.wf(),
        ensures
            r == self.x(),
    {
        ((self.col as u32) - 65) as usize
    }

    pub fn get_y(&self) -> (r: usize)
        requires
            self.wf(),
        ensures
            r == self.y(),
    {
        (self.row - 1) as usize
    }

    /// The coordinate of column `col` (either case) and row `row`, the column
    /// stored in upper case; an error carrying the inputs when they name no square.
    pub fn from(col: char, row: u8) -> (r: Result<Coord, InvalidCoordError>)
        ensures
            valid_square(col, row) ==> r == Ok::<Coord, InvalidCoordError>(
                Coord { col: upper_col(col), row },
            ),
            !valid_square(col, row) ==> r == Err::<Coord, InvalidCoordError>(
                InvalidCoordError { col, row },
            ),
            r matches Ok(c) ==> c.wf(),
    {
        if Self::is_valid_chess_square(col, row) {
            let upper = if 'a' <= col && col <= 'h' {
                char_from_code((col as u32) - 32)
            } else {
                col
            };
            Ok(Coord { col: upper, row })
        } else {
            Err(InvalidCoordError { col, row })
        }
    }

    /// `col` and `row` name a square of the board.
    pub fn is_valid_chess_square(col: char, row: u8) -> (r: bool)
        ensures
            r == valid_square(col, row),
    {
        (('A' <= col && col <= 'H') || ('a' <= col && col <= 'h')) && row >= 1 && row <= 8
    }
}

/// The character whose code is `code`, for an upper-case column letter.
fn char_from_code(code: u32) -> (c: char)
    requires
        65 <= code <= 72,
    ensures
        c as u32 == code,
{
    if code == 65 {
        'A'
    } else if code == 66 {
        'B'
    } else if code == 67 {
        'C'
    } else if code == 68 {
        'D'
    } else if code == 69 {
        'E'
    } else if code == 70 {
        'F'
    } else if code == 71 {
        'G'
    } else {
        'H'
    }
}


/// The board index of a coordinate: `row * 8 + column`, counted from 0.
pub open spec fn coord_index(c: Coord) -> int {
    c.y() * 8 + c.x()
}

} // verus!
