//! A plain 8x8 board of squares.
use vstd::prelude::*;
use crate::coord::{Coord, coord_index};
use crate::square::{Color, Piece, Square, TypePiece};

verus! {

/// The squares of the board; square `row * 8 + col` holds row `row` (0 for row 1)
/// and column `col` (0 for column a).
#[derive(Debug, Copy, Clone, PartialEq, Eq)]
pub struct ChessBoard {
    pub squares: [Square; 64],
}

/// The pieces of the starting position on square `i`.
pub open spec fn initial_square(i: int) -> Square {
    let back = if i % 8 == 0 || i % 8 == 7 {
        TypePiece::Rook
    } else if i % 8 == 1 || i % 8 == 6 {
        TypePiece::Knight
    } else if i % 8 == 2 || i % 8 == 5 {
        TypePiece::Bishop
    } else if i % 8 == 3 {
        TypePiece::Queen
    } else {
        TypePiece::King
    };
    if i / 8 == 0 {
        Square::NonEmpty(Piece { type_piece: back, color: Color::White })
    } else if i / 8 == 1 {
        Square::NonEmpty(Piece { type_piece: TypePiece::Pawn, color: Color::White })
    } else if i / 8 == 6 {
        Square::NonEmpty(Piece { type_piece: TypePiece::Pawn, color: Color::Black })
    } else if i / 8 == 7 {
        Square::NonEmpty(Piece { type_piece: back, color: Color::Black })
    } else {
        Square::Empty
    }
}

impl ChessBoard {
    /// The content of the square at `coord`.
    pub fn at(&self, coord: Coord) -> (r: Square)
        requires
            coord.wf(),
        ensures
            r == self.squares@[coord_index(coord)],
    {
        self.squares[coord.get_y() * 8 + coord.get_x()]
    }

    /// The content of square `index`.
    pub fn get(&self, index: usize) -> (r: Square)
        requires
            index < 64,
        ensures
            r == self.squares@[index as int],
    {
        self.squares[index]
    }

    /// The empty board.
    pub fn new() -> (r: Self)
        ensures
            forall|i: int| 0 <= i < 64 ==> #[trigger] r.squares@[i] == Square::Empty,
    {
        ChessBoard { squares: [Square::Empty; 64] }
    }

    pub fn build(squares: [Square; 64]) -> (r: Self)
        ensures
            r.squares == squares,
    {
        ChessBoard { squares }
    }

    pub fn squares(&self) -> (r: &[Square; 64])
        ensures
            *r == self.squares,
    {
        &self.squares
    }

    /// A walk over the squares in index order (row 1 from a to h, then row 2, ...).
    pub fn iter(&self) -> (r: ChessBoardIterator<'_>)
        ensures
            *r.board == *self,
            r.row == 0,
            r.col == 0,
    {
        ChessBoardIterator { board: self, row: 0, col: 0 }
    }

    /// Puts a piece on square `index`.
    pub fn set(&mut self, index: usize, square: Square)
        requires
            index < 64,
        ensures
            final(self).squares@ == old(self).squares@.update(index as int, square),
    {
        self.squares[index] = square;
    }
}

/// A walk over the squares of a board: row by row from row 1, each row from
/// column a to column h.
pub struct ChessBoardIterator<'a> {
    pub board: &'a ChessBoard,
    pub row: usize,
    pub col: usize,
}

impl<'a> ChessBoardIterator<'a> {
    /// The square at the current place, then a step forward; `None` once the
    /// walk has passed the last square.
    pub fn next(&mut self) -> (r: Option<Square>)
        ensures
            if old(self).row < 8 && old(self).col < 8 {
                &&& r == Some(old(self).board.squares@[old(self).row * 8 + old(self).col])
                &&& final(self).board == old(self).board
                &&& if old(self).col == 7 {
                    final(self).row == old(self).row + 1 && final(self).col == 0
                } else {
                    final(self).row == old(self).row && final(self).col == old(self).col + 1
                }
            } else {
                r is None && *final(self) == *old(self)
            },
    {
        if self.row < 8 && self.col < 8 {
            let square = self.board.squares[self.row * 8 + self.col];
            self.col = self.col + 1;
            if self.col == 8 {
                self.col = 0;
                self.row = self.row + 1;
            }
            Some(square)
        } else {
            None
        }
    }
}

/// A board that pieces can be put on and moved on.
pub trait Board {
    /// Sets up the pieces of the starting position.
    fn set_initial_position(&mut self);

    /// Puts a piece on `coord`.
    fn add(&mut self, coord: Coord, piece: TypePiece, color: Color)
        requires
            coord.wf(),
    ;

    /// Moves whatever stands on `from` to `to`, leaving `from` empty.
    fn move_piece(&mut self, from: Coord, to: Coord)
        requires
            from.wf(),
            to.wf(),
    ;
}

impl Board for ChessBoard {
    /// Puts a piece on `coord`.
    fn add(&mut self, coord: Coord, piece: TypePiece, color: Color)
        ensures
            final(self).squares@ == old(self).squares@.update(
                coord_index(coord),
                Square::NonEmpty(Piece { type_piece: piece, color }),
            ),
    {
        self.squares[coord.get_y() * 8 + coord.get_x()] = Square::build_piece(piece, color);
    }

    /// Moves whatever stands on `from` to `to`, leaving `from` empty.
    fn move_piece(&mut self, from: Coord, to: Coord)
        ensures
            final(self).squares@ == old(self).squares@.update(
                coord_index(to),
                old(self).squares@[coord_index(from)],
            ).update(coord_index(from), Square::Empty),
    {
        let s = self.at(from);
        self.squares[to.get_y() * 8 + to.get_x()] = s;
        self.squares[from.get_y() * 8 + from.get_x()] = Square::Empty;
    }

    /// Sets up the pieces of the starting position (the other squares are left as they are).
    fn set_initial_position(&mut self)
        ensures
            forall|i: int|
                0 <= i < 64 ==> #[trigger] final(self).squares@[i] == if 16 <= i < 48 {
                    old(self).squares@[i]
                } else {
                    initial_square(i)
                },
    {
        let mut i: usize = 0;
        while i < 64
            invariant
                i <= 64,
                forall|k: int|
                    0 <= k < 64 ==> #[trigger] self.squares@[k] == if 16 <= k < 48 || k >= i {
                        old(self).squares@[k]
                    } else {
                        initial_square(k)
                    },
            decreases 64 - i,
        {
            if i < 16 || i >= 48 {
                let col = i % 8;
                let back = if col == 0 || col == 7 {
                    TypePiece::Rook
                } else if col == 1 || col == 6 {
                    TypePiece::Knight
                } else if col == 2 || col == 5 {
                    TypePiece::Bishop
                } else if col == 3 {
                    TypePiece::Queen
                } else {
                    TypePiece::King
                };
                let row = i / 8;
                let s = if row == 0 {
                    Square::build_piece(back, Color::White)
                } else if row == 1 {
                    Square::build_piece(TypePiece::Pawn, Color::White)
                } else if row == 6 {
                    Square::build_piece(TypePiece::Pawn, Color::Black)
                } else {
                    Square::build_piece(back, Color::Black)
                };
                self.squares[i] = s;
            }
            i = i + 1;
        }
    }
}

} // verus!
