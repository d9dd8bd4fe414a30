//! Pieces, colours and the content of a square.
use vstd::prelude::*;

verus! {

/// The six kinds of chess pieces.
#[derive(Debug, Copy, Clone, PartialEq, Eq, Structural)]
pub enum TypePiece {
    Rook,
    Knight,
    Bishop,
    Queen,
    King,
    Pawn,
}

/// Rank of a piece kind, in the order Rook, Knight, Bishop, Queen, King, Pawn.
pub open spec fn type_piece_rank(t: TypePiece) -> int {
    match t {
        TypePiece::Rook => 0,
        TypePiece::Knight => 1,
        TypePiece::Bishop => 2,
        TypePiece::Queen => 3,
        TypePiece::King => 4,
        TypePiece::Pawn => 5,
    }
}

/// The pieces a pawn may be promoted to.
#[derive(Debug, Copy, Clone, PartialEq, Eq, Structural)]
pub enum TypePiecePromotion {
    Rook,
    Knight,
    Bishop,
    Queen,
}

/// The piece kind a promotion produces.
pub open spec fn promotion_piece(p: TypePiecePromotion) -> TypePiece {
    match p {
        TypePiecePromotion::Rook => TypePiece::Rook,
        TypePiecePromotion::Knight => TypePiece::Knight,
        TypePiecePromotion::Bishop => TypePiece::Bishop,
        TypePiecePromotion::Queen => TypePiece::Queen,
    }
}

impl TypePiece {
    /// Every piece kind, in rank order.
    pub const ALL: [TypePiece; 6] = [
        TypePiece::Rook,
        TypePiece::Knight,
        TypePiece::Bishop,
        TypePiece::Queen,
        TypePiece::King,
        TypePiece::Pawn,
    ];

    /// Rank of the piece kind (Rook = 0 .. Pawn = 5).
    pub fn index(&self) -> (r: u8)
        ensures
            r as int == type_piece_rank(*self),
    {
        match self {
            TypePiece::Rook => 0,
            TypePiece::Knight => 1,
            TypePiece::Bishop => 2,
            TypePiece::Queen => 3,
            TypePiece::King => 4,
            TypePiece::Pawn => 5,
        }
    }

    /// The piece kind is the one the promotion produces.
    pub fn equals(&self, p: TypePiecePromotion) -> (r: bool)
        ensures
            r == (*self == promotion_piece(p)),
    {
        match (self, p) {
            (TypePiece::Rook, TypePiecePromotion::Rook) => true,
            (TypePiece::Knight, TypePiecePromotion::Knight) => true,
            (TypePiece::Bishop, TypePiecePromotion::Bishop) => true,
            (TypePiece::Queen, TypePiecePromotion::Queen) => true,
            _ => false,
        }
    }
}

impl TypePiecePromotion {
    /// The piece kind this promotion produces.
    pub fn as_type_piece(&self) -> (r: TypePiece)
        ensures
            r == promotion_piece(*self),
    {
        match self {
            TypePiecePromotion::Rook => TypePiece::Rook,
            TypePiecePromotion::Knight => TypePiece::Knight,
            TypePiecePromotion::Bishop => TypePiece::Bishop,
            TypePiecePromotion::Queen => TypePiece::Queen,
        }
    }
}

/// The two sides.
#[derive(Debug, Copy, Clone, PartialEq, Eq, Structural)]
pub enum Color {
    White,
    Black,
}

/// The other side.
pub open spec fn opposite(c: Color) -> Color {
    match c {
        Color::White => Color::Black,
        Color::Black => Color::White,
    }
}

/// Changing side.
pub trait Switch {
    fn switch(&self) -> Color;
}

impl Switch for Color {
    fn switch(&self) -> (r: Color)
        ensures
            r == opposite(*self),
    {
        match self {
            Color::White => Color::Black,
            Color::Black => Color::White,
        }
    }
}

/// A piece: its kind and its side.
#[derive(Debug, Copy, Clone, PartialEq, Eq, Structural)]
pub struct Piece {
    pub type_piece: TypePiece,
    pub color: Color,
}

impl Piece {
    pub fn type_piece(&self) -> (r: TypePiece)
        ensures
            r == self.type_piece,
    {
        self.type_piece
    }

    pub fn color(&self) -> (r: Color)
        ensures
            r == self.color,
    {
        self.color
    }
}

/// The content of a square.
#[derive(Debug, Copy, Clone, PartialEq, Eq, Structural)]
pub enum Square {
    Empty,
    NonEmpty(Piece),
}

impl Square {
    /// The square holding a piece of the given kind and side.
    pub fn build_piece(type_piece: TypePiece, color: Color) -> (r: Square)
        ensures
            r == Square::NonEmpty(Piece { type_piece, color }),
    {
        Square::NonEmpty(Piece { color, type_piece })
    }
}

} // verus!
