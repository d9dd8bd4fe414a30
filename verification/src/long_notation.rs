//! Long algebraic notation of a move, as UCI writes it: start square, end
//! square, and a lower case promotion letter (`e2e4`, `a7a8q`).
use vstd::prelude::*;
use crate::bitboard::BitIndex;
use crate::bitboard_move::BitBoardMove;
use crate::square::TypePiecePromotion;

verus! {

/// A move in long algebraic notation.
#[derive(Debug, Copy, Clone, PartialEq, Eq, Structural)]
pub struct LongAlgebricNotationMove {
    pub start: BitIndex,
    pub end: BitIndex,
    pub promotion: Option<TypePiecePromotion>,
}

/// Why a text is not a move in long algebraic notation.
#[derive(Debug, Copy, Clone, PartialEq, Eq, Structural)]
pub enum NotationError {
    /// The text has neither 4 nor 5 characters.
    InvalidLength,
    /// A square is not a column letter `a`-`h` followed by a row digit `1`-`8`.
    InvalidSquare,
    /// The fifth character is not one of `q`, `r`, `b`, `n`.
    InvalidPromotion,
}

/// The text of square `i`: its column letter and row digit.
pub open spec fn square_chars(i: int) -> Seq<char> {
    seq![((i % 8) + 97) as char, ((i / 8) + 49) as char]
}

/// The letter of a promotion: `q`, `r`, `b` or `n`.
pub open spec fn promotion_char(p: TypePiecePromotion) -> char {
    match p {
        TypePiecePromotion::Queen => 'q',
        TypePiecePromotion::Rook => 'r',
        TypePiecePromotion::Bishop => 'b',
        TypePiecePromotion::Knight => 'n',
    }
}

/// The notation of a move.
pub open spec fn notation_chars(m: LongAlgebricNotationMove) -> Seq<char> {
    square_chars(m.start.0 as int) + square_chars(m.end.0 as int) + match m.promotion {
        Some(p) => seq![promotion_char(p)],
        None => Seq::empty(),
    }
}

/// The square written `col` `row`, when it is one.
pub open spec fn square_of(col: char, row: char) -> Option<int> {
    if 'a' <= col <= 'h' && '1' <= row <= '8' {
        Some((row as int - 49) * 8 + (col as int - 97))
    } else {
        None
    }
}

/// The promotion written `c`, when it is one.
pub open spec fn promotion_of(c: char) -> Option<TypePiecePromotion> {
    if c == 'q' {
        Some(TypePiecePromotion::Queen)
    } else if c == 'r' {
        Some(TypePiecePromotion::Rook)
    } else if c == 'b' {
        Some(TypePiecePromotion::Bishop)
    } else if c == 'n' {
        Some(TypePiecePromotion::Knight)
    } else {
        None
    }
}

/// The move a text writes, or why it writes none: the length is checked first,
/// then the two squares, then the promotion letter.
pub open spec fn parse_notation(s: Seq<char>) -> Result<LongAlgebricNotationMove, NotationError> {
    if s.len() != 4 && s.len() != 5 {
        Err(NotationError::InvalidLength)
    } else {
        match (square_of(s[0], s[1]), square_of(s[2], s[3])) {
            (Some(a), Some(b)) => if s.len() == 4 {
                Ok(LongAlgebricNotationMove { start: BitIndex(a as u8), end: BitIndex(b as u8), promotion: None })
            } else {
                match promotion_of(s[4]) {
                    Some(p) => Ok(
                        LongAlgebricNotationMove { start: BitIndex(a as u8), end: BitIndex(b as u8), promotion: Some(p) },
                    ),
                    None => Err(NotationError::InvalidPromotion),
                }
            },
            _ => Err(NotationError::InvalidSquare),
        }
    }
}

/// The square written `col` `row`, when it is one.
fn parse_square(col: char, row: char) -> (r: Option<BitIndex>)
    ensures
        r == match square_of(col, row) {
            Some(i) => Some(BitIndex(i as u8)),
            None => None,
        },
        r matches Some(b) ==> b.0 < 64,
{
    if 'a' <= col && col <= 'h' && '1' <= row && row <= '8' {
        let c = (col as u32 - 97) as u8;
        let r = (row as u32 - 49) as u8;
        Some(BitIndex(r * 8 + c))
    } else {
        None
    }
}

/// The promotion written `c`, when it is one.
fn parse_promotion(c: char) -> (r: Option<TypePiecePromotion>)
    ensures
        r == promotion_of(c),
{
    if c == 'q' {
        Some(TypePiecePromotion::Queen)
    } else if c == 'r' {
        Some(TypePiecePromotion::Rook)
    } else if c == 'b' {
        Some(TypePiecePromotion::Bishop)
    } else if c == 'n' {
        Some(TypePiecePromotion::Knight)
    } else {
        None
    }
}

/// The text of square `i`, pushed.
fn push_square(v: &mut Vec<char>, i: BitIndex)
    requires
        i.0 < 64,
    ensures
        final(v)@ == old(v)@ + square_chars(i.0 as int),
{
    let col = ((i.0 % 8) + 97) as char;
    let row = ((i.0 / 8) + 49) as char;
    v.push(col);
    v.push(row);
    proof {
        assert(final(v)@ =~= old(v)@ + square_chars(i.0 as int));
    }
}

impl LongAlgebricNotationMove {
    pub fn new(start: BitIndex, end: BitIndex, promotion: Option<TypePiecePromotion>) -> (r: Self)
        ensures
            r == (LongAlgebricNotationMove { start, end, promotion }),
    {
        LongAlgebricNotationMove { start, end, promotion }
    }

    pub fn start(&self) -> (r: BitIndex)
        ensures
            r == self.start,
    {
        self.start
    }

    pub fn end(&self) -> (r: BitIndex)
        ensures
            r == self.end,
    {
        self.end
    }

    pub fn opt_promotion(&self) -> (r: Option<TypePiecePromotion>)
        ensures
            r == self.promotion,
    {
        self.promotion
    }

    /// The notation of a board move.
    pub fn build_from_b_move(b_move: BitBoardMove) -> (r: Self)
        ensures
            r == (LongAlgebricNotationMove { start: b_move.start, end: b_move.end, promotion: b_move.promotion }),
    {
        LongAlgebricNotationMove::new(b_move.start(), b_move.end(), b_move.promotion())
    }

    /// The move a text writes (see `parse_notation`).
    pub fn build_from_str(s: &str) -> (r: Result<Self, NotationError>)
        ensures
            r == parse_notation(s@),
    {
        let chars = crate::text::str_to_chars(s);
        if chars.len() != 4 && chars.len() != 5 {
            return Err(NotationError::InvalidLength);
        }
        match (parse_square(chars[0], chars[1]), parse_square(chars[2], chars[3])) {
            (Some(start), Some(end)) => {
                if chars.len() == 4 {
                    Ok(LongAlgebricNotationMove { start, end, promotion: None })
                } else {
                    match parse_promotion(chars[4]) {
                        Some(p) => Ok(LongAlgebricNotationMove { start, end, promotion: Some(p) }),
                        None => Err(NotationError::InvalidPromotion),
                    }
                }
            },
            _ => Err(NotationError::InvalidSquare),
        }
    }

    /// The notation as text.
    pub fn cast(&self) -> (r: String)
        requires
            self.start.0 < 64,
            self.end.0 < 64,
        ensures
            r@ == notation_chars(*self),
    {
        let mut v: Vec<char> = Vec::new();
        push_square(&mut v, self.start);
        push_square(&mut v, self.end);
        match self.promotion {
            Some(TypePiecePromotion::Queen) => v.push('q'),
            Some(TypePiecePromotion::Rook) => v.push('r'),
            Some(TypePiecePromotion::Bishop) => v.push('b'),
            Some(TypePiecePromotion::Knight) => v.push('n'),
            None => {},
        }
        proof {
            assert(v@ =~= notation_chars(*self));
        }
        crate::text::chars_to_string(&v)
    }
}

/// Reading back the notation of a move on the board gives the move.
pub proof fn lemma_notation_round_trip(m: LongAlgebricNotationMove)
    requires
        m.start.0 < 64,
        m.end.0 < 64,
    ensures
        parse_notation(notation_chars(m)) == Ok::<LongAlgebricNotationMove, NotationError>(m),
{
    let s = notation_chars(m);
    let a = m.start.0 as int;
    let b = m.end.0 as int;
    assert(s[0] == ((a % 8) + 97) as char);
    assert(s[1] == ((a / 8) + 49) as char);
    assert(s[2] == ((b % 8) + 97) as char);
    assert(s[3] == ((b / 8) + 49) as char);
    assert(square_of(s[0], s[1]) == Some(a));
    assert(square_of(s[2], s[3]) == Some(b));
    match m.promotion {
        Some(p) => {
            assert(s[4] == promotion_char(p));
            assert(promotion_of(s[4]) == Some(p));
        },
        None => {},
    }
}

} // verus!
