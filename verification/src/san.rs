//! Short algebraic notation of a move, in French or English piece letters.
use vstd::prelude::*;
use crate::bitboard_move::{BitBoardMove, Castle, castle_of, is_en_passant};
use crate::fen::{dec_chars, push_dec};
use crate::square::{TypePiece, promotion_piece};

verus! {

/// The language of the piece letters.
#[derive(Debug, Copy, Clone, PartialEq, Eq, Structural)]
pub enum Lang {
    LangFr,
    LangEn,
}

/// A move written in short algebraic notation.
#[derive(Debug)]
pub struct San {
    pub info: String,
}

impl San {
    pub fn new(info: String) -> (r: Self)
        ensures
            r.info@ == info@,
    {
        San { info }
    }

    pub fn info(&self) -> (r: &String)
        ensures
            r@ == self.info@,
    {
        &self.info
    }
}

/// The letter of column `col` (0 = a).
pub open spec fn col_char(col: int) -> char {
    (97 + col) as char
}

/// The letter of a piece kind: rook T/R, bishop F/B, knight C/N, queen D/Q,
/// king R/K (French/English); a pawn has none.
pub open spec fn piece_char(t: TypePiece, lang: Lang) -> Option<char> {
    let fr = lang == Lang::LangFr;
    match t {
        TypePiece::Rook => Some(if fr { 'T' } else { 'R' }),
        TypePiece::Bishop => Some(if fr { 'F' } else { 'B' }),
        TypePiece::Knight => Some(if fr { 'C' } else { 'N' }),
        TypePiece::Queen => Some(if fr { 'D' } else { 'Q' }),
        TypePiece::King => Some(if fr { 'R' } else { 'K' }),
        TypePiece::Pawn => None,
    }
}

/// The letter of a piece kind, as text (empty for a pawn).
pub open spec fn piece_text(t: TypePiece, lang: Lang) -> Seq<char> {
    match piece_char(t, lang) {
        Some(c) => seq![c],
        None => Seq::empty(),
    }
}

/// Another move of `moves` of the same kind of piece reaches the same square
/// from another square.
pub open spec fn ambiguous(m: BitBoardMove, moves: Seq<BitBoardMove>) -> bool {
    exists|k: int|
        0 <= k < moves.len() && #[trigger] moves[k].end == m.end && moves[k].start != m.start
            && moves[k].type_piece == m.type_piece
}

/// The notation of `m` among `moves`: `o-o` and `o-o-o` for the castles; else
/// the piece letter (none for a pawn), the column of the end square when another
/// move of the same kind reaches it, `x` for a capture (after the start column
/// for a pawn), the end square, and `=` with the piece letter for a promotion.
pub open spec fn san_chars(m: BitBoardMove, moves: Seq<BitBoardMove>, lang: Lang) -> Seq<char> {
    match castle_of(m) {
        Some(Castle::Short) => seq!['o', '-', 'o'],
        Some(Castle::Long) => seq!['o', '-', 'o', '-', 'o'],
        None => {
            let row = m.end.0 / 8;
            let col = m.end.0 % 8;
            let capture = if m.capture is Some || is_en_passant(m) {
                if m.type_piece == TypePiece::Pawn {
                    seq![col_char((m.start.0 % 8) as int), 'x']
                } else {
                    seq!['x']
                }
            } else {
                Seq::empty()
            };
            let to = capture + seq![col_char(col as int)] + dec_chars((row + 1) as nat);
            let piece = piece_text(m.type_piece, lang);
            if m.type_piece != TypePiece::Pawn {
                if ambiguous(m, moves) {
                    piece + seq![col_char(col as int)] + to
                } else {
                    piece + to
                }
            } else {
                let promotion = match m.promotion {
                    Some(p) => seq!['=', piece_char(promotion_piece(p), lang).unwrap()],
                    None => Seq::empty(),
                };
                piece + to + promotion
            }
        },
    }
}

/// The letter of column `col`.
pub fn col_as_char(col: u8) -> (r: char)
    requires
        col < 8,
    ensures
        r == col_char(col as int),
{
    if col == 0 {
        'a'
    } else if col == 1 {
        'b'
    } else if col == 2 {
        'c'
    } else if col == 3 {
        'd'
    } else if col == 4 {
        'e'
    } else if col == 5 {
        'f'
    } else if col == 6 {
        'g'
    } else {
        'h'
    }
}

/// Appends `capture`, the column letter and the row number of a square.
fn push_square(v: &mut Vec<char>, row: u8, col: u8, capture: &Vec<char>)
    requires
        col < 8,
        row < 255,
    ensures
        final(v)@ == old(v)@ + (capture@ + seq![col_char(col as int)] + dec_chars((row + 1) as nat)),
{
    let mut i: usize = 0;
    while i < capture.len()
        invariant
            i <= capture@.len(),
            v@ == old(v)@ + capture@.subrange(0, i as int),
        decreases capture@.len() - i,
    {
        v.push(capture[i]);
        proof {
            assert(capture@.subrange(0, i + 1) =~= capture@.subrange(0, i as int).push(capture@[i as int]));
        }
        i = i + 1;
    }
    proof {
        assert(capture@.subrange(0, capture@.len() as int) =~= capture@);
    }
    v.push(col_as_char(col));
    push_dec(v, (row + 1) as u32);
    proof {
        assert(final(v)@ =~= old(v)@ + (capture@ + seq![col_char(col as int)] + dec_chars((row + 1) as nat)));
    }
}

/// The letter of a piece kind (none for a pawn).
pub fn piece_to_char(type_piece: TypePiece, lang: &Lang) -> (r: Option<char>)
    ensures
        r == piece_char(type_piece, *lang),
{
    let fr = *lang == Lang::LangFr;
    match type_piece {
        TypePiece::Rook => Some(if fr { 'T' } else { 'R' }),
        TypePiece::Bishop => Some(if fr { 'F' } else { 'B' }),
        TypePiece::Knight => Some(if fr { 'C' } else { 'N' }),
        TypePiece::Queen => Some(if fr { 'D' } else { 'Q' }),
        TypePiece::King => Some(if fr { 'R' } else { 'K' }),
        TypePiece::Pawn => None,
    }
}

/// The notation of `move_to_translate`; `moves` are all the moves of the
/// position, to tell apart two pieces of a kind reaching the same square.
pub fn san_to_str(move_to_translate: &BitBoardMove, moves: &Vec<BitBoardMove>, lang: &Lang) -> (r: San)
    ensures
        r.info@ == san_chars(*move_to_translate, moves@, *lang),
{
    let m = move_to_translate;
    let to = m.end();
    let mut text: Vec<char> = Vec::new();
    match m.check_castle() {
        Some(Castle::Short) => {
            text.push('o');
            text.push('-');
            text.push('o');
            proof {
                assert(text@ =~= seq!['o', '-', 'o']);
            }
            return San::new(crate::text::chars_to_string(&text));
        },
        Some(Castle::Long) => {
            text.push('o');
            text.push('-');
            text.push('o');
            text.push('-');
            text.push('o');
            proof {
                assert(text@ =~= seq!['o', '-', 'o', '-', 'o']);
            }
            return San::new(crate::text::chars_to_string(&text));
        },
        None => {},
    }
    let mut another: Option<BitBoardMove> = None;
    let mut k: usize = 0;
    while k < moves.len() && another.is_none()
        invariant
            k <= moves@.len(),
            to == m.end,
            another is None ==> forall|j: int|
                0 <= j < k ==> !(#[trigger] moves@[j].end == m.end && moves@[j].start != m.start
                    && moves@[j].type_piece == m.type_piece),
            another is Some ==> ambiguous(*m, moves@),
            another matches Some(a) ==> a.end == m.end,
        decreases moves@.len() - k,
    {
        let c = moves[k];
        if c.end() == to && c.start() != m.start() && c.type_piece() == m.type_piece() {
            another = Some(c);
        }
        k = k + 1;
    }
    proof {
        if another is None {
            assert(!ambiguous(*m, moves@));
        }
    }
    let row = to.0 / 8;
    let col = to.0 % 8;
    let mut capture: Vec<char> = Vec::new();
    if m.capture().is_some() || m.is_capture_en_passant() {
        if m.type_piece() == TypePiece::Pawn {
            capture.push(col_as_char(m.start().0 % 8));
        }
        capture.push('x');
    }
    let piece_char_opt = piece_to_char(m.type_piece(), lang);
    match piece_char_opt {
        Some(c) => text.push(c),
        None => {},
    }
    if m.type_piece() != TypePiece::Pawn {
        match another {
            Some(another_move) => {
                let row_2 = another_move.end().0 / 8;
                let col_2 = another_move.end().0 % 8;
                if row_2 == row {
                    text.push(col_as_char(col_2));
                    push_square(&mut text, row, col, &capture);
                } else {
                    push_dec(&mut text, (row_2 + 1) as u32);
                    push_square(&mut text, row, col, &capture);
                }
            },
            None => {
                push_square(&mut text, row, col, &capture);
            },
        }
    } else {
        push_square(&mut text, row, col, &capture);
        match m.promotion() {
            Some(new_piece) => {
                text.push('=');
                match piece_to_char(new_piece.as_type_piece(), lang) {
                    Some(c) => text.push(c),
                    None => {},
                }
            },
            None => {},
        }
    }
    proof {
        assert(text@ =~= san_chars(*m, moves@, *lang));
    }
    San::new(crate::text::chars_to_string(&text))
}

/// Every piece but the pawn has a letter, distinct kinds have distinct letters
/// in each language, and the pawn has none; the English letters are K, Q, R,
/// B and N, the French ones R, D, T, F and C.
pub proof fn lemma_piece_letters(t1: TypePiece, t2: TypePiece, lang: Lang)
    ensures
        (t1 == TypePiece::Pawn) == (piece_char(t1, lang) is None),
        t1 != t2 && piece_char(t1, lang) is Some ==> piece_char(t1, lang) != piece_char(t2, lang),
        piece_char(TypePiece::King, Lang::LangEn) == Some('K'),
        piece_char(TypePiece::Queen, Lang::LangEn) == Some('Q'),
        piece_char(TypePiece::Rook, Lang::LangEn) == Some('R'),
        piece_char(TypePiece::Bishop, Lang::LangEn) == Some('B'),
        piece_char(TypePiece::Knight, Lang::LangEn) == Some('N'),
        piece_char(TypePiece::King, Lang::LangFr) == Some('R'),
        piece_char(TypePiece::Queen, Lang::LangFr) == Some('D'),
        piece_char(TypePiece::Rook, Lang::LangFr) == Some('T'),
        piece_char(TypePiece::Bishop, Lang::LangFr) == Some('F'),
        piece_char(TypePiece::Knight, Lang::LangFr) == Some('C'),
{
}

} // verus!
