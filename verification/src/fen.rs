//! Positions and their FEN text.
use vstd::prelude::*;
use crate::board::{Board, ChessBoard, initial_square};
use crate::coord::{Coord, InvalidCoordError};
use crate::square::{Color, Piece, Square, TypePiece};

verus! {

/// Castling rights, side to move, en passant square and move counters of a position.
#[derive(Debug, Copy, Clone, PartialEq, Eq, Structural)]
pub struct PositionStatus {
    pub castling_white_queen_side: bool,
    pub castling_white_king_side: bool,
    pub castling_black_queen_side: bool,
    pub castling_black_king_side: bool,
    pub player_turn: Color,
    pub pawn_en_passant: Option<Coord>,
    pub n_half_moves: u16,
    pub n_moves: u16,
}

impl PositionStatus {
    /// The en passant square, if any, names a square.
    pub open spec fn wf(&self) -> bool {
        self.pawn_en_passant matches Some(c) ==> c.wf()
    }

    /// No castling right, White to move, no en passant square, counters at zero.
    pub fn new() -> (r: Self)
        ensures
            r == (PositionStatus {
                castling_white_queen_side: false,
                castling_white_king_side: false,
                castling_black_queen_side: false,
                castling_black_king_side: false,
                player_turn: Color::White,
                pawn_en_passant: None,
                n_half_moves: 0,
                n_moves: 0,
            }),
    {
        PositionStatus {
            castling_white_queen_side: false,
            castling_white_king_side: false,
            castling_black_queen_side: false,
            castling_black_king_side: false,
            player_turn: Color::White,
            pawn_en_passant: None,
            n_half_moves: 0,
            n_moves: 0,
        }
    }

    pub fn castling_white_queen_side(&self) -> (r: bool)
        ensures
            r == self.castling_white_queen_side,
    {
        self.castling_white_queen_side
    }

    pub fn castling_white_king_side(&self) -> (r: bool)
        ensures
            r == self.castling_white_king_side,
    {
        self.castling_white_king_side
    }

    pub fn castling_black_queen_side(&self) -> (r: bool)
        ensures
            r == self.castling_black_queen_side,
    {
        self.castling_black_queen_side
    }

    pub fn castling_black_king_side(&self) -> (r: bool)
        ensures
            r == self.castling_black_king_side,
    {
        self.castling_black_king_side
    }

    pub fn player_turn(&self) -> (r: Color)
        ensures
            r == self.player_turn,
    {
        self.player_turn
    }

    pub fn pawn_en_passant(&self) -> (r: Option<Coord>)
        ensures
            r == self.pawn_en_passant,
    {
        self.pawn_en_passant
    }

    pub fn n_half_moves(&self) -> (r: u16)
        ensures
            r == self.n_half_moves,
    {
        self.n_half_moves
    }

    pub fn n_moves(&self) -> (r: u16)
        ensures
            r == self.n_moves,
    {
        self.n_moves
    }

    pub fn set_castling_white_queen_side(&mut self, value: bool)
        ensures
            *final(self) == (PositionStatus { castling_white_queen_side: value, ..*old(self) }),
    {
        self.castling_white_queen_side = value;
    }

    pub fn set_castling_white_king_side(&mut self, value: bool)
        ensures
            *final(self) == (PositionStatus { castling_white_king_side: value, ..*old(self) }),
    {
        self.castling_white_king_side = value;
    }

    pub fn set_castling_black_queen_side(&mut self, value: bool)
        ensures
            *final(self) == (PositionStatus { castling_black_queen_side: value, ..*old(self) }),
    {
        self.castling_black_queen_side = value;
    }

    pub fn set_castling_black_king_side(&mut self, value: bool)
        ensures
            *final(self) == (PositionStatus { castling_black_king_side: value, ..*old(self) }),
    {
        self.castling_black_king_side = value;
    }

    pub fn set_player_turn(&mut self, value: Color)
        ensures
            *final(self) == (PositionStatus { player_turn: value, ..*old(self) }),
    {
        self.player_turn = value;
    }

    pub fn set_pawn_en_passant(&mut self, value: Option<Coord>)
        ensures
            *final(self) == (PositionStatus { pawn_en_passant: value, ..*old(self) }),
    {
        self.pawn_en_passant = value;
    }

    pub fn set_n_half_moves(&mut self, value: u16)
        ensures
            *final(self) == (PositionStatus { n_half_moves: value, ..*old(self) }),
    {
        self.n_half_moves = value;
    }

    pub fn set_n_moves(&mut self, value: u16)
        ensures
            *final(self) == (PositionStatus { n_moves: value, ..*old(self) }),
    {
        self.n_moves = value;
    }
}

/// A position: the board and its status.
#[derive(Debug, Copy, Clone, PartialEq, Eq)]
pub struct Position {
    pub chessboard: ChessBoard,
    pub status: PositionStatus,
}

impl Position {
    /// The starting position: pieces in place, all castling rights, White to move,
    /// no en passant square, no half move, move 1.
    pub fn new() -> (r: Position)
        ensures
            forall|i: int| 0 <= i < 64 ==> #[trigger] r.chessboard.squares@[i] == initial_square(i),
            r.status == (PositionStatus {
                castling_white_queen_side: true,
                castling_white_king_side: true,
                castling_black_queen_side: true,
                castling_black_king_side: true,
                player_turn: Color::White,
                pawn_en_passant: None,
                n_half_moves: 0,
                n_moves: 1,
            }),
    {
        let mut chessboard = ChessBoard::new();
        chessboard.set_initial_position();
        Position {
            chessboard,
            status: PositionStatus {
                castling_white_queen_side: true,
                castling_white_king_side: true,
                castling_black_queen_side: true,
                castling_black_king_side: true,
                player_turn: Color::White,
                pawn_en_passant: None,
                n_half_moves: 0,
                n_moves: 1,
            },
        }
    }

    pub fn build(chessboard: ChessBoard, status: PositionStatus) -> (r: Position)
        ensures
            r == (Position { chessboard, status }),
    {
        Position { chessboard, status }
    }

    /// A copy of the board.
    pub fn chessboard(&self) -> (r: ChessBoard)
        ensures
            r == self.chessboard,
    {
        self.chessboard
    }

    pub fn into_chessboard(self) -> (r: ChessBoard)
        ensures
            r == self.chessboard,
    {
        self.chessboard
    }

    pub fn status(&self) -> (r: &PositionStatus)
        ensures
            *r == self.status,
    {
        &self.status
    }
}

/// Why a FEN text was refused.
#[derive(Debug, Clone, PartialEq, Eq)]
pub enum FenError {
    InvalidInput(String),
    InvalidPiece(char),
    InvalidPosition,
    InvalidEnPassantCapture(String),
    ParseError(String),
}

/// The FEN letter of a piece: upper case for White, lower case for Black.
pub open spec fn piece_letter(t: TypePiece, c: Color) -> char {
    let l = match t {
        TypePiece::Rook => 'r',
        TypePiece::Knight => 'n',
        TypePiece::Bishop => 'b',
        TypePiece::Queen => 'q',
        TypePiece::King => 'k',
        TypePiece::Pawn => 'p',
    };
    if c == Color::White {
        ((l as u32) - 32) as char
    } else {
        l
    }
}

/// The decimal digit character of `n` (0..=9).
pub open spec fn digit_char(n: int) -> char {
    (n + 48) as char
}

/// The decimal text of `n`, without leading zeros.
pub open spec fn dec_chars(n: nat) -> Seq<char>
    decreases n,
{
    if n < 10 {
        seq![digit_char(n as int)]
    } else {
        dec_chars(n / 10) + seq![digit_char((n % 10) as int)]
    }
}

/// The FEN text of board row `row` from column `col` on, `empties` empty squares
/// being pending just before `col`.
pub open spec fn rank_chars(b: ChessBoard, row: int, col: int, empties: int) -> Seq<char>
    decreases 8 - col,
{
    if col >= 8 {
        if empties > 0 {
            seq![digit_char(empties)]
        } else {
            Seq::empty()
        }
    } else {
        match b.squares@[row * 8 + col] {
            Square::Empty => rank_chars(b, row, col + 1, empties + 1),
            Square::NonEmpty(p) => (if empties > 0 {
                seq![digit_char(empties)]
            } else {
                Seq::empty()
            }) + seq![piece_letter(p.type_piece, p.color)] + rank_chars(b, row, col + 1, 0),
        }
    }
}

/// The FEN text of the first `k` rows listed from row 8 downward, separated by '/'.
pub open spec fn board_chars(b: ChessBoard, k: int) -> Seq<char>
    decreases k,
{
    if k <= 0 {
        Seq::empty()
    } else if k == 1 {
        rank_chars(b, 7, 0, 0)
    } else {
        board_chars(b, k - 1) + seq!['/'] + rank_chars(b, 8 - k, 0, 0)
    }
}

/// The castling field: the letters K, Q, k, q of the rights held, or '-'.
pub open spec fn castling_chars(s: PositionStatus) -> Seq<char> {
    let c = (if s.castling_white_king_side { seq!['K'] } else { Seq::empty() }) + (
    if s.castling_white_queen_side {
        seq!['Q']
    } else {
        Seq::empty()
    }) + (if s.castling_black_king_side {
        seq!['k']
    } else {
        Seq::empty()
    }) + (if s.castling_black_queen_side {
        seq!['q']
    } else {
        Seq::empty()
    });
    if c.len() == 0 {
        seq!['-']
    } else {
        c
    }
}

/// The en passant field: column letter and row number, or '-'.
pub open spec fn en_passant_chars(s: PositionStatus) -> Seq<char> {
    match s.pawn_en_passant {
        Some(c) => seq![c.col] + dec_chars(c.row as nat),
        None => seq!['-'],
    }
}

/// The FEN text of a position.
pub open spec fn fen_chars(p: Position) -> Seq<char> {
    board_chars(p.chessboard, 8) + seq![' '] + seq![
        if p.status.player_turn == Color::White {
            'w'
        } else {
            'b'
        },
    ] + seq![' '] + castling_chars(p.status) + seq![' '] + en_passant_chars(p.status) + seq![' ']
        + dec_chars(p.status.n_half_moves as nat) + seq![' '] + dec_chars(p.status.n_moves as nat)
}

/// The FEN letter of a piece.
pub fn square_to_char(piece: TypePiece, color: Color) -> (r: char)
    ensures
        r == piece_letter(piece, color),
{
    match (piece, color) {
        (TypePiece::Rook, Color::White) => 'R',
        (TypePiece::Knight, Color::White) => 'N',
        (TypePiece::Bishop, Color::White) => 'B',
        (TypePiece::Queen, Color::White) => 'Q',
        (TypePiece::King, Color::White) => 'K',
        (TypePiece::Pawn, Color::White) => 'P',
        (TypePiece::Rook, Color::Black) => 'r',
        (TypePiece::Knight, Color::Black) => 'n',
        (TypePiece::Bishop, Color::Black) => 'b',
        (TypePiece::Queen, Color::Black) => 'q',
        (TypePiece::King, Color::Black) => 'k',
        (TypePiece::Pawn, Color::Black) => 'p',
    }
}

/// The square a FEN piece letter stands for; `None` for any other character.
pub fn char_to_square(c: char) -> (r: Option<Square>)
    ensures
        r == letter_square(c),
        r matches Some(s) ==> s matches Square::NonEmpty(p) && piece_letter(p.type_piece, p.color) == c,
        (exists|t: TypePiece, col: Color| piece_letter(t, col) == c) ==> r is Some,
{
    let black = Color::Black;
    let white = Color::White;
    let r = match c {
        'r' => Some(Square::build_piece(TypePiece::Rook, black)),
        'n' => Some(Square::build_piece(TypePiece::Knight, black)),
        'b' => Some(Square::build_piece(TypePiece::Bishop, black)),
        'q' => Some(Square::build_piece(TypePiece::Queen, black)),
        'k' => Some(Square::build_piece(TypePiece::King, black)),
        'p' => Some(Square::build_piece(TypePiece::Pawn, black)),
        'R' => Some(Square::build_piece(TypePiece::Rook, white)),
        'N' => Some(Square::build_piece(TypePiece::Knight, white)),
        'B' => Some(Square::build_piece(TypePiece::Bishop, white)),
        'Q' => Some(Square::build_piece(TypePiece::Queen, white)),
        'K' => Some(Square::build_piece(TypePiece::King, white)),
        'P' => Some(Square::build_piece(TypePiece::Pawn, white)),
        _ => None,
    };
    proof {
        if exists|t: TypePiece, col: Color| piece_letter(t, col) == c {
            let (t, col) = choose|t: TypePiece, col: Color| piece_letter(t, col) == c;
            match t {
                TypePiece::Rook => {},
                TypePiece::Knight => {},
                TypePiece::Bishop => {},
                TypePiece::Queen => {},
                TypePiece::King => {},
                TypePiece::Pawn => {},
            }
        }
    }
    r
}

/// Appends the decimal text of `n`.
pub fn push_dec(v: &mut Vec<char>, n: u32)
    ensures
        final(v)@ == old(v)@ + dec_chars(n as nat),
    decreases n,
{
    if n >= 10 {
        push_dec(v, n / 10);
    }
    let d = digit(n % 10);
    v.push(d);
    proof {
        assert(final(v)@ =~= old(v)@ + dec_chars(n as nat));
    }
}

/// The character of decimal digit `d`.
pub fn digit(d: u32) -> (r: char)
    requires
        d < 10,
    ensures
        r == digit_char(d as int),
{
    if d == 0 {
        '0'
    } else if d == 1 {
        '1'
    } else if d == 2 {
        '2'
    } else if d == 3 {
        '3'
    } else if d == 4 {
        '4'
    } else if d == 5 {
        '5'
    } else if d == 6 {
        '6'
    } else if d == 7 {
        '7'
    } else if d == 8 {
        '8'
    } else {
        '9'
    }
}

/// Appends the FEN text of board row `row`.
fn push_rank(v: &mut Vec<char>, b: &ChessBoard, row: usize)
    requires
        row < 8,
    ensures
        final(v)@ == old(v)@ + rank_chars(*b, row as int, 0, 0),
{
    let mut col: usize = 0;
    let mut empties: u32 = 0;
    while col < 8
        invariant
            col <= 8,
            row < 8,
            empties <= col,
            v@ + rank_chars(*b, row as int, col as int, empties as int) == old(v)@ + rank_chars(
                *b,
                row as int,
                0,
                0,
            ),
        decreases 8 - col,
    {
        let ghost before = v@;
        match b.squares[row * 8 + col] {
            Square::Empty => {
                empties = empties + 1;
            },
            Square::NonEmpty(p) => {
                if empties > 0 {
                    v.push(digit(empties));
                }
                v.push(square_to_char(p.type_piece, p.color));
                proof {
                    assert(v@ + rank_chars(*b, row as int, col + 1, 0) =~= before + rank_chars(
                        *b,
                        row as int,
                        col as int,
                        empties as int,
                    ));
                }
                empties = 0;
            },
        }
        col = col + 1;
    }
    let ghost before = v@;
    if empties > 0 {
        v.push(digit(empties));
    }
    proof {
        assert(v@ =~= before + rank_chars(*b, row as int, 8, empties as int));
    }
}

/// Appends the FEN text of the board.
fn push_board(result: &mut Vec<char>, b: &ChessBoard)
    ensures
        final(result)@ == old(result)@ + board_chars(*b, 8),
{
    let ghost start = result@;
    let mut k: usize = 1;
    push_rank(result, b, 7);
    proof {
        assert(result@ =~= start + board_chars(*b, 1));
    }
    while k < 8
        invariant
            1 <= k <= 8,
            result@ == start + board_chars(*b, k as int),
        decreases 8 - k,
    {
        result.push('/');
        push_rank(result, b, 7 - k);
        k = k + 1;
        proof {
            assert(result@ =~= start + board_chars(*b, k as int));
        }
    }
}

/// Appends the castling field.
fn push_castling(result: &mut Vec<char>, s: &PositionStatus)
    ensures
        final(result)@ == old(result)@ + castling_chars(*s),
{
    let mut any = false;
    if s.castling_white_king_side {
        result.push('K');
        any = true;
    }
    if s.castling_white_queen_side {
        result.push('Q');
        any = true;
    }
    if s.castling_black_king_side {
        result.push('k');
        any = true;
    }
    if s.castling_black_queen_side {
        result.push('q');
        any = true;
    }
    if !any {
        result.push('-');
    }
    proof {
        assert(final(result)@ =~= old(result)@ + castling_chars(*s));
    }
}

/// Appends the en passant field.
fn push_en_passant(result: &mut Vec<char>, s: &PositionStatus)
    ensures
        final(result)@ == old(result)@ + en_passant_chars(*s),
{
    match s.pawn_en_passant {
        Some(coord) => {
            result.push(coord.col);
            push_dec(result, coord.row as u32);
        },
        None => {
            result.push('-');
        },
    }
    proof {
        assert(final(result)@ =~= old(result)@ + en_passant_chars(*s));
    }
}

/// The FEN text of a position, as characters.
pub fn encode_chars(position: &Position) -> (r: Vec<char>)
    ensures
        r@ == fen_chars(*position),
{
    let mut result: Vec<char> = Vec::new();
    push_board(&mut result, &position.chessboard);
    let s = &position.status;
    result.push(' ');
    result.push(
        match s.player_turn {
            Color::White => 'w',
            Color::Black => 'b',
        },
    );
    result.push(' ');
    push_castling(&mut result, s);
    result.push(' ');
    push_en_passant(&mut result, s);
    result.push(' ');
    push_dec(&mut result, s.n_half_moves as u32);
    result.push(' ');
    push_dec(&mut result, s.n_moves as u32);
    proof {
        assert(result@ =~= fen_chars(*position));
    }
    result
}


/// A whitespace character, as `char::is_whitespace` classifies it.
pub open spec fn is_space(c: char) -> bool {
    c == ' ' || c == '\t' || c == '\n' || c == '\x0B' || c == '\x0C' || c == '\r'
        || c == '\u{85}' || c == '\u{A0}' || c == '\u{1680}' || ('\u{2000}' <= c <= '\u{200A}')
        || c == '\u{2028}' || c == '\u{2029}' || c == '\u{202F}' || c == '\u{205F}'
        || c == '\u{3000}'
}

/// The whitespace-separated fields of `s`.
pub open spec fn fields(s: Seq<char>) -> Seq<Seq<char>>
    decreases s.len(),
{
    fields_from(s, Seq::empty())
}

/// The fields of `s` when `cur` holds the characters of a field begun before `s`.
pub open spec fn fields_from(s: Seq<char>, cur: Seq<char>) -> Seq<Seq<char>>
    decreases s.len(),
{
    if s.len() == 0 {
        if cur.len() > 0 {
            seq![cur]
        } else {
            Seq::empty()
        }
    } else if is_space(s[0]) {
        (if cur.len() > 0 {
            seq![cur]
        } else {
            Seq::empty()
        }) + fields_from(s.drop_first(), Seq::empty())
    } else {
        fields_from(s.drop_first(), cur.push(s[0]))
    }
}

/// The value of a text of decimal digits.
pub open spec fn digits_value(s: Seq<char>) -> int
    decreases s.len(),
{
    if s.len() == 0 {
        0
    } else {
        digits_value(s.drop_last()) * 10 + (s.last() as int - 48)
    }
}

/// Every character is a decimal digit.
pub open spec fn all_digits(s: Seq<char>) -> bool {
    forall|k: int| 0 <= k < s.len() ==> '0' <= #[trigger] s[k] <= '9'
}

/// The number a field denotes as `str::parse::<u16>` reads it: an optional '+'
/// then at least one digit, the value fitting in 16 bits.
pub open spec fn parse_u16_spec(s: Seq<char>) -> Option<u16> {
    let body = if s.len() > 0 && s[0] == '+' {
        s.drop_first()
    } else {
        s
    };
    if body.len() > 0 && all_digits(body) && digits_value(body) <= 65535 {
        Some(digits_value(body) as u16)
    } else {
        None
    }
}

/// The fields of the text, split at whitespace.
pub fn split_fields(s: &Vec<char>) -> (r: Vec<Vec<char>>)
    ensures
        r@.len() == fields(s@).len(),
        forall|k: int| 0 <= k < r@.len() ==> #[trigger] r@[k]@ == fields(s@)[k],
{
    let mut out: Vec<Vec<char>> = Vec::new();
    let mut cur: Vec<char> = Vec::new();
    let mut i: usize = 0;
    proof {
        assert(s@.subrange(0, s@.len() as int) =~= s@);
        assert(Seq::new(out@.len(), |k: int| out@[k]@) =~= Seq::<Seq<char>>::empty());
        assert(cur@ =~= Seq::<char>::empty());
    }
    while i < s.len()
        invariant
            i <= s@.len(),
            ({
                let outv = Seq::new(out@.len(), |k: int| out@[k]@);
                outv + fields_from(s@.subrange(i as int, s@.len() as int), cur@) == fields(s@)
            }),
        decreases s@.len() - i,
    {
        let ghost outv0 = Seq::new(out@.len(), |k: int| out@[k]@);
        let ghost rest = s@.subrange(i as int, s@.len() as int);
        let c = s[i];
        proof {
            assert(rest.drop_first() =~= s@.subrange(i + 1, s@.len() as int));
            assert(rest[0] == c);
        }
        if is_whitespace(c) {
            if cur.len() > 0 {
                let ghost cur0 = cur@;
                out.push(cur);
                cur = Vec::new();
                proof {
                    let outv = Seq::new(out@.len(), |k: int| out@[k]@);
                    assert(outv =~= outv0 + seq![cur0]);
                    assert(outv0 + fields_from(rest, cur0) =~= outv + fields_from(
                        s@.subrange(i + 1, s@.len() as int),
                        cur@,
                    ));
                }
            } else {
                proof {
                    let outv = Seq::new(out@.len(), |k: int| out@[k]@);
                    assert(outv =~= outv0);
                    assert(cur@ =~= Seq::<char>::empty());
                    assert(Seq::<Seq<char>>::empty() + fields_from(rest.drop_first(), Seq::empty()) =~= fields_from(rest.drop_first(), Seq::empty()));
                    assert(fields_from(rest, cur@) =~= fields_from(
                        s@.subrange(i + 1, s@.len() as int),
                        cur@,
                    ));
                }
            }
        } else {
            cur.push(c);
            proof {
                let outv = Seq::new(out@.len(), |k: int| out@[k]@);
                assert(outv =~= outv0);
            }
        }
        i = i + 1;
    }
    let ghost outv0 = Seq::new(out@.len(), |k: int| out@[k]@);
    if cur.len() > 0 {
        out.push(cur);
    }
    proof {
        let outv = Seq::new(out@.len(), |k: int| out@[k]@);
        assert(s@.subrange(s@.len() as int, s@.len() as int) =~= Seq::<char>::empty());
        assert(outv =~= fields(s@));
    }
    out
}

/// A whitespace character, as `char::is_whitespace` classifies it.
pub fn is_whitespace(c: char) -> (r: bool)
    ensures
        r == is_space(c),
{
    c == ' ' || c == '\t' || c == '\n' || c == '\x0B' || c == '\x0C' || c == '\r'
        || c == '\u{85}' || c == '\u{A0}' || c == '\u{1680}' || ('\u{2000}' <= c && c <= '\u{200A}')
        || c == '\u{2028}' || c == '\u{2029}' || c == '\u{202F}' || c == '\u{205F}'
        || c == '\u{3000}'
}

/// Reads a field as `str::parse::<u16>` does.
pub fn parse_u16(s: &Vec<char>) -> (r: Option<u16>)
    ensures
        r == parse_u16_spec(s@),
{
    let start: usize = if s.len() > 0 && s[0] == '+' { 1 } else { 0 };
    let ghost body = if s@.len() > 0 && s@[0] == '+' { s@.drop_first() } else { s@ };
    if start >= s.len() {
        return None;
    }
    let mut value: u32 = 0;
    let mut i: usize = start;
    while i < s.len()
        invariant
            start <= i <= s@.len(),
            body == s@.subrange(start as int, s@.len() as int),
            body == (if s@.len() > 0 && s@[0] == '+' { s@.drop_first() } else { s@ }),
            all_digits(s@.subrange(start as int, i as int)),
            value == digits_value(s@.subrange(start as int, i as int)),
            value <= 65535,
        decreases s@.len() - i,
    {
        let c = s[i];
        proof {
            assert(s@.subrange(start as int, i + 1).drop_last() =~= s@.subrange(start as int, i as int));
        }
        if c < '0' || c > '9' {
            proof {
                assert(body[i - start] == c);
                assert(!('0' <= body[i - start] <= '9'));
                assert(!all_digits(body));
                assert(body == (if s@.len() > 0 && s@[0] == '+' { s@.drop_first() } else { s@ }));
            }
            return None;
        }
        let d: u32 = (c as u32) - 48;
        if value * 10 + d > 65535 {
            proof {
                if all_digits(body) {
                    assert(body.subrange(0, i - start + 1) =~= s@.subrange(start as int, i + 1));
                    assert(s@.subrange(start as int, i + 1).last() == c);
                    lemma_digits_prefix_bound(body, (i - start + 1) as int);
                    assert(digits_value(body) > 65535);
                }
                assert(body == (if s@.len() > 0 && s@[0] == '+' { s@.drop_first() } else { s@ }));
            }
            return None;
        }
        value = value * 10 + d;
        i = i + 1;
    }
    proof {
        assert(s@.subrange(start as int, s@.len() as int) =~= body);
    }
    Some(value as u16)
}

/// A digit text is worth at least any of its prefixes.
proof fn lemma_digits_prefix_bound(s: Seq<char>, n: int)
    requires
        0 <= n <= s.len(),
        all_digits(s),
    ensures
        digits_value(s) >= digits_value(s.subrange(0, n)),
    decreases s.len(),
{
    if n < s.len() {
        assert(s.drop_last().subrange(0, n) =~= s.subrange(0, n));
        assert(all_digits(s.drop_last()));
        lemma_digits_prefix_bound(s.drop_last(), n);
        lemma_digits_nonneg(s.drop_last());
    } else {
        assert(s.subrange(0, n) =~= s);
    }
}

proof fn lemma_digits_nonneg(s: Seq<char>)
    requires
        all_digits(s),
    ensures
        digits_value(s) >= 0,
    decreases s.len(),
{
    if s.len() > 0 {
        assert(all_digits(s.drop_last()));
        lemma_digits_nonneg(s.drop_last());
    }
}


/// The square a FEN piece letter stands for.
pub open spec fn letter_square(c: char) -> Option<Square> {
    if c == 'r' { Some(Square::NonEmpty(Piece { type_piece: TypePiece::Rook, color: Color::Black })) }
    else if c == 'n' { Some(Square::NonEmpty(Piece { type_piece: TypePiece::Knight, color: Color::Black })) }
    else if c == 'b' { Some(Square::NonEmpty(Piece { type_piece: TypePiece::Bishop, color: Color::Black })) }
    else if c == 'q' { Some(Square::NonEmpty(Piece { type_piece: TypePiece::Queen, color: Color::Black })) }
    else if c == 'k' { Some(Square::NonEmpty(Piece { type_piece: TypePiece::King, color: Color::Black })) }
    else if c == 'p' { Some(Square::NonEmpty(Piece { type_piece: TypePiece::Pawn, color: Color::Black })) }
    else if c == 'R' { Some(Square::NonEmpty(Piece { type_piece: TypePiece::Rook, color: Color::White })) }
    else if c == 'N' { Some(Square::NonEmpty(Piece { type_piece: TypePiece::Knight, color: Color::White })) }
    else if c == 'B' { Some(Square::NonEmpty(Piece { type_piece: TypePiece::Bishop, color: Color::White })) }
    else if c == 'Q' { Some(Square::NonEmpty(Piece { type_piece: TypePiece::Queen, color: Color::White })) }
    else if c == 'K' { Some(Square::NonEmpty(Piece { type_piece: TypePiece::King, color: Color::White })) }
    else if c == 'P' { Some(Square::NonEmpty(Piece { type_piece: TypePiece::Pawn, color: Color::White })) }
    else { None }
}

/// Where the reading of the board field stands: FEN row (0 is row 8) and column
/// of the next square, the squares read so far, and the error met, if any.
pub struct BoardReading {
    pub row: int,
    pub col: int,
    pub squares: Seq<Square>,
    pub error: Option<FenError>,
}

/// The reading state before the first character: an empty board.
pub open spec fn board_start() -> BoardReading {
    BoardReading { row: 0, col: 0, squares: Seq::new(64, |i: int| Square::Empty), error: None }
}

/// One character of the board field: a digit 1-8 skips that many squares, '/'
/// ends a row that must be full, a piece letter fills the next square; anything
/// else is an invalid piece, and a row or column out of the board an invalid position.
pub open spec fn board_step(st: BoardReading, c: char) -> BoardReading {
    if st.error is Some {
        st
    } else if '1' <= c <= '8' {
        let col = st.col + (c as int - 48);
        if col > 8 {
            BoardReading { error: Some(FenError::InvalidPosition), ..st }
        } else {
            BoardReading { col, ..st }
        }
    } else if c == '/' {
        if st.col != 8 {
            BoardReading { error: Some(FenError::InvalidPosition), ..st }
        } else {
            BoardReading { row: st.row + 1, col: 0, ..st }
        }
    } else {
        match letter_square(c) {
            Some(sq) => if st.row > 7 || st.col > 7 {
                BoardReading { error: Some(FenError::InvalidPosition), ..st }
            } else {
                BoardReading {
                    col: st.col + 1,
                    squares: st.squares.update((7 - st.row) * 8 + st.col, sq),
                    ..st
                }
            },
            None => BoardReading { error: Some(FenError::InvalidPiece(c)), ..st },
        }
    }
}

/// The reading state after the characters of `t`.
pub open spec fn board_fold(t: Seq<char>) -> BoardReading
    decreases t.len(),
{
    if t.len() == 0 {
        board_start()
    } else {
        board_step(board_fold(t.drop_last()), t.last())
    }
}

/// The board field read: the squares when the last row is complete, else the error.
pub open spec fn board_result(t: Seq<char>) -> Result<Seq<Square>, FenError> {
    let st = board_fold(t);
    match st.error {
        Some(e) => Err(e),
        None => if st.row != 7 || st.col != 8 {
            Err(FenError::InvalidPosition)
        } else {
            Ok(st.squares)
        },
    }
}

/// Reads the board field.
pub fn parse_board(t: &Vec<char>) -> (r: Result<ChessBoard, FenError>)
    ensures
        match board_result(t@) {
            Ok(sqs) => r matches Ok(b) && b.squares@ == sqs,
            Err(e) => r == Err::<ChessBoard, FenError>(e),
        },
{
    let mut board = ChessBoard::new();
    let mut row: usize = 0;
    let mut col: usize = 0;
    let mut i: usize = 0;
    proof {
        assert(board.squares@ =~= board_start().squares);
        assert(t@.subrange(0, 0) =~= Seq::<char>::empty());
    }
    while i < t.len()
        invariant
            i <= t@.len(),
            board_fold(t@.subrange(0, i as int)).error is None,
            board_fold(t@.subrange(0, i as int)).row == row,
            board_fold(t@.subrange(0, i as int)).col == col,
            board_fold(t@.subrange(0, i as int)).squares == board.squares@,
            row <= i,
            col <= 8,
        decreases t@.len() - i,
    {
        let c = t[i];
        proof {
            assert(t@.subrange(0, i + 1).drop_last() =~= t@.subrange(0, i as int));
            assert(t@.subrange(0, i + 1).last() == c);
        }
        if '1' <= c && c <= '8' {
            col = col + ((c as u32) - 48) as usize;
            if col > 8 {
                proof {
                    lemma_board_error_sticks(t@, i as int + 1);
                }
                return Err(FenError::InvalidPosition);
            }
        } else if c == '/' {
            if col != 8 {
                proof {
                    lemma_board_error_sticks(t@, i as int + 1);
                }
                return Err(FenError::InvalidPosition);
            }
            row = row + 1;
            col = 0;
        } else {
            match char_to_square(c) {
                Some(sq) => {
                    if row > 7 || col > 7 {
                        proof {
                            lemma_board_error_sticks(t@, i as int + 1);
                        }
                        return Err(FenError::InvalidPosition);
                    }
                    board.set((7 - row) * 8 + col, sq);
                    col = col + 1;
                },
                None => {
                    proof {
                        lemma_board_error_sticks(t@, i as int + 1);
                    }
                    return Err(FenError::InvalidPiece(c));
                },
            }
        }
        i = i + 1;
    }
    proof {
        assert(t@.subrange(0, t@.len() as int) =~= t@);
    }
    if row != 7 || col != 8 {
        return Err(FenError::InvalidPosition);
    }
    Ok(board)
}

/// Once the reading has failed, the remaining characters keep the error.
proof fn lemma_board_error_sticks(t: Seq<char>, n: int)
    requires
        0 <= n <= t.len(),
        board_fold(t.subrange(0, n)).error is Some,
    ensures
        board_fold(t).error == board_fold(t.subrange(0, n)).error,
    decreases t.len() - n,
{
    if n == t.len() {
        assert(t.subrange(0, n) =~= t);
    } else {
        assert(t.subrange(0, n + 1).drop_last() =~= t.subrange(0, n));
        lemma_board_error_sticks(t, n + 1);
    }
}


/// Which variant an error is: 0 invalid input, 1 invalid piece, 2 invalid
/// position, 3 invalid en passant square, 4 unreadable field.
pub open spec fn error_class(e: FenError) -> int {
    match e {
        FenError::InvalidInput(_) => 0,
        FenError::InvalidPiece(_) => 1,
        FenError::InvalidPosition => 2,
        FenError::InvalidEnPassantCapture(_) => 3,
        FenError::ParseError(_) => 4,
    }
}

/// The side to move a field names: "w" or "b".
pub open spec fn turn_field(f: Seq<char>) -> Option<Color> {
    if f == seq!['w'] {
        Some(Color::White)
    } else if f == seq!['b'] {
        Some(Color::Black)
    } else {
        None
    }
}

/// The en passant field: "-" for none, else a column letter followed by a row
/// digit (further characters ignored); an unreadable row is class 4, a square
/// off the board class 3.
pub open spec fn en_passant_field(f: Seq<char>) -> Result<Option<Coord>, int> {
    if f == seq!['-'] {
        Ok(None)
    } else if f.len() < 2 || !('0' <= f[1] <= '9') {
        Err(4)
    } else {
        let row = (f[1] as int - 48) as u8;
        if crate::coord::valid_square(f[0], row) {
            Ok(Some(Coord { col: crate::coord::upper_col(f[0]), row }))
        } else {
            Err(3)
        }
    }
}

/// The position a FEN text denotes, or the class of the error met first: six
/// whitespace-separated fields (board, side to move, castling, en passant, half
/// moves, move number), each read in that order.
pub open spec fn fen_decode(s: Seq<char>) -> Result<(Seq<Square>, PositionStatus), int> {
    let f = fields(s);
    if f.len() != 6 {
        Err(0)
    } else {
        match board_result(f[0]) {
            Err(e) => Err(error_class(e)),
            Ok(squares) => match turn_field(f[1]) {
                None => Err(4),
                Some(turn) => match en_passant_field(f[3]) {
                    Err(k) => Err(k),
                    Ok(ep) => match parse_u16_spec(f[4]) {
                        None => Err(4),
                        Some(half) => match parse_u16_spec(f[5]) {
                            None => Err(4),
                            Some(moves) => Ok(
                                (
                                    squares,
                                    PositionStatus {
                                        castling_white_king_side: f[2].contains('K'),
                                        castling_white_queen_side: f[2].contains('Q'),
                                        castling_black_king_side: f[2].contains('k'),
                                        castling_black_queen_side: f[2].contains('q'),
                                        player_turn: turn,
                                        pawn_en_passant: ep,
                                        n_half_moves: half,
                                        n_moves: moves,
                                    },
                                ),
                            ),
                        },
                    },
                },
            },
        }
    }
}

/// The field holds character `c`.
fn field_contains(f: &Vec<char>, c: char) -> (r: bool)
    ensures
        r == f@.contains(c),
{
    let mut i: usize = 0;
    while i < f.len()
        invariant
            i <= f@.len(),
            forall|k: int| 0 <= k < i ==> f@[k] != c,
        decreases f@.len() - i,
    {
        if f[i] == c {
            return true;
        }
        i = i + 1;
    }
    false
}

/// Reads the en passant field.
fn parse_en_passant(f: &Vec<char>) -> (r: Result<Option<Coord>, FenError>)
    ensures
        match en_passant_field(f@) {
            Ok(ep) => r == Ok::<Option<Coord>, FenError>(ep),
            Err(k) => r matches Err(e) && error_class(e) == k,
        },
        r matches Ok(Some(c)) ==> c.wf(),
{
    if f.len() == 1 && f[0] == '-' {
        proof {
            assert(f@ =~= seq!['-']);
        }
        return Ok(None);
    }
    proof {
        if f@ == seq!['-'] {
            assert(f@.len() == 1);
        }
    }
    if f.len() < 2 || f[1] < '0' || f[1] > '9' {
        return Err(FenError::ParseError("Invalid en passant square".to_string()));
    }
    let col = f[0];
    let row: u8 = ((f[1] as u32) - 48) as u8;
    match Coord::from(col, row) {
        Ok(coord) => Ok(Some(coord)),
        Err(_) => {
            let mut text: Vec<char> = Vec::new();
            text.push(col);
            push_dec(&mut text, row as u32);
            Err(FenError::InvalidEnPassantCapture(crate::text::chars_to_string(&text)))
        },
    }
}

/// Reads a FEN text given as characters.
pub fn decode_chars(s: &Vec<char>) -> (r: Result<Position, FenError>)
    ensures
        match fen_decode(s@) {
            Ok((sq, st)) => r matches Ok(p) && p.chessboard.squares@ == sq && p.status == st,
            Err(k) => r matches Err(e) && error_class(e) == k,
        },
        fields(s@).len() == 6 ==> (board_result(fields(s@)[0]) matches Err(e) ==> r == Err::<
            Position,
            FenError,
        >(e)),
        r matches Ok(p) ==> p.status.wf(),
{
    let parts = split_fields(s);
    if parts.len() != 6 {
        return Err(FenError::InvalidInput("FEN string must have six parts".to_string()));
    }
    let ghost f = fields(s@);
    proof {
        assert(parts@[0]@ == f[0]);
        assert(parts@[1]@ == f[1]);
        assert(parts@[2]@ == f[2]);
        assert(parts@[3]@ == f[3]);
        assert(parts@[4]@ == f[4]);
        assert(parts@[5]@ == f[5]);
    }
    let chessboard = match parse_board(&parts[0]) {
        Ok(b) => b,
        Err(e) => {
            return Err(e);
        },
    };
    let t = &parts[1];
    let player_turn = if t.len() == 1 && t[0] == 'w' {
        proof {
            assert(t@ =~= seq!['w']);
        }
        Color::White
    } else if t.len() == 1 && t[0] == 'b' {
        proof {
            assert(t@ =~= seq!['b']);
        }
        Color::Black
    } else {
        proof {
            if t@ == seq!['w'] || t@ == seq!['b'] {
                assert(t@.len() == 1);
            }
        }
        return Err(FenError::ParseError("Invalid player turn symbol".to_string()));
    };
    let pawn_en_passant = match parse_en_passant(&parts[3]) {
        Ok(ep) => ep,
        Err(e) => {
            return Err(e);
        },
    };
    let half_moves = match parse_u16(&parts[4]) {
        Some(v) => v,
        None => {
            return Err(FenError::ParseError("Failed to parse half-moves".to_string()));
        },
    };
    let moves = match parse_u16(&parts[5]) {
        Some(v) => v,
        None => {
            return Err(FenError::ParseError("Failed to parse full move number".to_string()));
        },
    };
    let c = &parts[2];
    let position = Position {
        chessboard,
        status: PositionStatus {
            castling_white_king_side: field_contains(c, 'K'),
            castling_white_queen_side: field_contains(c, 'Q'),
            castling_black_king_side: field_contains(c, 'k'),
            castling_black_queen_side: field_contains(c, 'q'),
            player_turn,
            pawn_en_passant,
            n_half_moves: half_moves,
            n_moves: moves,
        },
    };
    Ok(position)
}

/// FEN reading and writing.
pub struct Fen;

/// A text form of a position that can be read and written.
pub trait EncodeUserInput {
    /// Reads a position from its text.
    fn decode(input: &str) -> Result<Position, FenError>;

    /// Writes a position as text.
    fn encode(position: &Position) -> Result<String, FenError>;
}

impl EncodeUserInput for Fen {
    /// Reads a FEN text.
    fn decode(fen: &str) -> (r: Result<Position, FenError>)
        ensures
            match fen_decode(fen@) {
                Ok((sq, st)) => r matches Ok(p) && p.chessboard.squares@ == sq && p.status == st,
                Err(k) => r matches Err(e) && error_class(e) == k,
            },
            fields(fen@).len() == 6 ==> (board_result(fields(fen@)[0]) matches Err(e) ==> r
                == Err::<Position, FenError>(e)),
            r matches Ok(p) ==> p.status.wf(),
    {
        let chars = crate::text::str_to_chars(fen);
        decode_chars(&chars)
    }

    /// The FEN text of a position (never an error).
    fn encode(position: &Position) -> (r: Result<String, FenError>)
        ensures
            r matches Ok(s) && s@ == fen_chars(*position),
    {
        let chars = encode_chars(position);
        Ok(crate::text::chars_to_string(&chars))
    }
}

} // verus!
