//! Reading the FEN text of a position gives the position back.
use vstd::prelude::*;
use crate::fen::{
    all_digits, board_chars, board_fold, board_result, board_start, board_step, castling_chars,
    dec_chars, digit_char, digits_value, en_passant_chars, en_passant_field, fen_chars, fen_decode,
    fields, fields_from, is_space, letter_square, parse_u16_spec, piece_letter, rank_chars,
    turn_field, BoardReading, Position, PositionStatus,
};
use crate::board::ChessBoard;
use crate::square::{Color, Piece, Square, TypePiece};

verus! {

/// A field of a FEN text: not empty, and without whitespace.
pub open spec fn is_field(a: Seq<char>) -> bool {
    a.len() > 0 && forall|k: int| 0 <= k < a.len() ==> !is_space(#[trigger] a[k])
}

/// Characters that are not whitespace join the field being read.
proof fn lemma_fields_from_word(a: Seq<char>, t: Seq<char>, cur: Seq<char>)
    requires
        forall|k: int| 0 <= k < a.len() ==> !is_space(#[trigger] a[k]),
    ensures
        fields_from(a + t, cur) == fields_from(t, cur + a),
    decreases a.len(),
{
    if a.len() == 0 {
        assert(a + t =~= t);
        assert(cur + a =~= cur);
    } else {
        assert((a + t).drop_first() =~= a.drop_first() + t);
        assert((a + t)[0] == a[0]);
        assert(!is_space(a[0]));
        assert forall|k: int| 0 <= k < a.drop_first().len() implies !is_space(#[trigger] a.drop_first()[k]) by {
            assert(a.drop_first()[k] == a[k + 1]);
        }
        lemma_fields_from_word(a.drop_first(), t, cur.push(a[0]));
        assert(cur.push(a[0]) + a.drop_first() =~= cur + a);
    }
}

/// A field, a space, and the rest: the field, then the fields of the rest.
proof fn lemma_fields_cons(a: Seq<char>, rest: Seq<char>)
    requires
        is_field(a),
    ensures
        fields(a + seq![' '] + rest) == seq![a] + fields(rest),
{
    let t = seq![' '] + rest;
    assert(a + seq![' '] + rest =~= a + t);
    lemma_fields_from_word(a, t, Seq::empty());
    assert(Seq::<char>::empty() + a =~= a);
    assert(t[0] == ' ');
    assert(t.drop_first() =~= rest);
    assert(is_space(' '));
    assert(fields_from(t, a) == seq![a] + fields_from(rest, Seq::empty()));
}

/// A lone field is the only field.
proof fn lemma_fields_single(a: Seq<char>)
    requires
        is_field(a),
    ensures
        fields(a) == seq![a],
{
    lemma_fields_from_word(a, Seq::empty(), Seq::empty());
    assert(a + Seq::<char>::empty() =~= a);
    assert(Seq::<char>::empty() + a =~= a);
}

/// The decimal text of a number is a field of digits worth that number.
proof fn lemma_dec_chars(n: nat)
    ensures
        dec_chars(n).len() > 0,
        all_digits(dec_chars(n)),
        is_field(dec_chars(n)),
        digits_value(dec_chars(n)) == n,
    decreases n,
{
    let s = dec_chars(n);
    if n < 10 {
        assert(s == seq![digit_char(n as int)]);
        assert(s.drop_last() =~= Seq::<char>::empty());
        assert(digits_value(s.drop_last()) == 0);
    } else {
        lemma_dec_chars(n / 10);
        let d = dec_chars(n / 10);
        assert(s == d + seq![digit_char((n % 10) as int)]);
        assert(s.drop_last() =~= d);
        assert forall|k: int| 0 <= k < s.len() implies '0' <= #[trigger] s[k] <= '9' by {
            if k < d.len() {
                assert(s[k] == d[k]);
            }
        }
        assert forall|k: int| 0 <= k < s.len() implies !is_space(#[trigger] s[k]) by {
            assert('0' <= s[k] <= '9');
        }
    }
}

/// The decimal text of a 16-bit number reads back as that number.
proof fn lemma_parse_dec(n: u16)
    ensures
        parse_u16_spec(dec_chars(n as nat)) == Some(n),
{
    lemma_dec_chars(n as nat);
    let s = dec_chars(n as nat);
    assert('0' <= s[0] <= '9');
}

/// The castling field is a field and names exactly the rights held.
proof fn lemma_castling(st: PositionStatus)
    ensures
        is_field(castling_chars(st)),
        castling_chars(st).contains('K') == st.castling_white_king_side,
        castling_chars(st).contains('Q') == st.castling_white_queen_side,
        castling_chars(st).contains('k') == st.castling_black_king_side,
        castling_chars(st).contains('q') == st.castling_black_queen_side,
{
    let a = if st.castling_white_king_side { seq!['K'] } else { Seq::<char>::empty() };
    let b = if st.castling_white_queen_side { seq!['Q'] } else { Seq::<char>::empty() };
    let c = if st.castling_black_king_side { seq!['k'] } else { Seq::<char>::empty() };
    let d = if st.castling_black_queen_side { seq!['q'] } else { Seq::<char>::empty() };
    let all = a + b + c + d;
    let f = castling_chars(st);
    assert(f == if all.len() == 0 { seq!['-'] } else { all });
    assert forall|k: int| 0 <= k < all.len() implies {
        let x = #[trigger] all[k];
        &&& (x == 'K' ==> st.castling_white_king_side)
        &&& (x == 'Q' ==> st.castling_white_queen_side)
        &&& (x == 'k' ==> st.castling_black_king_side)
        &&& (x == 'q' ==> st.castling_black_queen_side)
        &&& !is_space(x)
    } by {
        if k < a.len() {
            assert(all[k] == a[k]);
        } else if k < a.len() + b.len() {
            assert(all[k] == b[k - a.len()]);
        } else if k < a.len() + b.len() + c.len() {
            assert(all[k] == c[k - a.len() - b.len()]);
        } else {
            assert(all[k] == d[k - a.len() - b.len() - c.len()]);
        }
    }
    if st.castling_white_king_side {
        assert(all[0] == 'K');
    }
    if st.castling_white_queen_side {
        assert(all[a.len() as int] == 'Q');
    }
    if st.castling_black_king_side {
        assert(all[(a.len() + b.len()) as int] == 'k');
    }
    if st.castling_black_queen_side {
        assert(all[(a.len() + b.len() + c.len()) as int] == 'q');
    }
    if all.len() == 0 {
        assert(f[0] == '-');
    }
}

/// The en passant field is a field and reads back as the en passant square.
proof fn lemma_en_passant(st: PositionStatus)
    requires
        st.wf(),
    ensures
        is_field(en_passant_chars(st)),
        en_passant_field(en_passant_chars(st)) == Ok::<Option<crate::coord::Coord>, int>(st.pawn_en_passant),
{
    match st.pawn_en_passant {
        Some(c) => {
            lemma_dec_chars(c.row as nat);
            let f = en_passant_chars(st);
            assert(dec_chars(c.row as nat) == seq![digit_char(c.row as int)]);
            assert(f == seq![c.col, digit_char(c.row as int)]);
            assert(f != seq!['-']);
        },
        None => {},
    }
}

/// The reading state after the characters of `t` from state `st`.
pub open spec fn fold_from(st: BoardReading, t: Seq<char>) -> BoardReading
    decreases t.len(),
{
    if t.len() == 0 {
        st
    } else {
        fold_from(board_step(st, t[0]), t.drop_first())
    }
}

proof fn lemma_fold_from_push(st: BoardReading, t: Seq<char>, c: char)
    ensures
        fold_from(st, t.push(c)) == board_step(fold_from(st, t), c),
    decreases t.len(),
{
    if t.len() == 0 {
        assert(t.push(c).drop_first() =~= Seq::<char>::empty());
        assert(t.push(c)[0] == c);
        assert(fold_from(board_step(st, c), Seq::<char>::empty()) == board_step(st, c));
    } else {
        assert(t.push(c).drop_first() =~= t.drop_first().push(c));
        assert(t.push(c)[0] == t[0]);
        lemma_fold_from_push(board_step(st, t[0]), t.drop_first(), c);
    }
}

proof fn lemma_board_fold_concat(a: Seq<char>, b: Seq<char>)
    ensures
        board_fold(a + b) == fold_from(board_fold(a), b),
    decreases b.len(),
{
    if b.len() == 0 {
        assert(a + b =~= a);
    } else {
        let b0 = b.drop_last();
        assert((a + b).drop_last() =~= a + b0);
        assert((a + b).last() == b.last());
        lemma_board_fold_concat(a, b0);
        lemma_fold_from_push(board_fold(a), b0, b.last());
        assert(b0.push(b.last()) =~= b);
    }
}

proof fn lemma_fold_from_concat(st: BoardReading, a: Seq<char>, b: Seq<char>)
    ensures
        fold_from(st, a + b) == fold_from(fold_from(st, a), b),
    decreases a.len(),
{
    if a.len() == 0 {
        assert(a + b =~= b);
    } else {
        assert((a + b).drop_first() =~= a.drop_first() + b);
        assert((a + b)[0] == a[0]);
        lemma_fold_from_concat(board_step(st, a[0]), a.drop_first(), b);
    }
}

/// The squares read so far agree with board `b`: the rows above row `r`, and
/// row `r` before column `col`, hold what `b` holds; the other squares are
/// still empty.
pub open spec fn agree(sq: Seq<Square>, b: Seq<Square>, r: int, col: int) -> bool {
    &&& sq.len() == 64
    &&& forall|i: int|
        0 <= i < 64 ==> #[trigger] sq[i] == (if i >= (r + 1) * 8 || (r * 8 <= i < r * 8 + col) {
            b[i]
        } else {
            Square::Empty
        })
}

/// The FEN letter of a piece reads back as that piece.
proof fn lemma_letter(p: Piece)
    ensures
        letter_square(piece_letter(p.type_piece, p.color)) == Some(Square::NonEmpty(p)),
        !is_space(piece_letter(p.type_piece, p.color)),
        piece_letter(p.type_piece, p.color) != '/',
        !('1' <= piece_letter(p.type_piece, p.color) <= '8'),
{
    assert((('r' as u32) - 32) as char == 'R');
    assert((('n' as u32) - 32) as char == 'N');
    assert((('b' as u32) - 32) as char == 'B');
    assert((('q' as u32) - 32) as char == 'Q');
    assert((('k' as u32) - 32) as char == 'K');
    assert((('p' as u32) - 32) as char == 'P');
}

/// Reading a single character from `st`.
proof fn lemma_fold_one(st: BoardReading, c: char)
    ensures
        fold_from(st, seq![c]) == board_step(st, c),
{
    assert(seq![c].drop_first() =~= Seq::<char>::empty());
    assert(seq![c][0] == c);
    assert(fold_from(board_step(st, c), Seq::<char>::empty()) == board_step(st, c));
}

/// Reading the FEN text of row `r` from column `col`, with `e` empty squares
/// pending before it, fills the rest of the row as on the board.
proof fn lemma_rank(b: ChessBoard, r: int, col: int, e: int, st: BoardReading)
    requires
        0 <= r < 8,
        0 <= e <= col <= 8,
        st.error is None,
        st.row == 7 - r,
        st.col == col - e,
        agree(st.squares, b.squares@, r, col - e),
        forall|c: int| col - e <= c < col ==> (#[trigger] b.squares@[r * 8 + c]) is Empty,
    ensures
        ({
            let st2 = fold_from(st, rank_chars(b, r, col, e));
            &&& st2.error is None
            &&& st2.row == 7 - r
            &&& st2.col == 8
            &&& agree(st2.squares, b.squares@, r, 8)
        }),
        forall|k: int| 0 <= k < rank_chars(b, r, col, e).len() ==> !is_space(#[trigger] rank_chars(b, r, col, e)[k]),
        col < 8 || e > 0 ==> rank_chars(b, r, col, e).len() > 0,
    decreases 8 - col,
{
    let bs = b.squares@;
    if col >= 8 {
        if e > 0 {
            let d = digit_char(e);
            assert(rank_chars(b, r, col, e) == seq![d]);
            lemma_fold_one(st, d);
            let st2 = board_step(st, d);
            assert(st2.col == 8);
            assert forall|i: int| 0 <= i < 64 implies #[trigger] st2.squares[i] == (if i >= (r + 1) * 8 || (r * 8
                <= i < r * 8 + 8) {
                bs[i]
            } else {
                Square::Empty
            }) by {
                if r * 8 + col - e <= i < r * 8 + 8 {
                    assert(bs[r * 8 + (i - r * 8)] is Empty);
                }
            }
        } else {
            assert(rank_chars(b, r, col, e) =~= Seq::<char>::empty());
        }
    } else {
        match bs[r * 8 + col] {
            Square::Empty => {
                assert(rank_chars(b, r, col, e) == rank_chars(b, r, col + 1, e + 1));
                assert forall|c: int| col + 1 - (e + 1) <= c < col + 1 implies (#[trigger] bs[r * 8 + c]) is Empty by {
                    if c < col {
                        assert(bs[r * 8 + c] is Empty);
                    }
                }
                lemma_rank(b, r, col + 1, e + 1, st);
            },
            Square::NonEmpty(p) => {
                let dd = if e > 0 { seq![digit_char(e)] } else { Seq::<char>::empty() };
                let l = piece_letter(p.type_piece, p.color);
                let rest = rank_chars(b, r, col + 1, 0);
                assert(rank_chars(b, r, col, e) == dd + seq![l] + rest);
                lemma_fold_from_concat(st, dd + seq![l], rest);
                lemma_fold_from_concat(st, dd, seq![l]);
                let st1 = fold_from(st, dd);
                if e > 0 {
                    lemma_fold_one(st, digit_char(e));
                } else {
                    assert(st1 == st);
                }
                assert(st1.col == col);
                assert(st1.error is None);
                assert(st1.row == 7 - r);
                assert(st1.squares == st.squares);
                assert forall|i: int| 0 <= i < 64 implies #[trigger] st1.squares[i] == (if i >= (r + 1) * 8 || (r * 8
                    <= i < r * 8 + col) {
                    bs[i]
                } else {
                    Square::Empty
                }) by {
                    if r * 8 + col - e <= i < r * 8 + col {
                        assert(bs[r * 8 + (i - r * 8)] is Empty);
                    }
                }
                lemma_letter(p);
                lemma_fold_one(st1, l);
                let st2 = board_step(st1, l);
                assert(st2.squares == st1.squares.update(r * 8 + col, Square::NonEmpty(p)));
                assert(st2.col == col + 1);
                assert(agree(st2.squares, bs, r, col + 1));
                lemma_rank(b, r, col + 1, 0, st2);
                let whole = dd + seq![l] + rest;
                assert forall|k: int| 0 <= k < whole.len() implies !is_space(#[trigger] whole[k]) by {
                    if k < dd.len() {
                        assert(whole[k] == dd[k]);
                    } else if k == dd.len() {
                        assert(whole[k] == l);
                    } else {
                        assert(whole[k] == rest[k - dd.len() - 1]);
                    }
                }
                assert(whole[dd.len() as int] == l);
            },
        }
    }
}

/// Reading the first `k` rows of the FEN text of a board (from row 8
/// downward) fills those rows as on the board.
proof fn lemma_board_rows(b: ChessBoard, k: int)
    requires
        1 <= k <= 8,
    ensures
        ({
            let st = board_fold(board_chars(b, k));
            &&& st.error is None
            &&& st.row == k - 1
            &&& st.col == 8
            &&& agree(st.squares, b.squares@, 8 - k, 8)
        }),
        is_field(board_chars(b, k)),
    decreases k,
{
    let bs = b.squares@;
    if k == 1 {
        let t = rank_chars(b, 7, 0, 0);
        assert(board_chars(b, 1) == t);
        lemma_board_fold_concat(Seq::empty(), t);
        assert(Seq::<char>::empty() + t =~= t);
        assert(board_fold(Seq::<char>::empty()) == board_start());
        lemma_rank(b, 7, 0, 0, board_start());
    } else {
        lemma_board_rows(b, k - 1);
        let x = board_chars(b, k - 1);
        let t = rank_chars(b, 8 - k, 0, 0);
        assert(board_chars(b, k) == x + seq!['/'] + t);
        assert(x + seq!['/'] + t =~= x + (seq!['/'] + t));
        lemma_board_fold_concat(x, seq!['/'] + t);
        let st0 = board_fold(x);
        lemma_fold_from_concat(st0, seq!['/'], t);
        lemma_fold_one(st0, '/');
        let st1 = board_step(st0, '/');
        assert(st1.row == k - 1 && st1.col == 0 && st1.error is None);
        assert(agree(st1.squares, bs, 8 - k, 0));
        lemma_rank(b, 8 - k, 0, 0, st1);
        let whole = x + seq!['/'] + t;
        assert forall|j: int| 0 <= j < whole.len() implies !is_space(#[trigger] whole[j]) by {
            if j < x.len() {
                assert(whole[j] == x[j]);
            } else if j == x.len() {
                assert(whole[j] == '/');
            } else {
                assert(whole[j] == t[j - x.len() - 1]);
            }
        }
    }
}

/// The board field of the FEN text of a board reads back as the board.
proof fn lemma_board(b: ChessBoard)
    ensures
        board_result(board_chars(b, 8)) == Ok::<Seq<Square>, crate::fen::FenError>(b.squares@),
        is_field(board_chars(b, 8)),
{
    lemma_board_rows(b, 8);
    let st = board_fold(board_chars(b, 8));
    assert(st.squares =~= b.squares@);
}

/// Joining six texts by spaces, grouped from the left or from the right.
proof fn lemma_join_assoc(b: Seq<char>, t: Seq<char>, c: Seq<char>, e: Seq<char>, h: Seq<char>, m: Seq<char>)
    ensures
        b + seq![' '] + t + seq![' '] + c + seq![' '] + e + seq![' '] + h + seq![' '] + m == b + seq![' '] + (t
            + seq![' '] + (c + seq![' '] + (e + seq![' '] + (h + seq![' '] + m)))),
{
    let s = seq![' '];
    assert(b + s + t + s + c + s + e + s + h + s + m =~= b + s + (t + s + (c + s + (e + s + (h + s + m)))));
}

/// The six fields of the FEN text of a position.
#[verifier::rlimit(30)]
proof fn lemma_fen_fields(p: Position)
    requires
        p.status.wf(),
    ensures
        fields(fen_chars(p)) == seq![
            board_chars(p.chessboard, 8),
            seq![if p.status.player_turn == Color::White { 'w' } else { 'b' }],
            castling_chars(p.status),
            en_passant_chars(p.status),
            dec_chars(p.status.n_half_moves as nat),
            dec_chars(p.status.n_moves as nat),
        ],
{
    let st = p.status;
    let b = board_chars(p.chessboard, 8);
    let t = seq![if st.player_turn == Color::White { 'w' } else { 'b' }];
    let c = castling_chars(st);
    let e = en_passant_chars(st);
    let h = dec_chars(st.n_half_moves as nat);
    let m = dec_chars(st.n_moves as nat);
    lemma_board(p.chessboard);
    lemma_castling(st);
    lemma_en_passant(st);
    lemma_dec_chars(st.n_half_moves as nat);
    lemma_dec_chars(st.n_moves as nat);
    assert(is_field(t)) by {
        assert(!is_space(t[0]));
    }
    let r4 = h + seq![' '] + m;
    let r3 = e + seq![' '] + r4;
    let r2 = c + seq![' '] + r3;
    let r1 = t + seq![' '] + r2;
    let r0 = b + seq![' '] + r1;
    lemma_join_assoc(b, t, c, e, h, m);
    assert(fen_chars(p) == b + seq![' '] + t + seq![' '] + c + seq![' '] + e + seq![' '] + h + seq![' '] + m);
    lemma_fields_single(m);
    lemma_fields_cons(h, m);
    lemma_fields_cons(e, r4);
    lemma_fields_cons(c, r3);
    lemma_fields_cons(t, r2);
    lemma_fields_cons(b, r1);
    assert(fields(r0) =~= seq![b, t, c, e, h, m]);
}

/// Reading the FEN text of a position gives the position back: its board and
/// its status (castling rights, side to move, en passant square, counters).
pub proof fn lemma_fen_round_trip(p: Position)
    requires
        p.status.wf(),
    ensures
        fen_decode(fen_chars(p)) == Ok::<(Seq<Square>, PositionStatus), int>((p.chessboard.squares@, p.status)),
{
    let st = p.status;
    lemma_fen_fields(p);
    lemma_board(p.chessboard);
    lemma_castling(st);
    lemma_en_passant(st);
    lemma_parse_dec(st.n_half_moves);
    lemma_parse_dec(st.n_moves);
    let f = fields(fen_chars(p));
    let t = seq![if st.player_turn == Color::White { 'w' } else { 'b' }];
    assert(f[1] == t);
    if st.player_turn == Color::White {
        assert(t =~= seq!['w']);
    } else {
        assert(t =~= seq!['b']);
        assert(t[0] != seq!['w'][0]);
    }
    assert(turn_field(t) == Some(st.player_turn));
}

/// Writing the position read from a text that the writer produced gives that
/// text back: `q` is what reading the FEN text of `p` gives.
pub proof fn lemma_fen_text_round_trip(p: Position, q: Position)
    requires
        p.status.wf(),
        fen_decode(fen_chars(p)) == Ok::<(Seq<Square>, PositionStatus), int>((q.chessboard.squares@, q.status)),
    ensures
        fen_chars(q) == fen_chars(p),
{
    lemma_fen_round_trip(p);
    assert(q.chessboard.squares@ == p.chessboard.squares@);
    assert(q.chessboard.squares =~= p.chessboard.squares);
    assert(q.chessboard == p.chessboard);
    assert(q == p);
}

} // verus!
