use chess_actix::bitboard::{BitBoard, BitIndex, BitIterator};
use chess_actix::bitboard_move::BitBoardMove;
use chess_actix::bitboards::{BitBoards, BitBoardsWhiteAndBlack};
use chess_actix::board::{Board, ChessBoard};
use chess_actix::coord::{Coord, InvalidCoordError};
use chess_actix::fen::{EncodeUserInput, Fen, Position, PositionStatus};
use chess_actix::piece_move::{
    BishopsBitBoard, KingBitBoard, KnightsBitBoard, PawnsBitBoard, QueensBitBoard, RooksBitBoard,
};
use chess_actix::position::BitPosition;
use chess_actix::san::{san_to_str, Lang};
use chess_actix::square::{Color, Square, TypePiece, TypePiecePromotion};
use chess_actix::status::BitPositionStatus;

// ---------------------------------------------------------------- board

#[test]
fn test_chessboard_empty() {
    let board = ChessBoard::new();
    assert_eq!(board.at(Coord::from('A', 1).unwrap()), Square::Empty);
    assert_eq!(board.at(Coord::from('H', 8).unwrap()), Square::Empty);
}

#[test]
fn test_chessboard_add() {
    let mut board = ChessBoard::new();
    board.add(Coord::from('A', 1).unwrap(), TypePiece::Rook, Color::White);
    assert_eq!(
        board.at(Coord::from('A', 1).unwrap()),
        Square::build_piece(TypePiece::Rook, Color::White)
    );
}

#[test]
fn test_chessboard_move() {
    let mut board = ChessBoard::new();
    board.add(Coord::from('A', 1).unwrap(), TypePiece::Rook, Color::White);
    board.move_piece(Coord::from('A', 1).unwrap(), Coord::from('B', 2).unwrap());
    assert_eq!(board.at(Coord::from('A', 1).unwrap()), Square::Empty);
    assert_eq!(
        board.at(Coord::from('B', 2).unwrap()),
        Square::build_piece(TypePiece::Rook, Color::White)
    );
}

// ---------------------------------------------------------------- coord

#[test]
fn test_chess_square_from() {
    assert!(Coord::from('A', 1).is_ok());
    assert!(Coord::from('H', 8).is_ok());
    assert!(Coord::from('I', 1).is_err());
    let error = Coord::from('I', 1).err().unwrap();
    assert_eq!(error, InvalidCoordError { col: 'I', row: 1 });
    assert!(Coord::from('A', 9).is_err());
}

#[test]
fn test_is_valid_chess_square() {
    assert!(Coord::is_valid_chess_square('a', 1));
    assert!(Coord::is_valid_chess_square('h', 8));
    assert!(!Coord::is_valid_chess_square('i', 1));
    assert!(!Coord::is_valid_chess_square('j', 8));
}

// ---------------------------------------------------------------- fen

#[test]
fn test_decode_starting_position() {
    let fen = "rnbqkbnr/pppppppp/8/8/8/8/PPPPPPPP/RNBQKBNR w KQkq - 0 1";
    let position = Fen::decode(fen).expect("Failed to decode FEN");
    // a8 and h8 hold the black rooks, a1 and h1 the white ones
    let squares = position.chessboard().squares;
    assert_eq!(squares[56], Square::build_piece(TypePiece::Rook, Color::Black));
    assert_eq!(squares[63], Square::build_piece(TypePiece::Rook, Color::Black));
    assert_eq!(squares[0], Square::build_piece(TypePiece::Rook, Color::White));
    assert_eq!(squares[7], Square::build_piece(TypePiece::Rook, Color::White));
    let status = position.status();
    assert_eq!(status.player_turn(), Color::White);
    assert!(status.castling_white_king_side());
    assert!(status.castling_white_queen_side());
    assert!(status.castling_black_king_side());
    assert!(status.castling_black_queen_side());
    assert_eq!(status.pawn_en_passant(), None);
    assert_eq!(status.n_half_moves(), 0);
    assert_eq!(status.n_moves(), 1);
}

#[test]
fn test_encode_starting_position() {
    let position = Position::new();
    let fen = Fen::encode(&position).expect("Failed to encode position");
    assert_eq!(fen, "rnbqkbnr/pppppppp/8/8/8/8/PPPPPPPP/RNBQKBNR w KQkq - 0 1");
}

#[test]
fn test_decode_encode_symmetry() {
    let fen = "rnbqkbnr/pppppppp/8/8/8/8/PPPPPPPP/RNBQKBNR w KQkq - 0 1";
    let position = Fen::decode(fen).expect("Failed to decode FEN");
    let encoded_fen = Fen::encode(&position).expect("Failed to encode position");
    assert_eq!(fen, encoded_fen);
}

#[test]
fn test_decode_invalid_fen() {
    let invalid_fen = "rnbqkbnr/pppppppp/8/8/8/8/PPPPPPP/RNBQKBNR w KQkq - 0 1";
    let result = Fen::decode(invalid_fen);
    assert!(result.is_err());
}

#[test]
fn test_encode_empty_position() {
    let mut status = PositionStatus::new();
    status.set_n_moves(1);
    let empty_position = Position::build(ChessBoard::new(), status);
    let fen = Fen::encode(&empty_position).expect("Failed to encode position");
    assert_eq!(fen, "8/8/8/8/8/8/8/8 w - - 0 1");
}

#[test]
fn test_decode_en_passant() {
    let fen = "8/8/8/8/4p3/8/3P4/8 w - e6 0 1";
    let position = Fen::decode(fen).expect("Failed to decode FEN");
    let expected_coord = Coord::from('e', 6).expect("Failed to create Coord");
    assert_eq!(position.status().pawn_en_passant(), Some(expected_coord));
}

#[test]
fn test_encode_en_passant() {
    let mut status = PositionStatus::new();
    status.set_n_moves(1);
    status.set_pawn_en_passant(Some(Coord::from('e', 6).expect("Failed to create Coord")));
    let position = Position::build(ChessBoard::new(), status);
    let fen = Fen::encode(&position).expect("Failed to encode position");
    assert!(fen.contains("E6"), "Expected en passant square 'e6' not found in encoded FEN");
}

// ---------------------------------------------------------------- bitboard

#[test]
fn test_bit_position_status_from() {
    let mut status = PositionStatus::new();
    status.set_castling_white_queen_side(true);
    status.set_castling_white_king_side(false);
    status.set_castling_black_queen_side(true);
    status.set_castling_black_king_side(false);
    status.set_player_turn(Color::Black);
    status.set_pawn_en_passant(Some(Coord::from('e', 3).unwrap()));
    status.set_n_half_moves(25);
    status.set_n_moves(50);
    let bit_status = BitPositionStatus::from(&status);
    assert_eq!(bit_status.castling_white_queen_side(), true);
    assert_eq!(bit_status.castling_white_king_side(), false);
    assert_eq!(bit_status.castling_black_queen_side(), true);
    assert_eq!(bit_status.castling_black_king_side(), false);
    assert_eq!(bit_status.player_turn_white(), false);
    assert_eq!(bit_status.pawn_en_passant(), Some(BitIndex(20)));
    assert_eq!(bit_status.n_half_moves(), 25);
    assert_eq!(bit_status.n_moves(), 50);
}

#[test]
fn test_bit_position_status_to() {
    let mut bit_status = BitPositionStatus::new();
    bit_status.set_castling_white_queen_side(true);
    bit_status.set_castling_white_king_side(false);
    bit_status.set_castling_black_queen_side(true);
    bit_status.set_castling_black_king_side(false);
    bit_status.set_player_turn_white(false);
    bit_status.set_pawn_en_passant(Some(20));
    bit_status.set_n_half_moves(25);
    bit_status.set_n_moves(50);
    let status = bit_status.to();
    assert_eq!(status.castling_white_queen_side(), true);
    assert_eq!(status.castling_white_king_side(), false);
    assert_eq!(status.castling_black_queen_side(), true);
    assert_eq!(status.castling_black_king_side(), false);
    assert_eq!(status.player_turn(), Color::Black);
    assert_eq!(status.pawn_en_passant(), Some(Coord::from('e', 3).unwrap()));
    assert_eq!(status.n_half_moves(), 25);
    assert_eq!(status.n_moves(), 50);
}

#[test]
fn test_bit_position_from_empty_board() {
    let empty_board = ChessBoard { squares: [Square::Empty; 64] };
    let bit_position = BitBoardsWhiteAndBlack::from(empty_board);
    assert_eq!(*bit_position.bit_board_white.rooks.bitboard(), BitBoard(0));
    assert_eq!(*bit_position.bit_board_white.bishops.bitboard(), BitBoard(0));
    assert_eq!(*bit_position.bit_board_white.knights.bitboard(), BitBoard(0));
    assert_eq!(*bit_position.bit_board_white.king.bitboard(), BitBoard(0));
    assert_eq!(*bit_position.bit_board_white.queens.bitboard(), BitBoard(0));
    assert_eq!(*bit_position.bit_board_white.pawns.bitboard(), BitBoard(0));
    assert_eq!(*bit_position.bit_board_black.rooks.bitboard(), BitBoard(0));
    assert_eq!(*bit_position.bit_board_black.bishops.bitboard(), BitBoard(0));
    assert_eq!(*bit_position.bit_board_black.knights.bitboard(), BitBoard(0));
    assert_eq!(*bit_position.bit_board_black.king.bitboard(), BitBoard(0));
    assert_eq!(*bit_position.bit_board_black.queens.bitboard(), BitBoard(0));
    assert_eq!(*bit_position.bit_board_black.pawns.bitboard(), BitBoard(0));
}

#[test]
fn test_bit_position_from_mixed_board() {
    let mut mixed_board: ChessBoard = ChessBoard::new();
    mixed_board.add(Coord::from('A', 1).unwrap(), TypePiece::Rook, Color::White);
    mixed_board.add(Coord::from('D', 4).unwrap(), TypePiece::Queen, Color::White);
    mixed_board.add(Coord::from('H', 8).unwrap(), TypePiece::King, Color::Black);
    mixed_board.add(Coord::from('E', 5).unwrap(), TypePiece::Bishop, Color::Black);
    mixed_board.add(Coord::from('A', 2).unwrap(), TypePiece::Pawn, Color::White);
    mixed_board.add(Coord::from('C', 2).unwrap(), TypePiece::Pawn, Color::White);
    mixed_board.add(Coord::from('H', 2).unwrap(), TypePiece::Pawn, Color::White);
    let bit_position = BitBoardsWhiteAndBlack::from(mixed_board);
    assert_eq!(*bit_position.bit_board_white.rooks.bitboard(), BitIndex(0).bitboard());
    assert_eq!(*bit_position.bit_board_white.queens.bitboard(), BitIndex(27).bitboard());
    assert_eq!(*bit_position.bit_board_black.king.bitboard(), BitIndex(63).bitboard());
    assert_eq!(*bit_position.bit_board_black.bishops.bitboard(), BitIndex(36).bitboard());
    assert_eq!(
        *bit_position.bit_board_white.pawns.bitboard(),
        BitBoard::build(BitIndex::union(vec![8, 10, 15]))
    )
}

#[test]
fn test_bitboard_list_non_empty_squares() {
    let bitboard =
        BitBoard(0b00000000_00000000_00000000_00000000_00000000_00000000_00000000_10000001);
    let coords = bitboard.list_non_empty_squares();
    assert_eq!(coords.len(), 2);
    assert_eq!(coords[0], Coord::from('A', 1).unwrap());
    assert_eq!(coords[1], Coord::from('H', 1).unwrap());
    let bitboard =
        BitBoard(0b00000001_00000000_00000000_00000000_00000000_00000000_00000000_00000000);
    let coords = bitboard.list_non_empty_squares();
    assert_eq!(coords.len(), 1);
    assert_eq!(coords[0], Coord::from('A', 8).unwrap());
}

#[test]
fn test_bitboard_empty() {
    let bitboard = BitBoard::default();
    let coords = bitboard.list_non_empty_squares();
    assert_eq!(coords.len(), 0);
}

#[test]
fn test_bit_position_to_mixed_board() {
    let bit_board_white = BitBoards {
        rooks: RooksBitBoard::new(BitIndex(0).bitboard()),
        knights: KnightsBitBoard::default(),
        bishops: BishopsBitBoard::default(),
        queens: QueensBitBoard::new(BitIndex(27).bitboard()),
        king: KingBitBoard::new(BitIndex(0).bitboard()),
        pawns: PawnsBitBoard::new(BitBoard::build(BitIndex::union(vec![8, 10, 15]))),
    };
    let bit_board_black = BitBoards {
        rooks: RooksBitBoard::default(),
        knights: KnightsBitBoard::default(),
        bishops: BishopsBitBoard::new(BitIndex(36).bitboard()),
        queens: QueensBitBoard::default(),
        king: KingBitBoard::new(BitIndex(63).bitboard()),
        pawns: PawnsBitBoard::new(BitIndex(40).bitboard()),
    };
    let bit_position = BitBoardsWhiteAndBlack { bit_board_white, bit_board_black };
    let chessboard = bit_position.to();
    let position = Position::build(chessboard, PositionStatus::new());
    let fen_str = Fen::encode(&position).expect("Error when decoding position to FEN format.");
    let expected_fen = "7k/8/p7/4b3/3Q4/8/P1P4P/K7 w - - 0 0";
    assert_eq!(fen_str, expected_fen);
}

#[test]
fn test_bit_iterator_empty_bitboard() {
    let bitboard = BitBoard::default();
    let mut iterator = BitIterator { bitboard };
    assert_eq!(iterator.next(), None);
}

#[test]
fn test_bit_iterator_single_bit() {
    let bitboard = BitIndex(5).bitboard();
    let mut iterator = BitIterator { bitboard };
    assert_eq!(iterator.next(), Some(BitIndex(5)));
    assert_eq!(iterator.next(), None);
}

#[test]
fn test_bit_iterator_multiple_bits() {
    let bitboard = BitBoard::build(BitIndex::union(vec![3, 5, 15]));
    let mut iterator = BitIterator { bitboard };
    let expected = vec![3, 5, 15];
    let mut results: Vec<u8> = vec![];
    while let Some(idx) = iterator.next() {
        results.push(idx.value());
    }
    assert_eq!(results, expected);
    assert_eq!(iterator.next(), None);
}

#[test]
fn test_bit_iterator_full_bitboard() {
    let bitboard = BitBoard(!0);
    let mut iterator = BitIterator { bitboard };
    let mut count = 0;
    while let Some(_) = iterator.next() {
        count += 1;
    }
    assert_eq!(count, 64);
}

#[test]
fn test_promotion() {
    let fen = "7k/8/8/8/8/8/8/7K w KQ - 0 1";
    let position = Fen::decode(fen).expect("Failed to decode FEN");
    let bit_board_position = BitPosition::from(position);
    let color = Color::White;
    let type_piece = TypePiece::Pawn;
    let from = BitIndex(48);
    let to = BitIndex(56);
    let moves = BitBoardMove::from(
        color,
        type_piece,
        from,
        to,
        bit_board_position.bit_boards_white_and_black(),
    );
    assert_eq!(moves.len(), 4)
}

// ---------------------------------------------------------------- san

fn san_of(start: u8, end: u8, type_piece: TypePiece, color: Color, capture: Option<TypePiece>,
    promotion: Option<TypePiecePromotion>, lang: Lang) -> String {
    let move_to_translate =
        BitBoardMove::new(color, type_piece, BitIndex(start), BitIndex(end), capture, promotion);
    let moves = vec![move_to_translate];
    san_to_str(&move_to_translate, &moves, &lang).info().clone()
}

#[test]
fn test_san_pawn_capture() {
    assert_eq!(san_of(13, 20, TypePiece::Pawn, Color::White, None, None, Lang::LangEn), "fxe3")
}

#[test]
fn test_san_pawn_2x() {
    assert_eq!(san_of(13, 29, TypePiece::Pawn, Color::White, None, None, Lang::LangFr), "f4")
}

#[test]
fn test_san_pawn_promotion() {
    assert_eq!(
        san_of(48, 56, TypePiece::Pawn, Color::White, None, Some(TypePiecePromotion::Queen), Lang::LangFr),
        "a8=D"
    )
}

#[test]
fn test_san_rook_capture() {
    assert_eq!(
        san_of(13, 29, TypePiece::Rook, Color::White, Some(TypePiece::Queen), None, Lang::LangFr),
        "Txf4"
    )
}

#[test]
fn test_san_short_castle() {
    assert_eq!(san_of(4, 6, TypePiece::King, Color::White, None, None, Lang::LangFr), "o-o")
}

#[test]
fn test_san_long_castle() {
    assert_eq!(san_of(60, 58, TypePiece::King, Color::Black, None, None, Lang::LangFr), "o-o-o")
}

#[test]
fn test_fen_decode_of_encode_gives_position_back() {
    let fens = [
        "rnbqkbnr/pppppppp/8/8/8/8/PPPPPPPP/RNBQKBNR w KQkq - 0 1",
        "r3k2r/pp1n1ppp/2p5/3pP3/8/2N5/PPP2PPP/R3K2R w Kq d6 12 34",
        "8/8/8/8/8/8/8/8 b - - 0 1",
        "7k/8/8/8/8/1Q6/8/7K w - - 65535 999",
    ];
    for fen in fens {
        let position = Fen::decode(fen).unwrap();
        let text = Fen::encode(&position).unwrap();
        let again = Fen::decode(&text).unwrap();
        assert_eq!(again, position);
    }
}

#[test]
fn test_bit_position_to_gives_position_back() {
    let fens = [
        "rnbqkbnr/pppppppp/8/8/8/8/PPPPPPPP/RNBQKBNR w KQkq - 0 1",
        "r3k2r/pp1n1ppp/2p5/3pP3/8/2N5/PPP2PPP/R3K2R w Kq d6 12 34",
        "8/8/8/8/8/8/8/8 b - - 0 1",
    ];
    for fen in fens {
        let position = Fen::decode(fen).unwrap();
        let bit_position = BitPosition::from(position.clone());
        assert_eq!(bit_position.to(), position);
    }
}

#[test]
fn test_chessboard_iterator_walks_every_square() {
    let mut board = ChessBoard::new();
    board.add(Coord::from('B', 1).unwrap(), TypePiece::Knight, Color::White);
    board.add(Coord::from('H', 8).unwrap(), TypePiece::Rook, Color::Black);
    let mut iterator = board.iter();
    let mut squares = Vec::new();
    while let Some(square) = iterator.next() {
        squares.push(square);
    }
    assert_eq!(squares.len(), 64);
    assert_eq!(squares[1], Square::build_piece(TypePiece::Knight, Color::White));
    assert_eq!(squares[63], Square::build_piece(TypePiece::Rook, Color::Black));
    assert_eq!(squares[0], Square::Empty);
    assert_eq!(iterator.next(), None);
}

#[test]
fn test_board_conversions_undo_each_other() {
    let mut board = ChessBoard::new();
    board.add(Coord::from('A', 1).unwrap(), TypePiece::Rook, Color::White);
    board.add(Coord::from('H', 8).unwrap(), TypePiece::King, Color::Black);
    board.add(Coord::from('E', 5).unwrap(), TypePiece::Bishop, Color::Black);
    board.add(Coord::from('C', 2).unwrap(), TypePiece::Pawn, Color::White);
    let bits = BitBoardsWhiteAndBlack::from(board);
    let back = bits.to();
    assert_eq!(back, board);
    assert_eq!(BitBoardsWhiteAndBlack::from(back), bits);
}

#[test]
fn test_bit_iterator_gives_every_square_once_in_order() {
    let mut iterator = BitIterator { bitboard: BitBoard(!0u64) };
    for i in 0..64u8 {
        assert_eq!(iterator.next(), Some(BitIndex(i)));
    }
    assert_eq!(iterator.next(), None);
    assert_eq!(iterator.next(), None);
}
