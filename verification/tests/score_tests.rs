use chess_actix::bitboard::BitIndex;
use chess_actix::bitboard_move::BitBoardMove;
use chess_actix::score::{compare_preorder_mat, order_move_status, preorder_compare, MoveStatus, PreOrder, Score};
use chess_actix::square::{Color, TypePiece, TypePiecePromotion};

#[test]
fn score_test_sort() {
    let m = BitBoardMove::new(
        Color::White,
        TypePiece::Rook,
        BitIndex::new(0),
        BitIndex::new(1),
        None,
        None,
    );
    let current_depth = 0;
    let max_depth = 0;
    let moves_status1 = MoveStatus {
        b_move: m.clone(),
        variant: "1".to_string(),
        score_opt: Some(Score::new(0, current_depth, max_depth)),
    };
    let moves_status2 = MoveStatus {
        b_move: m.clone(),
        variant: "2".to_string(),
        score_opt: Some(Score::new(-5, current_depth, max_depth)),
    };
    let moves_status3 = MoveStatus {
        b_move: m.clone(),
        variant: "3".to_string(),
        score_opt: Some(Score::new(3, current_depth, max_depth)),
    };
    let moves_status4 = MoveStatus {
        b_move: m.clone(),
        variant: "4".to_string(),
        score_opt: None,
    };
    let moves_status5 = MoveStatus {
        b_move: m.clone(),
        variant: "5".to_string(),
        score_opt: Some(Score::new(-6, current_depth, max_depth)),
    };
    let moves_status6 = MoveStatus {
        b_move: m.clone(),
        variant: "6".to_string(),
        score_opt: Some(Score::new(-7, current_depth, max_depth)),
    };
    let moves_status7 = MoveStatus {
        b_move: m.clone(),
        variant: "7".to_string(),
        score_opt: Some(Score::new(-8, current_depth, max_depth)),
    };
    let moves_status8 = MoveStatus {
        b_move: m.clone(),
        variant: "8".to_string(),
        score_opt: Some(Score::new(-9, current_depth, max_depth)),
    };

    let mut v = vec![
        moves_status8.clone(),
        moves_status7.clone(),
        moves_status6.clone(),
        moves_status5.clone(),
        moves_status4.clone(),
        moves_status3.clone(),
        moves_status2.clone(),
        moves_status1.clone(),
    ];
    let expected = vec![
        moves_status3.clone(),
        moves_status1.clone(),
        moves_status2.clone(),
        moves_status5.clone(),
        moves_status6.clone(),
        moves_status7.clone(),
        moves_status8.clone(),
        moves_status4.clone(),
    ];
    v.sort_by(order_move_status);
    let v_variant: Vec<String> = v.iter().map(|m| m.get_variant()).collect();
    let expected_variant: Vec<String> = expected.iter().map(|m| m.get_variant()).collect();
    assert_eq!(v_variant, expected_variant);
}

#[test]
fn test_preorder_sorting() {
    let current_depth = 2;
    let max_depth = 0;
    let mut list = vec![
        PreOrder::CurrentDepthScore(Score::new(10, current_depth, max_depth)),
        PreOrder::PreviousDepthScore(Score::new(10, current_depth - 1, max_depth)),
        PreOrder::Promotion(TypePiecePromotion::Queen),
        PreOrder::Capture { delta: 5 },
        PreOrder::Depth,
        PreOrder::new_mat(Color::White),
        PreOrder::PreviousDepthScore(Score::new(20, current_depth - 2, max_depth)),
        PreOrder::Promotion(TypePiecePromotion::Rook),
        PreOrder::Capture { delta: -5 },
        PreOrder::Depth,
        PreOrder::Capture { delta: 10 },
        PreOrder::KillerMove,
    ];

    list.sort_by(|a, b| preorder_compare(&a, &b, false));

    let expected = vec![
        PreOrder::CurrentDepthScore(Score::new(10, current_depth, max_depth)),
        PreOrder::KillerMove,
        PreOrder::PreviousDepthScore(Score::new(20, current_depth - 2, max_depth)),
        PreOrder::PreviousDepthScore(Score::new(10, current_depth - 1, max_depth)),
        PreOrder::Promotion(TypePiecePromotion::Queen),
        PreOrder::Promotion(TypePiecePromotion::Rook),
        PreOrder::new_mat(Color::White),
        PreOrder::Capture { delta: 10 },
        PreOrder::Capture { delta: 5 },
        PreOrder::Depth,
        PreOrder::Depth,
        PreOrder::Capture { delta: -5 },
    ];

    assert_eq!(list, expected);
}

#[test]
fn test_preorder_for_mat() {
    // Create a sequence of moves with different combinations of promotion and capture.
    let mut moves = vec![
        // Promotion moves
        BitBoardMove::new(
            Color::White,
            TypePiece::Pawn,
            BitIndex::new(12),
            BitIndex::new(20),
            None,
            Some(TypePiecePromotion::Queen),
        ),
        BitBoardMove::new(
            Color::White,
            TypePiece::Pawn,
            BitIndex::new(25),
            BitIndex::new(32),
            None,
            Some(TypePiecePromotion::Knight),
        ),
        // Capture moves
        BitBoardMove::new(
            Color::White,
            TypePiece::Rook,
            BitIndex::new(10),
            BitIndex::new(18),
            Some(TypePiece::Pawn),
            None,
        ),
        BitBoardMove::new(
            Color::White,
            TypePiece::Bishop,
            BitIndex::new(15),
            BitIndex::new(23),
            Some(TypePiece::Rook),
            None,
        ),
        // Regular moves
        BitBoardMove::new(
            Color::White,
            TypePiece::Knight,
            BitIndex::new(5),
            BitIndex::new(13),
            None,
            None,
        ),
        BitBoardMove::new(
            Color::White,
            TypePiece::Queen,
            BitIndex::new(30),
            BitIndex::new(37),
            None,
            None,
        ),
    ];

    // Sort the moves using compare_preorder_mat.
    moves.sort_by(|a, b| compare_preorder_mat(a, b));

    // Assert the expected ordering:
    // - Promotion moves come first
    // - Then capture moves
    // - Finally, regular moves
    assert_eq!(
        moves,
        vec![
            // Promotion moves
            BitBoardMove::new(
                Color::White,
                TypePiece::Pawn,
                BitIndex::new(25),
                BitIndex::new(32),
                None,
                Some(TypePiecePromotion::Knight)
            ),
            BitBoardMove::new(
                Color::White,
                TypePiece::Pawn,
                BitIndex::new(12),
                BitIndex::new(20),
                None,
                Some(TypePiecePromotion::Queen)
            ),
            // Capture moves
            BitBoardMove::new(
                Color::White,
                TypePiece::Rook,
                BitIndex::new(10),
                BitIndex::new(18),
                Some(TypePiece::Pawn),
                None
            ),
            BitBoardMove::new(
                Color::White,
                TypePiece::Bishop,
                BitIndex::new(15),
                BitIndex::new(23),
                Some(TypePiece::Rook),
                None
            ),
            // Regular moves
            BitBoardMove::new(
                Color::White,
                TypePiece::Knight,
                BitIndex::new(5),
                BitIndex::new(13),
                None,
                None
            ),
            BitBoardMove::new(
                Color::White,
                TypePiece::Queen,
                BitIndex::new(30),
                BitIndex::new(37),
                None,
                None
            ),
        ]
    );
}

#[test]
fn test_preorder_is_a_total_preorder() {
    let reasons = [
        PreOrder::Depth,
        PreOrder::Capture { delta: 3 },
        PreOrder::Capture { delta: 0 },
        PreOrder::Capture { delta: -2 },
        PreOrder::KillerMove,
        PreOrder::Promotion(TypePiecePromotion::Queen),
        PreOrder::Promotion(TypePiecePromotion::Knight),
        PreOrder::SearchMat { defender_color: Color::Black },
        PreOrder::CurrentDepthScore(Score::new(5, 1, 3)),
        PreOrder::PreviousDepthScore(Score::new(-5, 0, 2)),
    ];
    for is_asc in [true, false] {
        for a in reasons.iter() {
            for b in reasons.iter() {
                assert_eq!(preorder_compare(b, a, is_asc), preorder_compare(a, b, is_asc).reverse());
                for c in reasons.iter() {
                    if preorder_compare(a, b, is_asc) != std::cmp::Ordering::Greater
                        && preorder_compare(b, c, is_asc) != std::cmp::Ordering::Greater
                    {
                        assert_ne!(preorder_compare(a, c, is_asc), std::cmp::Ordering::Greater);
                    }
                }
            }
        }
    }
}
