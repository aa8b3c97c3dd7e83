use chess_engine_poc::chess_board::{ChessBoard, Square};
use chess_engine_poc::chess_board_utils::{apply_delta, apply_delta_with_dist, within_bounds};
use chess_engine_poc::chess_move::Move;
use chess_engine_poc::chess_piece::{king_directions, knight_directions, Color, Piece, PieceKind};
use chess_engine_poc::fen::FenError;
use chess_engine_poc::game::TurnOutcome;
use std::str::FromStr;

fn piece(kind: PieceKind, color: Color) -> Square {
    Square::Occupied(Piece { kind, color })
}

fn masks_hold_invariant(b: &ChessBoard) -> bool {
    let kinds = [b.pawns, b.knights, b.bishops, b.rooks, b.queens, b.kings];
    let mut union = 0u64;
    for (i, k) in kinds.iter().enumerate() {
        for other in kinds.iter().skip(i + 1) {
            if k & other != 0 {
                return false;
            }
        }
        union |= k;
    }
    b.white_pieces & b.black_pieces == 0 && b.white_pieces | b.black_pieces == union
}

#[test]
fn delta_arithmetic() {
    assert_eq!(apply_delta(0, (1, 1)), 9);
    assert_eq!(apply_delta(7, (0, 1)), -1);
    assert_eq!(apply_delta(8, (-2, 0)), -1);
    assert_eq!(apply_delta(27, (2, -1)), 42);
    assert_eq!(apply_delta_with_dist(0, (1, 0), 3), 24);
    assert_eq!(apply_delta_with_dist(0, (1, 1), 8), -1);
    assert_eq!(apply_delta(0, (100, 0)), -1);
    assert_eq!(apply_delta(63, (-128, -128)), -1);
    assert_eq!(apply_delta_with_dist(0, (1, 1), 200), -1);
    assert_eq!(apply_delta_with_dist(9, (-1, -1), 1), 0);
    assert_eq!(within_bounds(63), Some(63));
    assert_eq!(within_bounds(64), None);
    assert_eq!(within_bounds(-1), None);
}

#[test]
fn direction_tables() {
    assert_eq!(knight_directions()[0], (1, 2));
    assert_eq!(king_directions().len(), 8);
}

#[test]
fn set_at_writes_one_square() {
    let mut b = ChessBoard::default();
    let before: Vec<Square> = (0..64).map(|i| b.at(i)).collect();
    b.set_at(27, piece(PieceKind::Queen, Color::Black));
    assert_eq!(b.at(27), piece(PieceKind::Queen, Color::Black));
    b.set_at(0, Square::Empty);
    assert_eq!(b.at(0), Square::Empty);
    for i in 1..64u8 {
        if i != 27 {
            assert_eq!(b.at(i), before[i as usize]);
        }
    }
    assert!(masks_hold_invariant(&b));
    b.set_at_2(3, 3, Square::Empty);
    assert_eq!(b.at_2(3, 3), Square::Empty);
}

#[test]
fn starting_layout() {
    let b = ChessBoard::initial_board();
    assert_eq!(b.at(0), piece(PieceKind::Rook, Color::White));
    assert_eq!(b.at(3), piece(PieceKind::Queen, Color::White));
    assert_eq!(b.at(4), piece(PieceKind::King, Color::White));
    assert_eq!(b.at(8), piece(PieceKind::Pawn, Color::White));
    assert_eq!(b.at(20), Square::Empty);
    assert_eq!(b.at(62), piece(PieceKind::Knight, Color::Black));
    assert_eq!(b.current_turn(), Color::White);
    assert!(b.can_white_castle_kingside() && b.can_black_castle_queenside());
    assert_eq!(b.en_passant_target_square(), None);
    assert!(masks_hold_invariant(&b));
}

#[test]
fn status_flags() {
    let mut b = ChessBoard::default();
    b.set_white_castle_kingside(false);
    assert!(!b.can_white_castle_kingside());
    assert!(b.can_white_castle_queenside());
    assert!(b.can_black_castle_kingside());
    b.set_black_castle_queenside(false);
    assert!(!b.can_black_castle_queenside());
    b.set_black_castle_queenside(true);
    assert!(b.can_black_castle_queenside());
    b.set_en_passant_target_square(Some(19));
    assert_eq!(b.en_passant_target_square(), Some(19));
    assert_eq!(b.current_turn(), Color::White);
    b.set_en_passant_target_square(Some(63));
    assert_eq!(b.en_passant_target_square(), None);
    b.next_turn();
    assert_eq!(b.current_turn(), Color::Black);
    assert!(!b.can_white_castle_kingside());
    b.next_turn();
    assert_eq!(b.current_turn(), Color::White);
    assert_eq!(!Color::White, Color::Black);
}

#[test]
fn move_notation() {
    assert_eq!(
        Move::from_uci_string("a2a4"),
        Move { from: 8, to: 24, promoted_piece_kind: None }
    );
    assert_eq!(
        Move::try_from_uci_string("h7h8n"),
        Some(Move { from: 55, to: 63, promoted_piece_kind: Some(PieceKind::Knight) })
    );
    assert_eq!(Move::try_from_uci_string("a9a1"), None);
    assert_eq!(Move::try_from_uci_string("a2a4x"), None);
    assert_eq!(Move::try_from_uci_string("a2a4 "), None);
    assert_eq!(Move::try_from_uci_string(""), None);
    assert_eq!(Move::try_from_uci_string("i2i4"), None);
    assert_eq!(Move::try_from_uci_string("E2E4"), None);
    assert_eq!(Move::try_from_uci_string("e2e4qq"), None);
    assert_eq!(Move::base_move(8, 24).to_uci_string(), "a2a4");
    let promo = Move { from: 52, to: 60, promoted_piece_kind: Some(PieceKind::Queen) };
    assert_eq!(promo.to_uci_string(), "e7e8q");
    assert_eq!(Move::from_uci_string(&promo.to_uci_string()), promo);
}

#[test]
fn move_by_notation() {
    let mut b = ChessBoard::default();
    assert!(b.move_piece_uci("b1c3"));
    assert_eq!(b.at(18), piece(PieceKind::Knight, Color::White));
    assert_eq!(b.at(1), Square::Empty);
    assert_eq!(b.current_turn(), Color::Black);
    let before = b;
    assert!(!b.move_piece_uci("d4d5"));
    assert!(!b.move_piece_uci("nonsense"));
    assert_eq!(b.at(18), before.at(18));
    assert_eq!(b.current_turn(), Color::Black);
    let mut decoded =
        ChessBoard::from_str("rnbqkbnr/pppppppp/8/8/8/8/PPPPPPPP/RNBQKBNR w KQkq - 0 1").unwrap();
    assert!(decoded.move_piece_uci("e2e4"));
    assert_eq!(decoded.at(28), piece(PieceKind::Pawn, Color::White));
    assert_eq!(decoded.at(12), Square::Empty);
    assert_eq!(decoded.at(11), piece(PieceKind::Pawn, Color::White));
    assert_eq!(decoded.en_passant_target_square(), Some(20));
}

#[test]
fn starting_layout_matches_decoded_fen() {
    let start = ChessBoard::default();
    let decoded =
        ChessBoard::from_str("rnbqkbnr/pppppppp/8/8/8/8/PPPPPPPP/RNBQKBNR w KQkq - 0 1").unwrap();
    for i in 0..64u8 {
        assert_eq!(start.at(i), decoded.at(i));
    }
    assert_eq!(decoded.current_turn(), Color::White);
    assert!(decoded.can_white_castle_kingside() && decoded.can_white_castle_queenside());
    assert!(decoded.can_black_castle_kingside() && decoded.can_black_castle_queenside());
    assert_eq!(decoded.en_passant_target_square(), None);
    let corner = ChessBoard::from_str("K7/8/8/8/8/8/8/8 w - - 0 1").unwrap();
    assert_eq!(corner.at(56), piece(PieceKind::King, Color::White));
    assert_eq!(corner.at(63), Square::Empty);
}

#[test]
fn fen_decoding_errors() {
    assert_eq!(
        ChessBoard::from_str("8/8/8/8/8/8/8/8 w - -").unwrap_err(),
        FenError::FieldCount
    );
    assert_eq!(
        ChessBoard::from_str("8/8/8 w - - 0 1").unwrap_err(),
        FenError::RankCount
    );
    assert_eq!(
        ChessBoard::from_str("8/8/8/8/8/8/8/7x w - - 0 1").unwrap_err(),
        FenError::Placement
    );
    assert_eq!(
        ChessBoard::from_str("8/8/8/8/8/8/8/8K w - - 0 1").unwrap_err(),
        FenError::Placement
    );
    assert_eq!(
        ChessBoard::from_str("8/8/8/8/8/8/8/8 x - - 0 1").unwrap_err(),
        FenError::SideToMove
    );
    assert_eq!(
        ChessBoard::from_str("8/8/8/8/8/8/8/8 w - e4 0 1").unwrap_err(),
        FenError::EnPassant
    );
}

#[test]
fn fen_decoding_fields() {
    let b = ChessBoard::from_str("4k3/8/8/8/4P3/8/8/R3K3 b Qk e3 0 1").unwrap();
    assert_eq!(b.at(4), piece(PieceKind::King, Color::White));
    assert_eq!(b.at(0), piece(PieceKind::Rook, Color::White));
    assert_eq!(b.at(28), piece(PieceKind::Pawn, Color::White));
    assert_eq!(b.at(60), piece(PieceKind::King, Color::Black));
    assert_eq!(b.current_turn(), Color::Black);
    assert!(b.can_white_castle_queenside());
    assert!(!b.can_white_castle_kingside());
    assert!(b.can_black_castle_kingside());
    assert!(!b.can_black_castle_queenside());
    assert_eq!(b.en_passant_target_square(), Some(20));
    let none = ChessBoard::from_str("4k3/8/8/8/8/8/8/4K3 w - - 0 1").unwrap();
    assert_eq!(none.en_passant_target_square(), None);
    assert!(masks_hold_invariant(&b));
}

#[test]
fn attack_detection() {
    let b = ChessBoard::from_str("4k3/8/8/8/8/8/8/R3K3 w - - 0 1").unwrap();
    // the rook on a1 (square 0) sweeps the a-file and the first rank up to e1
    assert!(b.is_square_checked(56, Color::Black));
    assert!(b.is_square_checked(3, Color::Black));
    assert!(!b.is_square_checked(36, Color::Black));
    let pawn = ChessBoard::from_str("4k3/8/8/8/8/3p4/8/4K3 w - - 0 1").unwrap();
    assert!(pawn.is_square_checked_by_pawn(10, Color::White));
    assert!(pawn.is_square_checked_by_pawn(12, Color::White));
    assert!(!pawn.is_square_checked_by_pawn(11, Color::White));
    assert!(pawn.is_king_checked(Color::White) == false);
    let knight = ChessBoard::from_str("4k3/8/8/8/8/5n2/8/4K3 w - - 0 1").unwrap();
    assert!(knight.is_king_checked(Color::White));
    assert!(knight.contains_piece_in_any_direction(
        4,
        Piece { kind: PieceKind::Knight, color: Color::Black },
        &knight_directions()
    ));
}

#[test]
fn checkmate_and_stalemate_queries() {
    let mate =
        ChessBoard::from_str("rnb1kbnr/pppp1ppp/8/4p3/6Pq/5P2/PPPPP2P/RNBQKBNR w KQkq - 1 3")
            .unwrap();
    assert!(mate.is_king_checked(Color::White));
    assert!(mate.all_valid_moves(Color::White).is_empty());
    assert!(mate.king_cannot_move(Color::White));
    assert!(!mate.king_cannot_move(Color::Black));
    let kings = ChessBoard::from_str("8/8/8/8/8/8/8/k6K w - - 0 1").unwrap();
    assert!(kings.is_stalemate());
    assert!(!ChessBoard::default().is_stalemate());
}

#[test]
fn castling_moves_and_rook_relocation() {
    let b = ChessBoard::from_str("r3k2r/8/8/8/8/8/8/R3K2R w KQkq - 0 1").unwrap();
    let moves = b.all_valid_moves(Color::White);
    assert!(moves.contains(&Move::base_move(4, 6)));
    assert!(moves.contains(&Move::base_move(4, 2)));
    let mut after = b;
    after.move_piece(&Move::base_move(4, 6));
    assert_eq!(after.at(6), piece(PieceKind::King, Color::White));
    assert_eq!(after.at(5), piece(PieceKind::Rook, Color::White));
    assert_eq!(after.at(7), Square::Empty);
    assert_eq!(after.at(4), Square::Empty);
    let mut long = b;
    long.move_piece(&Move::base_move(4, 2));
    assert_eq!(long.at(2), piece(PieceKind::King, Color::White));
    assert_eq!(long.at(3), piece(PieceKind::Rook, Color::White));
    assert_eq!(long.at(0), Square::Empty);
    let black = b.all_valid_moves(Color::Black);
    assert!(black.contains(&Move::base_move(60, 62)));
    assert!(black.contains(&Move::base_move(60, 58)));
    assert!(!after.can_white_castle_kingside() && !after.can_white_castle_queenside());
    assert!(after.can_black_castle_kingside());
    let attacked = ChessBoard::from_str("r3k2r/8/8/8/8/8/6r1/R3K2R w KQkq - 0 1").unwrap();
    let moves = attacked.all_valid_moves(Color::White);
    assert!(!moves.contains(&Move::base_move(4, 6)));
    assert!(moves.contains(&Move::base_move(4, 2)));
    let away = ChessBoard::from_str("r3k2r/8/8/8/8/8/8/R4K1R w KQ - 0 1").unwrap();
    // castling looks at rights, empty squares and attacks only: with the king
    // on f1 the kingside squares are not empty, the queenside ones are
    let away_moves = away.all_valid_moves(Color::White);
    assert!(!away_moves.contains(&Move::base_move(4, 6)));
    assert!(away_moves.contains(&Move::base_move(4, 2)));
    let mut start = ChessBoard::default();
    start.set_at(1, Square::Empty);
    start.set_at(2, Square::Empty);
    let opened = start.all_valid_moves(Color::White);
    assert!(!opened.contains(&Move::base_move(4, 2)));
}

#[test]
fn en_passant_capture() {
    let mut b = ChessBoard::from_str("4k3/3p4/8/4P3/8/8/8/4K3 b - - 0 1").unwrap();
    // black d7-d5: from 51 to 35
    b.move_piece(&Move::base_move(51, 35));
    assert_eq!(b.en_passant_target_square(), Some(43));
    let moves = b.all_valid_moves(Color::White);
    assert!(moves.contains(&Move::base_move(36, 43)));
    b.move_piece(&Move::base_move(36, 43));
    assert_eq!(b.at(43), piece(PieceKind::Pawn, Color::White));
    assert_eq!(b.at(35), Square::Empty);
    assert_eq!(b.en_passant_target_square(), None);
    assert!(masks_hold_invariant(&b));
}

#[test]
fn promotion_expands_to_four_moves() {
    let b = ChessBoard::from_str("8/P7/8/8/8/8/8/k6K w - - 0 1").unwrap();
    let moves = b.all_valid_moves(Color::White);
    let promos: Vec<&Move> = moves.iter().filter(|m| m.from == 48).collect();
    assert_eq!(promos.len(), 4);
    assert_eq!(promos[0].promoted_piece_kind, Some(PieceKind::Queen));
    assert_eq!(promos[3].promoted_piece_kind, Some(PieceKind::Knight));
    let mut after = b;
    after.move_piece(promos[1]);
    assert_eq!(after.at(56), piece(PieceKind::Rook, Color::White));
}

#[test]
fn pseudo_legal_moves_ignore_pins() {
    let b = ChessBoard::from_str("4r1k1/8/8/8/8/8/4B3/4K3 w - - 0 1").unwrap();
    let possible = b.all_possible_moves(Color::White);
    let valid = b.all_valid_moves(Color::White);
    assert!(possible.iter().any(|m| m.from == 12));
    assert!(!valid.iter().any(|m| m.from == 12));
    assert_eq!(b.at(12), piece(PieceKind::Bishop, Color::White));
}

#[test]
fn invariant_holds_along_a_game() {
    let mut b = ChessBoard::default();
    for _ in 0..40 {
        let moves = b.all_valid_moves(b.current_turn());
        if moves.is_empty() {
            break;
        }
        let m = moves[moves.len() / 2];
        b.move_piece(&m);
        assert!(masks_hold_invariant(&b));
    }
}

#[test]
fn reverse_move_restores_placement() {
    let start = ChessBoard::default();
    let mut b = start;
    b.move_piece(&Move::base_move(1, 18));
    b.move_piece(&Move::base_move(18, 1));
    for i in 0..64u8 {
        assert_eq!(b.at(i), start.at(i));
    }
    // the side to move flips twice; castling rights are untouched here
    assert_eq!(b.current_turn(), Color::White);
    let mut r = ChessBoard::from_str("4k3/8/8/8/8/8/8/R3K3 w Q - 0 1").unwrap();
    let before = r;
    r.move_piece(&Move::base_move(0, 8));
    r.move_piece(&Move::base_move(8, 0));
    for i in 0..64u8 {
        assert_eq!(r.at(i), before.at(i));
    }
    // the rook left its home square: the right does not come back
    assert!(!r.can_white_castle_queenside());
}

#[test]
fn material_balance() {
    assert_eq!(ChessBoard::default().material_score(), 0);
    let kp = ChessBoard::from_str("8/8/8/kKPp4/8/8/8/8 w - - 0 1").unwrap();
    assert_eq!(kp.material_score(), 0);
    let rooks = ChessBoard::from_str("8/8/8/kKrr4/8/8/8/8 w - - 0 1").unwrap();
    assert_eq!(rooks.material_score(), -10);
    let white = ChessBoard::from_str("8/8/8/QKRRNNBB/8/8/8/8 w - - 0 1").unwrap();
    assert_eq!(white.material_score(), 231);
    let mut no_queen = ChessBoard::default();
    no_queen.set_at(3, Square::Empty);
    assert_eq!(no_queen.material_score(), -9);
    let mut no_black_queen = ChessBoard::default();
    no_black_queen.set_at(59, Square::Empty);
    assert_eq!(no_black_queen.material_score(), 9);
}

#[test]
fn board_picture() {
    let text = ChessBoard::default().to_text();
    let lines: Vec<&str> = text.lines().collect();
    assert_eq!(lines.len(), 8);
    assert_eq!(lines[0], " \u{2656} \u{2658} \u{2657} \u{2655} \u{2654} \u{2657} \u{2658} \u{2656}");
    assert_eq!(lines[3], " - - - - - - - -");
    assert_eq!(Piece::black_king().symbol(), '\u{265A}');
    assert_eq!(Square::Empty.symbol(), '-');
    assert_eq!(Piece::white_knight(), Piece { kind: PieceKind::Knight, color: Color::White });
}

#[test]
fn turns_of_a_game() {
    let mut b = ChessBoard::default();
    let first = b.all_valid_moves(Color::White)[0];
    assert_eq!(b.play_turn(Color::White, 0), TurnOutcome::Played(first));
    assert_eq!(b.current_turn(), Color::Black);
    let mut mate =
        ChessBoard::from_str("rnb1kbnr/pppp1ppp/8/4p3/6Pq/5P2/PPPPP2P/RNBQKBNR w KQkq - 1 3")
            .unwrap();
    let before = mate;
    assert_eq!(mate.play_turn(Color::White, 5), TurnOutcome::Checkmate);
    assert_eq!(mate.at(31), before.at(31));
    let mut stuck = ChessBoard::from_str("7k/5Q2/6K1/8/8/8/8/8 b - - 0 1").unwrap();
    assert_eq!(stuck.play_turn(Color::Black, 0), TurnOutcome::NoLegalMove);
    let mut lone = ChessBoard::from_str("8/8/8/8/8/8/8/k5rK w - - 0 1").unwrap();
    let wm = lone.all_valid_moves(Color::White);
    let grab = wm.iter().position(|m| m.to == 6).unwrap();
    assert_eq!(lone.play_turn(Color::White, grab), TurnOutcome::PlayedBareKings(wm[grab]));
}

#[test]
fn castling_does_not_look_for_the_king() {
    let b = ChessBoard::from_str("7k/8/8/8/8/8/8/K7 w KQ - 0 1").unwrap();
    let moves = b.all_valid_moves(Color::White);
    assert!(moves.contains(&Move::base_move(4, 6)));
    assert!(moves.contains(&Move::base_move(4, 2)));
    let pick = moves.iter().position(|m| *m == Move::base_move(4, 6)).unwrap();
    let mut played = b;
    assert_eq!(
        played.play_turn(Color::White, pick),
        TurnOutcome::NotPlayable(Move::base_move(4, 6))
    );
    assert_eq!(played.at(0), piece(PieceKind::King, Color::White));
    assert_eq!(played.current_turn(), Color::White);
}

#[test]
fn pieces_of_one_color() {
    let b = ChessBoard::from_str("4k3/8/8/8/4P3/8/8/R3K3 b Qk e3 0 1").unwrap();
    let white = b.for_each_piece(Color::White);
    assert_eq!(
        white,
        vec![
            (0, Piece { kind: PieceKind::Rook, color: Color::White }),
            (4, Piece { kind: PieceKind::King, color: Color::White }),
            (28, Piece { kind: PieceKind::Pawn, color: Color::White }),
        ]
    );
    assert_eq!(b.for_each_piece(Color::Black).len(), 1);
    assert_eq!(ChessBoard::default().for_each_piece(Color::Black).len(), 16);
}

#[test]
fn fen_sample_position() {
    let r = ChessBoard::from_str(
        "rnbqkb1r/1p3pp1/1N1p4/p2P1n1p/P3pP1P/1Pp5/2P1P1P1/R1BQKBNR b KQkq h3 0 1",
    )
    .unwrap();
    assert_eq!(r.current_turn(), Color::Black);
    assert_eq!(r.en_passant_target_square(), Some(23));
    assert!(r.can_white_castle_kingside() && r.can_white_castle_queenside());
    assert!(r.can_black_castle_kingside() && r.can_black_castle_queenside());
    assert_eq!(r.at(31), piece(PieceKind::Pawn, Color::White));
    assert_eq!(r.at(62), Square::Empty);
    assert_eq!(r.at(41), piece(PieceKind::Knight, Color::White));
    assert_eq!(r.at(37), piece(PieceKind::Knight, Color::Black));
}
