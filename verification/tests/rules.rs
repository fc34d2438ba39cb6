//! The rules on concrete boards: placing and removing, check and mate,
//! castling, en passant, promotion, sequences of moves, move generation,
//! consistency, counting and territory.

use eco_chess::{Board, CastlingSide, Color, Move, Piece, PieceType, Sector, Tile};
use std::str::FromStr;

fn tile(name: &str) -> Tile {
    Tile::from_str(name).unwrap()
}

fn play(board: &mut Board, text: &str) -> Result<(), ()> {
    board.apply(Move::from_str(text).unwrap())
}

fn castling_board() -> Board {
    let mut board = Board::default();
    for name in ["b1", "c1", "d1", "f1", "g1", "b8", "c8", "d8", "f8", "g8"] {
        board.remove_piece(tile(name));
    }
    board
}

#[test]
fn spawned_pieces_are_found_again() {
    let kinds = PieceType::all();
    for color in [Color::White, Color::Black] {
        for kind in kinds {
            for n in 0..64u8 {
                let t = Tile::from_nth(n);
                let mut board = Board::default();
                board.set_turn(color);
                board.spawn(kind, t);
                assert_eq!(board.get_piece(t), Some(Piece::new(kind, color)));
                assert!(board.has_piece_on(t));
                board.remove_piece(t);
                assert_eq!(board.get_piece(t), None);
                assert!(!board.has_piece_on(t));
            }
        }
    }
}

#[test]
fn spawning_leaves_the_other_tiles_alone() {
    let before = Board::default();
    let mut board = before;
    board.spawn(PieceType::Queen, tile("e4"));
    for n in 0..64u8 {
        let t = Tile::from_nth(n);
        if t != tile("e4") {
            assert_eq!(board.get_piece(t), before.get_piece(t));
        }
    }
    board.remove_piece(tile("e4"));
    assert_eq!(board, before);
}

#[test]
fn a_piece_put_beside_another_is_hidden_by_the_first_in_order() {
    let mut board = Board::empty();
    board.spawn_black_king(tile("e4"));
    assert_eq!(board.get_piece(tile("e4")), Some(Piece::king(Color::Black)));
    board.spawn_white_queen(tile("e4"));
    assert_eq!(board.get_piece(tile("e4")), Some(Piece::queen(Color::White)));
    board.spawn_white_pawn(tile("e4"));
    assert_eq!(board.get_piece(tile("e4")), Some(Piece::pawn(Color::White)));
    assert!(board.has_white_piece_on(tile("e4")));
    assert!(board.has_black_piece_on(tile("e4")));
    assert!(board.sanity_check().is_err());
    board.remove_piece(tile("e4"));
    assert_eq!(board, Board::empty());
}

#[test]
fn each_spawn_function_puts_its_piece() {
    let mut board = Board::empty();
    board.spawn_white_pawn(tile("a1"));
    board.spawn_white_knight(tile("b1"));
    board.spawn_white_bishop(tile("c1"));
    board.spawn_white_rook(tile("d1"));
    board.spawn_white_queen(tile("e1"));
    board.spawn_white_king(tile("f1"));
    board.spawn_black_pawn(tile("a2"));
    board.spawn_black_knight(tile("b2"));
    board.spawn_black_bishop(tile("c2"));
    board.spawn_black_rook(tile("d2"));
    board.spawn_black_queen(tile("e2"));
    board.spawn_black_king(tile("f2"));
    let kinds = PieceType::all();
    for (i, kind) in kinds.iter().enumerate() {
        let white = Tile::from_nth(i as u8);
        let black = Tile::from_nth(8 + i as u8);
        assert_eq!(board.get_piece(white), Some(Piece::new(*kind, Color::White)));
        assert_eq!(board.get_piece(black), Some(Piece::new(*kind, Color::Black)));
        assert!(board.has_white_piece_on(white));
        assert!(!board.has_black_piece_on(white));
        assert!(board.has_black_piece_on(black));
        assert_eq!(board.get_mask(Piece::new(*kind, Color::White)), 1u64 << i);
        assert_eq!(board.get_mask(Piece::new(*kind, Color::Black)), 1u64 << (8 + i));
    }
    assert_eq!(board.white_pieces_as_bits(), 0x3f);
    assert_eq!(board.black_pieces_as_bits(), 0x3f00);
    assert_eq!(board.all_pieces_as_bits(), 0x3f3f);
    assert_eq!(board.get_king_bits(Color::White), 1 << 5);
    assert_eq!(board.get_king_bits(Color::Black), 1 << 13);
}

#[test]
fn the_starting_position() {
    let board = Board::default();
    let back = [
        PieceType::Rook,
        PieceType::Knight,
        PieceType::Bishop,
        PieceType::Queen,
        PieceType::King,
        PieceType::Bishop,
        PieceType::Knight,
        PieceType::Rook,
    ];
    for file in 0..8u8 {
        assert_eq!(board.get_piece(Tile::from_nth(file)), Some(Piece::new(back[file as usize], Color::White)));
        assert_eq!(board.get_piece(Tile::from_nth(8 + file)), Some(Piece::pawn(Color::White)));
        for rank in 2..6u8 {
            assert_eq!(board.get_piece(Tile::from_nth(rank * 8 + file)), None);
        }
        assert_eq!(board.get_piece(Tile::from_nth(48 + file)), Some(Piece::pawn(Color::Black)));
        assert_eq!(board.get_piece(Tile::from_nth(56 + file)), Some(Piece::new(back[file as usize], Color::Black)));
    }
    assert_eq!(board.whose_turn(), Color::White);
    assert_eq!(board.get_en_passant(), None);
    assert_eq!(board.get_winner(), None);
    let rights = board.get_castling_rights();
    for color in [Color::White, Color::Black] {
        for side in [CastlingSide::King, CastlingSide::Queen] {
            assert!(rights.can_castle_color_and_side(color, side));
            assert!(rights.can_castle(
                Tile::king_start_position(color),
                Tile::rook_start_position(color, side)
            ));
        }
    }
    assert!(board.sanity_check().is_ok());
    assert_eq!(Move::legal_moves(&board).len(), 20);
    assert!(!board.is_in_check(Color::White));
    assert!(!board.is_in_check(Color::Black));
    assert!(!board.is_stalemate());
}

#[test]
fn the_empty_board() {
    let board = Board::empty();
    for n in 0..64u8 {
        assert_eq!(board.get_piece(Tile::from_nth(n)), None);
    }
    assert_eq!(board.all_pieces_as_bits(), 0);
    assert_eq!(board.whose_turn(), Color::White);
    assert_eq!(board.get_castling_rights(), eco_chess::CastlingRights::none());
    assert!(board.sanity_check().is_ok());
    assert!(board.is_stalemate());
    assert!(Move::legal_moves(&board).is_empty());
}

#[test]
fn counts_and_values_of_the_starting_position() {
    let board = Board::default();
    assert_eq!(board.white_piece_count(), 16);
    assert_eq!(board.black_piece_count(), 16);
    assert_eq!(board.white_pawn_count(), 8);
    assert_eq!(board.black_pawn_count(), 8);
    assert_eq!(board.white_knight_count(), 2);
    assert_eq!(board.black_knight_count(), 2);
    assert_eq!(board.white_bishop_count(), 2);
    assert_eq!(board.black_bishop_count(), 2);
    assert_eq!(board.white_rook_count(), 2);
    assert_eq!(board.black_rook_count(), 2);
    assert_eq!(board.white_queen_count(), 1);
    assert_eq!(board.black_queen_count(), 1);
    assert_eq!(board.white_king_count(), 1);
    assert_eq!(board.black_king_count(), 1);
    assert_eq!(board.piece_count(Piece::pawn(Color::White)), 8);
    let expected = (8.0 * 1.0 + 2.0 * 3.0 + 2.0 * 3.15 + 2.0 * 5.0 + 1.0 * 9.0 + 1.0 * 100.0) as u64;
    assert_eq!(expected, 139);
    assert_eq!(board.total_white_piece_value(), 139);
    assert_eq!(board.total_black_piece_value(), 139);
    assert_eq!(board.total_piece_value(Color::White), 139);
}

#[test]
fn values_round_down_to_whole_pawns() {
    let mut board = Board::empty();
    board.spawn_white_bishop(tile("a1"));
    assert_eq!(board.total_white_piece_value(), 3);
    assert_eq!(board.total_white_piece_value(), (1.0f64 * 3.15) as u64);
    for name in ["b1", "c1", "d1", "e1", "f1", "g1"] {
        board.spawn_white_bishop(tile(name));
    }
    assert_eq!(board.white_bishop_count(), 7);
    assert_eq!(board.total_white_piece_value(), 22);
    assert_eq!(board.total_white_piece_value(), (7.0f64 * 3.15) as u64);
    assert_eq!(board.total_black_piece_value(), 0);
    for n in 8..28u8 {
        board.spawn_black_bishop(Tile::from_nth(n));
    }
    assert_eq!(board.black_bishop_count(), 20);
    assert_eq!(board.total_black_piece_value(), 63);
    assert_eq!(board.total_black_piece_value(), (20.0f64 * 3.15) as u64);
}

#[test]
fn next_piece_scans_from_the_lowest_square() {
    let board = Board::default();
    assert_eq!(board.next_white_piece(tile("b1")), tile("b1"));
    assert_eq!(board.next_white_piece(tile("c1")), tile("a1"));
    assert_eq!(board.next_black_piece(tile("b1")), tile("a7"));
    assert_eq!(board.next_black_piece(tile("b7")), tile("b7"));
}

#[test]
fn check_is_the_meeting_of_king_and_attacks() {
    let mut boards = Vec::new();
    boards.push(Board::default());
    boards.push(castling_board());
    let mut board = Board::empty();
    board.spawn_white_king(tile("e1"));
    board.spawn_black_rook(tile("e8"));
    board.spawn_black_king(tile("a8"));
    board.spawn_white_bishop(tile("h1"));
    boards.push(board);
    board.spawn_black_pawn(tile("e4"));
    boards.push(board);
    board.spawn_white_knight(tile("c7"));
    boards.push(board);
    for board in boards {
        for color in [Color::White, Color::Black] {
            let king = board.get_king_bits(color);
            let attacked = board.get_attacking_bits(color.enemy());
            assert_eq!(board.is_in_check(color), king & attacked != 0);
        }
        assert_eq!(board.get_attacking_bits(Color::White), board.white_attacking_bits());
        assert_eq!(board.get_attacking_bits(Color::Black), board.black_attacking_bits());
    }
}

#[test]
fn attack_sets_stop_at_the_first_piece() {
    let mut board = Board::empty();
    board.spawn_white_rook(tile("a1"));
    board.spawn_black_pawn(tile("a4"));
    board.spawn_white_pawn(tile("d1"));
    let mut expected = 0u64;
    for name in ["a1", "a2", "a3", "a4", "b1", "c1", "d1", "e2", "c2"] {
        expected |= tile(name).to_bit();
    }
    assert_eq!(board.white_attacking_bits(), expected);
    assert_eq!(board.black_attacking_bits(), tile("b3").to_bit());
    assert!(board.is_blocked(tile("a1"), tile("a8")));
    assert!(!board.is_blocked(tile("a1"), tile("a4")));
    assert!(!board.is_blocked(tile("a1"), tile("a1")));
    assert!(!board.is_blocked(tile("a1"), tile("a2")));
    assert!(board.is_blocked(tile("a1"), tile("h1")));
    assert!(!board.is_blocked(tile("a4"), tile("d1")));
    assert!(eco_chess::vision::is_blocked(1 << 9, tile("a1"), tile("c8")));
    assert!(!eco_chess::vision::is_blocked(1 << 9, tile("a1"), tile("b2")));
    assert!(eco_chess::vision::is_blocked(1 << 18, tile("a1"), tile("c8")));
    assert!(!eco_chess::vision::is_blocked(1 << 17, tile("a1"), tile("c8")));
    let vision = tile("a1").rook_attacking_bits();
    let seen = eco_chess::vision::visible_pieces(board.all_pieces_as_bits(), tile("a1"), vision);
    let mut visible = 0u64;
    for name in ["a1", "a2", "a3", "a4", "b1", "c1", "d1"] {
        visible |= tile(name).to_bit();
    }
    assert_eq!(seen, visible);
}

#[test]
fn knights_jump() {
    let mut board = Board::empty();
    board.spawn_white_knight(tile("b1"));
    board.spawn_white_pawn(tile("b2"));
    board.spawn_white_pawn(tile("c2"));
    board.spawn_white_pawn(tile("a2"));
    board.spawn_black_pawn(tile("c3"));
    assert!(board.is_legal_piece_move(tile("b1"), tile("c3")));
    assert!(board.is_legal_piece_move(tile("b1"), tile("a3")));
    assert!(!board.is_legal_piece_move(tile("b1"), tile("d3")));
    assert!(!board.is_legal_piece_move(tile("b1"), tile("b4")));
    assert!(play(&mut board, "b1c3").is_ok());
    assert_eq!(board.get_piece(tile("c3")), Some(Piece::knight(Color::White)));
    assert_eq!(board.get_piece(tile("b1")), None);
}

#[test]
fn checkmate_means_check_and_no_legal_move() {
    let mut board = Board::empty();
    board.spawn_white_king(tile("a1"));
    board.spawn_black_rook(tile("h1"));
    board.spawn_black_rook(tile("g2"));
    assert!(board.is_in_checkmate(Color::White));
    assert!(board.is_in_check(Color::White));
    assert!(!board.can_move_any(Color::White));
    assert!(Move::legal_moves(&board).is_empty());
    assert!(!board.is_stalemate());
    assert!(!board.is_in_checkmate(Color::Black));
    board.remove_piece(tile("g2"));
    assert!(board.is_in_check(Color::White));
    assert!(!board.is_in_checkmate(Color::White));
    assert!(board.can_move_any(Color::White));
    assert_eq!(
        Move::legal_moves(&board),
        vec![Move::from_str("a1b2").unwrap(), Move::from_str("a1a2").unwrap()]
    );
    board.remove_piece(tile("h1"));
    assert!(!board.is_in_check(Color::White));
    assert!(!board.is_in_checkmate(Color::White));
}

#[test]
fn stalemate_means_no_check_and_no_legal_move() {
    let mut board = Board::empty();
    board.spawn_white_king(tile("a2"));
    board.spawn_black_rook(tile("h1"));
    board.spawn_black_rook(tile("b8"));
    board.spawn_black_rook(tile("g3"));
    assert!(board.is_stalemate());
    assert!(!board.is_in_check(board.whose_turn()));
    assert!(!board.can_move_any(board.whose_turn()));
    assert!(Move::legal_moves(&board).is_empty());
    board.set_turn(Color::Black);
    assert!(!board.is_stalemate());
    assert!(!Move::legal_moves(&board).is_empty());
}

#[test]
fn castling_rights_without_their_king_can_outlive_a_stalemate() {
    let mut board = Board::default();
    for n in 0..64u8 {
        board.remove_piece(Tile::from_nth(n));
    }
    board.set_turn(Color::Black);
    board.spawn(PieceType::King, tile("e1"));
    board.spawn(PieceType::Rook, tile("h1"));
    board.set_turn(Color::White);
    assert!(board.sanity_check().is_err());
    assert!(board.is_stalemate());
    assert!(!board.can_move_any(Color::White));
    assert_eq!(Move::legal_moves(&board), vec![Move::Castling(CastlingSide::King)]);
}

#[test]
fn turns_alternate() {
    let mut board = Board::empty();
    board.spawn_white_pawn(tile("e2"));
    board.spawn_black_pawn(tile("e7"));
    assert_eq!(board.whose_turn(), Color::White);
    assert!(play(&mut board, "e7e6").is_err());
    assert_eq!(board.whose_turn(), Color::White);
    assert!(play(&mut board, "e3").is_ok());
    assert_eq!(board.whose_turn(), Color::Black);
    assert!(play(&mut board, "e3e4").is_err());
    assert_eq!(board.whose_turn(), Color::Black);
    assert!(play(&mut board, "e6").is_ok());
    assert_eq!(board.whose_turn(), Color::White);
    assert_eq!(board.get_piece(tile("e3")), Some(Piece::pawn(Color::White)));
    assert_eq!(board.get_piece(tile("e6")), Some(Piece::pawn(Color::Black)));
    assert_eq!(board.get_piece(tile("e2")), None);
    assert_eq!(board.get_piece(tile("e7")), None);
}

#[test]
fn a_refused_move_changes_nothing() {
    let mut board = Board::default();
    let before = board;
    for text in ["e2e5", "e1e2", "a1a3", "e7e5", "Ke2", "O-O", "O-O-O", "$Qe4", "b1d2", "d1h5"] {
        assert!(play(&mut board, text).is_err());
        assert_eq!(board, before);
        assert!(!board.is_legal_move(&Move::from_str(text).unwrap()));
    }
    assert!(board.apply(Move::PieceTo { piece: PieceType::Queen, to: tile("e4"), promotion: None }).is_err());
    assert_eq!(board, before);
}

#[test]
fn a_double_push_opens_the_en_passant_window() {
    let mut board = Board::default();
    assert!(play(&mut board, "e2e4").is_ok());
    assert_eq!(board.get_en_passant(), Some(tile("e3")));
    assert!(board.sanity_check().is_ok());
    assert!(play(&mut board, "d7d5").is_ok());
    assert_eq!(board.get_en_passant(), Some(tile("d6")));
    assert!(play(&mut board, "b1c3").is_ok());
    assert_eq!(board.get_en_passant(), None);
    assert!(play(&mut board, "a7a6").is_ok());
    assert_eq!(board.get_en_passant(), None);
    assert!(play(&mut board, "e4d5").is_ok());
    assert_eq!(board.get_en_passant(), None);
    assert!(play(&mut board, "pass").is_ok());
    assert!(play(&mut board, "g2g4").is_ok());
    assert_eq!(board.get_en_passant(), Some(tile("g3")));
    assert!(play(&mut board, "pass").is_ok());
    assert_eq!(board.get_en_passant(), None);
    assert!(play(&mut board, "h2h4").is_ok());
    assert_eq!(board.get_en_passant(), Some(tile("h3")));
    assert!(play(&mut board, "resign").is_ok());
    assert_eq!(board.get_en_passant(), None);
}

#[test]
fn capturing_in_passing_takes_the_pawn_behind_the_target() {
    let mut board = Board::empty();
    board.spawn_white_pawn(tile("e5"));
    board.spawn_black_pawn(tile("d7"));
    board.spawn_black_pawn(tile("f7"));
    board.set_turn(Color::Black);
    assert!(play(&mut board, "d7d5").is_ok());
    assert_eq!(board.get_en_passant(), Some(tile("d6")));
    assert!(board.is_legal_piece_move(tile("e5"), tile("d6")));
    assert!(!board.is_legal_piece_move(tile("e5"), tile("f6")));
    assert!(play(&mut board, "e5d6").is_ok());
    assert_eq!(board.get_piece(tile("d6")), Some(Piece::pawn(Color::White)));
    assert_eq!(board.get_piece(tile("d5")), None);
    assert_eq!(board.get_piece(tile("e5")), None);
    assert_eq!(board.get_piece(tile("f7")), Some(Piece::pawn(Color::Black)));
    assert_eq!(board.get_en_passant(), None);
    assert_eq!(board.black_pawn_count(), 1);
}

#[test]
fn a_capture_in_passing_that_comes_too_late_is_refused() {
    let mut board = Board::empty();
    board.spawn_white_pawn(tile("e5"));
    board.spawn_white_pawn(tile("a2"));
    board.spawn_black_pawn(tile("d7"));
    board.spawn_black_pawn(tile("h7"));
    board.set_turn(Color::Black);
    assert!(play(&mut board, "d7d5").is_ok());
    assert!(play(&mut board, "a2a3").is_ok());
    assert!(play(&mut board, "h7h6").is_ok());
    let before = board;
    assert!(play(&mut board, "e5d6").is_err());
    assert_eq!(board, before);
}

#[test]
fn promotion_takes_the_named_kind_or_a_queen() {
    for (promotion, expected) in [
        (None, PieceType::Queen),
        (Some(PieceType::Queen), PieceType::Queen),
        (Some(PieceType::Rook), PieceType::Rook),
        (Some(PieceType::Bishop), PieceType::Bishop),
        (Some(PieceType::Knight), PieceType::Knight),
    ] {
        let mut board = Board::empty();
        board.spawn_white_pawn(tile("e7"));
        board.spawn_black_rook(tile("d8"));
        assert!(board.is_valid_promotion(tile("e7"), tile("d8")));
        assert!(!board.is_valid_promotion(tile("e7"), tile("d7")));
        assert!(!board.is_valid_promotion(tile("d8"), tile("d1")));
        assert!(board.apply(Move::new(tile("e7"), tile("d8"), promotion)).is_ok());
        assert_eq!(board.get_piece(tile("d8")), Some(Piece::new(expected, Color::White)));
        assert_eq!(board.get_piece(tile("e7")), None);
        assert_eq!(board.white_pawn_count(), 0);
        assert_eq!(board.black_rook_count(), 0);
        assert_eq!(board.whose_turn(), Color::Black);
    }
    let mut board = Board::empty();
    board.spawn_black_pawn(tile("a2"));
    board.set_turn(Color::Black);
    assert!(play(&mut board, "a2a1N").is_ok());
    assert_eq!(board.get_piece(tile("a1")), Some(Piece::knight(Color::Black)));
}

#[test]
fn promotions_are_generated_once_for_each_kind() {
    let mut board = Board::empty();
    board.spawn_white_pawn(tile("a7"));
    let from = tile("a7");
    let to = tile("a8");
    assert_eq!(
        Move::legal_moves(&board),
        vec![
            Move::new(from, to, Some(PieceType::Knight)),
            Move::new(from, to, Some(PieceType::Bishop)),
            Move::new(from, to, Some(PieceType::Rook)),
            Move::new(from, to, Some(PieceType::Queen)),
        ]
    );
}

#[test]
fn castling_moves_king_and_rook_and_takes_both_rights() {
    let mut board = castling_board();
    assert!(board.sanity_check().is_ok());
    assert!(board.can_castle(tile("e1"), tile("h1")));
    assert!(board.can_castle(tile("e1"), tile("a1")));
    assert!(board.is_castling_move(tile("e1"), tile("h1")));
    assert!(!board.is_castling_move(tile("e1"), tile("f1")));
    assert!(!board.is_castling_move(tile("a1"), tile("e1")));
    assert!(board.is_legal_move(&Move::Castling(CastlingSide::King)));
    let moves = Move::legal_moves(&board);
    assert_eq!(moves[moves.len() - 2], Move::Castling(CastlingSide::King));
    assert_eq!(moves[moves.len() - 1], Move::Castling(CastlingSide::Queen));
    assert!(play(&mut board, "O-O").is_ok());
    assert_eq!(board.get_piece(tile("g1")), Some(Piece::king(Color::White)));
    assert_eq!(board.get_piece(tile("f1")), Some(Piece::rook(Color::White)));
    assert_eq!(board.get_piece(tile("e1")), None);
    assert_eq!(board.get_piece(tile("h1")), None);
    assert_eq!(board.get_piece(tile("a1")), Some(Piece::rook(Color::White)));
    assert_eq!(board.whose_turn(), Color::Black);
    let rights = board.get_castling_rights();
    assert!(!rights.can_castle_color_and_side(Color::White, CastlingSide::King));
    assert!(!rights.can_castle_color_and_side(Color::White, CastlingSide::Queen));
    assert!(rights.can_castle_color_and_side(Color::Black, CastlingSide::King));
    assert!(rights.can_castle_color_and_side(Color::Black, CastlingSide::Queen));
    assert!(board.sanity_check().is_ok());
    assert!(play(&mut board, "O-O-O").is_ok());
    assert_eq!(board.get_piece(tile("c8")), Some(Piece::king(Color::Black)));
    assert_eq!(board.get_piece(tile("d8")), Some(Piece::rook(Color::Black)));
    assert_eq!(board.get_piece(tile("a8")), None);
    assert_eq!(board.get_piece(tile("e8")), None);
    assert_eq!(board.get_castling_rights(), eco_chess::CastlingRights::none());
    assert!(board.sanity_check().is_ok());
}

#[test]
fn castling_as_a_king_move_onto_the_rook() {
    let mut board = castling_board();
    assert!(board.is_legal_piece_move(tile("e1"), tile("a1")));
    assert!(play(&mut board, "e1a1").is_ok());
    assert_eq!(board.get_piece(tile("c1")), Some(Piece::king(Color::White)));
    assert_eq!(board.get_piece(tile("d1")), Some(Piece::rook(Color::White)));
    assert_eq!(board.get_piece(tile("a1")), None);
}

#[test]
fn no_castling_out_of_through_or_into_check_or_past_a_piece() {
    let mut board = castling_board();
    board.remove_piece(tile("e2"));
    board.spawn_black_rook(tile("e5"));
    assert!(board.is_in_check(Color::White));
    assert!(!board.can_castle(tile("e1"), tile("h1")));
    assert!(!board.can_castle(tile("e1"), tile("a1")));

    let mut board = castling_board();
    board.remove_piece(tile("f2"));
    board.spawn_black_rook(tile("f5"));
    assert!(!board.is_in_check(Color::White));
    assert!(!board.can_castle(tile("e1"), tile("h1")));
    assert!(board.can_castle(tile("e1"), tile("a1")));

    let mut board = castling_board();
    board.set_turn(Color::White);
    board.spawn(PieceType::Knight, tile("b1"));
    assert!(board.can_castle(tile("e1"), tile("h1")));
    assert!(!board.can_castle(tile("e1"), tile("a1")));

    let mut board = castling_board();
    board.remove_piece(tile("h1"));
    assert!(!board.can_castle(tile("e1"), tile("h1")));
    board.spawn_black_rook(tile("h1"));
    assert!(!board.can_castle(tile("e1"), tile("h1")));
}

#[test]
fn moving_a_king_or_a_rook_takes_castling_rights() {
    let mut board = castling_board();
    assert!(play(&mut board, "h1g1").is_ok());
    let rights = board.get_castling_rights();
    assert!(!rights.can_castle_color_and_side(Color::White, CastlingSide::King));
    assert!(rights.can_castle_color_and_side(Color::White, CastlingSide::Queen));
    assert!(play(&mut board, "e8d8").is_ok());
    let rights = board.get_castling_rights();
    assert!(!rights.can_castle_color_and_side(Color::Black, CastlingSide::King));
    assert!(!rights.can_castle_color_and_side(Color::Black, CastlingSide::Queen));
    assert!(play(&mut board, "g1h1").is_ok());
    assert!(play(&mut board, "d8e8").is_ok());
    assert!(!board.can_castle(tile("e1"), tile("h1")));
    assert!(!board.can_castle(tile("e8"), tile("h8")));
    assert!(board.can_castle(tile("e1"), tile("a1")));
    assert!(play(&mut board, "a1b1").is_ok());
    assert_eq!(
        board.get_castling_rights(),
        eco_chess::CastlingRights::none()
    );
}

#[test]
fn castling_rights_are_switched_off_one_at_a_time() {
    let mut rights = eco_chess::CastlingRights::default();
    assert!(rights.can_castle(tile("e1"), tile("h1")));
    assert!(rights.can_castle(tile("e1"), tile("g1")));
    assert!(rights.can_castle(tile("e8"), tile("a8")));
    assert!(rights.can_castle(tile("e8"), tile("c8")));
    assert!(!rights.can_castle(tile("e1"), tile("h8")));
    assert!(!rights.can_castle(tile("d1"), tile("h1")));
    assert!(!rights.can_castle(tile("e1"), tile("f1")));
    assert!(rights.is_castling_move(tile("e1"), tile("a1")));
    rights.disable_castling(tile("e1"), tile("h1"));
    assert!(!rights.can_castle(tile("e1"), tile("h1")));
    assert!(!rights.can_castle(tile("e1"), tile("g1")));
    assert!(rights.can_castle(tile("e1"), tile("a1")));
    rights.disable_castling(tile("e1"), tile("f1"));
    rights.disable_castling(tile("e1"), tile("h1"));
    assert!(rights.can_castle(tile("e1"), tile("a1")));
    rights.disable_castling_color(Color::Black);
    assert!(!rights.can_castle(tile("e8"), tile("a8")));
    assert!(!rights.can_castle(tile("e8"), tile("h8")));
    assert!(rights.can_castle(tile("e1"), tile("a1")));
    rights.disable_castling_color_and_side(Color::White, CastlingSide::Queen);
    assert_eq!(rights, eco_chess::CastlingRights::none());
}

#[test]
fn kind_and_destination_pick_the_first_piece_in_tile_order() {
    let mut board = Board::empty();
    board.spawn_white_rook(tile("h1"));
    board.spawn_white_rook(tile("a4"));
    board.spawn_white_rook(tile("d8"));
    assert_eq!(board.get_eligible_piece(PieceType::Rook, tile("d4")), Some(tile("a4")));
    assert_eq!(board.get_eligible_piece(PieceType::Rook, tile("d1")), Some(tile("h1")));
    assert_eq!(board.get_eligible_piece(PieceType::Rook, tile("h8")), Some(tile("h1")));
    assert_eq!(board.get_eligible_piece(PieceType::Rook, tile("e5")), None);
    assert_eq!(board.get_eligible_piece(PieceType::Queen, tile("d4")), None);
    assert!(play(&mut board, "Rd4").is_ok());
    assert_eq!(board.get_piece(tile("d4")), Some(Piece::rook(Color::White)));
    assert_eq!(board.get_piece(tile("a4")), None);
    assert_eq!(board.get_piece(tile("d8")), Some(Piece::rook(Color::White)));
    board.set_turn(Color::Black);
    assert_eq!(board.get_eligible_piece(PieceType::Rook, tile("d1")), None);
}

#[test]
fn pass_resign_and_purchase() {
    let mut board = Board::default();
    assert!(!board.is_legal_move(&Move::Pass));
    assert!(board.is_legal_move(&Move::Resign));
    assert!(play(&mut board, "pass").is_ok());
    assert_eq!(board.whose_turn(), Color::Black);
    assert_eq!(board.get_winner(), None);
    assert!(play(&mut board, "resign").is_ok());
    assert_eq!(board.whose_turn(), Color::White);
    assert_eq!(board.get_winner(), Some(Color::White));
    let before = board;
    let purchase = Move::Purchase { piece: PieceType::Queen, to: tile("e4") };
    assert!(!board.is_legal_move(&purchase));
    assert!(board.apply(purchase).is_err());
    assert_eq!(board, before);
}

#[test]
fn a_sequence_is_played_in_order_for_one_side() {
    let mut board = Board::default();
    let line = Move::from_str("e2e4 d2d4 g1f3").unwrap();
    assert!(board.is_legal_move(&line));
    assert!(board.apply(line).is_ok());
    assert_eq!(board.whose_turn(), Color::Black);
    assert_eq!(board.get_piece(tile("e4")), Some(Piece::pawn(Color::White)));
    assert_eq!(board.get_piece(tile("d4")), Some(Piece::pawn(Color::White)));
    assert_eq!(board.get_piece(tile("f3")), Some(Piece::knight(Color::White)));
    assert_eq!(board.get_en_passant(), None);
}

#[test]
fn a_failing_sequence_keeps_the_moves_before_the_failure() {
    let mut board = Board::default();
    let line = Move::from_str("e2e4 e4e6 d2d4").unwrap();
    assert!(!board.is_legal_move(&line));
    assert_eq!(board, Board::default());
    assert!(board.apply(line).is_err());
    assert_eq!(board.get_piece(tile("e4")), Some(Piece::pawn(Color::White)));
    assert_eq!(board.get_piece(tile("e2")), None);
    assert_eq!(board.get_piece(tile("d2")), Some(Piece::pawn(Color::White)));
    assert_eq!(board.whose_turn(), Color::White);
}

#[test]
fn the_empty_sequence_does_nothing() {
    let mut board = Board::default();
    assert!(!board.is_legal_move(&Move::Many(vec![])));
    assert!(board.apply(Move::Many(vec![])).is_ok());
    assert_eq!(board, Board::default());
}

#[test]
fn sequences_may_be_nested() {
    let mut board = Board::default();
    let inner = Move::from_str("e2e4 d2d4").unwrap();
    let outer = Move::Many(vec![inner, Move::from_str("g1f3").unwrap()]);
    assert!(board.is_legal_move(&outer));
    assert!(board.apply_ref(&outer).is_ok());
    assert_eq!(board.whose_turn(), Color::Black);
    assert_eq!(board.get_piece(tile("d4")), Some(Piece::pawn(Color::White)));
    assert_eq!(board.get_piece(tile("f3")), Some(Piece::knight(Color::White)));
    assert_eq!(board.get_piece(tile("g1")), None);
}

#[test]
fn inconsistent_boards_fail_the_sanity_check() {
    let mut board = Board::empty();
    board.spawn_white_pawn(tile("e4"));
    board.spawn_black_knight(tile("e4"));
    assert!(!board.masks_are_disjoint());
    assert!(board.sanity_check().is_err());

    let mut board = Board::default();
    assert!(board.masks_are_disjoint());
    board.remove_piece(tile("h1"));
    assert!(board.sanity_check().is_err());

    let mut board = Board::default();
    board.remove_piece(tile("e8"));
    assert!(board.sanity_check().is_err());

    let mut board = Board::default();
    board.set_turn(Color::Black);
    board.spawn(PieceType::King, tile("e5"));
    assert!(board.sanity_check().is_err());

    let mut board = Board::default();
    assert!(play(&mut board, "e2e4").is_ok());
    assert!(board.sanity_check().is_ok());
    board.remove_piece(tile("e4"));
    assert!(board.sanity_check().is_err());
    board.spawn_black_pawn(tile("e4"));
    assert!(board.sanity_check().is_err());
    board.remove_piece(tile("e4"));
    board.spawn_white_knight(tile("e4"));
    assert!(board.sanity_check().is_err());
    board.remove_piece(tile("e4"));
    board.spawn_white_pawn(tile("e4"));
    assert!(board.sanity_check().is_ok());
}

#[test]
fn sectors_go_to_the_side_with_more_material() {
    let board = Board::default();
    for n in 0..16usize {
        let sector = Sector::from_index(n);
        let owner = if n < 4 {
            Some(Color::White)
        } else if n >= 12 {
            Some(Color::Black)
        } else {
            None
        };
        assert_eq!(board.who_controls_sector(sector), owner);
        assert_eq!(board.controls_sector(sector, Color::White), owner == Some(Color::White));
        assert_eq!(board.controls_sector(sector, Color::Black), owner == Some(Color::Black));
    }
    let white = board.get_controlled_sectors(Color::White);
    let black = board.get_controlled_sectors(Color::Black);
    for n in 0..16usize {
        assert_eq!(white[n], n < 4);
        assert_eq!(black[n], n >= 12);
    }
    let (w, b) = board.get_sector_values(Sector::from_index(0));
    assert_eq!((w.get_amount(), b.get_amount()), (10, 0));
    let (w, b) = board.get_sector_values(Sector::from_index(2));
    assert_eq!((w.get_amount(), b.get_amount()), (105, 0));
    let (w, b) = board.get_sector_values(Sector::from_index(13));
    assert_eq!((w.get_amount(), b.get_amount()), (0, 14));
}

#[test]
fn equal_material_controls_nothing() {
    let mut board = Board::empty();
    board.spawn_white_knight(tile("e4"));
    board.spawn_black_bishop(tile("f3"));
    let sector = tile("e4").get_sector();
    assert_eq!(sector, tile("f3").get_sector());
    assert_eq!(board.who_controls_sector(sector), None);
    board.spawn_black_pawn(tile("e3"));
    assert_eq!(board.who_controls_sector(sector), Some(Color::Black));
    board.spawn_white_rook(tile("f4"));
    assert_eq!(board.who_controls_sector(sector), Some(Color::White));
    let (w, b) = board.get_sector_values(sector);
    assert_eq!((w.get_amount(), b.get_amount()), (8, 4));
    let all = board.all_pieces_as_bits();
    assert_eq!(eco_chess::territory::sector_bits(all, sector), all);
    assert_eq!(eco_chess::territory::sector_bits(all, Sector::from_index(0)), 0);
    assert_eq!(eco_chess::territory::sector_bits(u64::MAX, Sector::from_index(0)), 0x0303);
    assert_eq!(eco_chess::territory::sector_bits(u64::MAX, Sector::from_index(15)), 0xc0c0u64 << 48);
}

#[test]
fn moving_bits() {
    let a1 = tile("a1");
    let b1 = tile("b1");
    assert_eq!(eco_chess::board::move_bit(0b0001, a1, b1), 0b0010);
    assert_eq!(eco_chess::board::move_bit(0b0101, a1, b1), 0b0110);
    assert_eq!(eco_chess::board::move_bit(0b0100, a1, b1), 0b0100);
    assert_eq!(eco_chess::board::move_bit(0b0011, a1, b1), 0b0010);
    assert_eq!(eco_chess::board::move_bit(0b0001, a1, a1), 0b0001);
    let mut board = Board::default();
    board.move_piece(tile("a1"), tile("a8"));
    assert_eq!(board.get_piece(tile("a8")), Some(Piece::rook(Color::White)));
    assert_eq!(board.get_piece(tile("a1")), None);
    assert_eq!(board.black_rook_count(), 1);
    board.move_piece(tile("a4"), tile("e8"));
    assert_eq!(board.get_piece(tile("e8")), None);
    board.move_piece(tile("d1"), tile("d1"));
    assert_eq!(board.get_piece(tile("d1")), None);
}

fn kings_and_rooks() -> Board {
    let mut board = Board::default();
    for rank in ["1", "2", "7", "8"] {
        for file in ["a", "b", "c", "d", "e", "f", "g", "h"] {
            let name = format!("{file}{rank}");
            let keep = ["a1", "e1", "h1", "a8", "e8", "h8"].contains(&name.as_str());
            if !keep {
                board.remove_piece(tile(&name));
            }
        }
    }
    board
}

#[test]
fn a_knight_may_not_step_beside_itself() {
    let mut board = Board::empty();
    board.spawn_white_king(tile("a1"));
    board.spawn_white_knight(tile("b3"));
    board.spawn_black_rook(tile("a3"));
    board.spawn_black_rook(tile("h2"));
    board.spawn_black_bishop(tile("d3"));
    assert!(board.sanity_check().is_ok());
    assert!(board.is_in_check(Color::White));
    assert!(board.is_in_checkmate(Color::White));
    assert!(!board.is_legal_piece_move(tile("b3"), tile("a2")));
    assert!(!board.is_legal_piece_move(tile("b3"), tile("b2")));
    assert!(!board.is_legal_piece_move(tile("b3"), tile("a3")));
    assert!(play(&mut board, "b3a2").is_err());
    assert!(Move::legal_moves(&board).is_empty());
    for from in 0..64u8 {
        for to in 0..64u8 {
            assert!(!board.is_legal_piece_move(Tile::from_nth(from), Tile::from_nth(to)));
        }
    }
}

#[test]
fn every_legal_piece_move_is_generated() {
    let mut board = Board::default();
    for text in ["e2e4", "e7e5", "g1f3", "b8c6", "f1c4", "g8f6"] {
        assert!(play(&mut board, text).is_ok());
    }
    let generated = Move::legal_moves(&board);
    for from in 0..64u8 {
        for to in 0..64u8 {
            let (from, to) = (Tile::from_nth(from), Tile::from_nth(to));
            if board.is_legal_piece_move(from, to) && !board.is_castling_move(from, to) {
                let found = generated.iter().any(|m| match m {
                    Move::FromTo { from: f, to: t, .. } => *f == from && *t == to,
                    _ => false,
                });
                assert!(found, "{:?} to {:?}", from, to);
            }
        }
    }
    assert!(generated.contains(&Move::Castling(CastlingSide::King)));
}

#[test]
fn capturing_a_rook_on_its_corner_takes_the_right_of_that_corner() {
    let mut board = kings_and_rooks();
    board.set_turn(Color::Black);
    assert!(board.sanity_check().is_ok());
    assert!(play(&mut board, "h8h1").is_ok());
    let rights = board.get_castling_rights();
    assert!(!rights.can_castle_color_and_side(Color::White, CastlingSide::King));
    assert!(rights.can_castle_color_and_side(Color::White, CastlingSide::Queen));
    assert!(!rights.can_castle_color_and_side(Color::Black, CastlingSide::King));
    assert!(rights.can_castle_color_and_side(Color::Black, CastlingSide::Queen));
    assert!(board.sanity_check().is_ok());
    let mut board = kings_and_rooks();
    assert!(play(&mut board, "a1a8").is_ok());
    let rights = board.get_castling_rights();
    assert!(!rights.can_castle_color_and_side(Color::White, CastlingSide::Queen));
    assert!(rights.can_castle_color_and_side(Color::White, CastlingSide::King));
    assert!(!rights.can_castle_color_and_side(Color::Black, CastlingSide::Queen));
    assert!(rights.can_castle_color_and_side(Color::Black, CastlingSide::King));
    assert!(board.sanity_check().is_ok());
}

#[test]
fn capturing_a_king_on_its_home_square_takes_both_rights() {
    let mut board = kings_and_rooks();
    board.spawn_white_queen(tile("e5"));
    assert!(board.sanity_check().is_ok());
    assert!(play(&mut board, "e5e8").is_ok());
    let rights = board.get_castling_rights();
    assert!(!rights.can_castle_color_and_side(Color::Black, CastlingSide::King));
    assert!(!rights.can_castle_color_and_side(Color::Black, CastlingSide::Queen));
    assert!(rights.can_castle_color_and_side(Color::White, CastlingSide::King));
    assert!(rights.can_castle_color_and_side(Color::White, CastlingSide::Queen));
    assert!(board.sanity_check().is_ok());
}

#[test]
fn accepted_moves_keep_a_game_consistent() {
    let mut board = Board::default();
    let game = [
        "e2e4", "d7d5", "e4d5", "c7c5", "d5c6", "b8c6", "g1f3", "c8g4", "f1b5", "d8d7", "O-O",
        "O-O-O", "b5c6", "d7c6", "f3e5", "g4d1", "e5c6", "d1c2", "c6a7", "c8b8", "a7c6", "b7c6",
    ];
    for text in game {
        assert!(board.is_legal_move(&Move::from_str(text).unwrap()), "{text}");
        assert!(play(&mut board, text).is_ok(), "{text}");
        assert!(board.sanity_check().is_ok(), "{text}");
    }
}

#[test]
fn a_pawn_made_king_beside_castling_rights_breaks_consistency() {
    let mut board = kings_and_rooks();
    board.spawn_white_pawn(tile("c7"));
    assert!(board.sanity_check().is_ok());
    assert!(play(&mut board, "c7c8K").is_ok());
    assert_eq!(board.get_piece(tile("c8")), Some(Piece::king(Color::White)));
    assert!(board.sanity_check().is_err());
    let mut board = kings_and_rooks();
    board.spawn_white_pawn(tile("c7"));
    assert!(play(&mut board, "c7c8R").is_ok());
    assert!(board.sanity_check().is_ok());
}

#[test]
fn castling_is_refused_where_it_is_not_allowed() {
    let mut board = Board::empty();
    board.spawn_white_rook(tile("e1"));
    let before = board;
    assert!(board.is_legal_piece_move(tile("e1"), tile("h1")));
    assert!(!board.is_legal_move(&Move::Castling(CastlingSide::King)));
    assert!(board.apply(Move::Castling(CastlingSide::King)).is_err());
    assert_eq!(board, before);
    assert!(board.apply(Move::Castling(CastlingSide::Queen)).is_err());
    assert_eq!(board, before);
    assert!(play(&mut board, "O-O").is_err());
    assert_eq!(board, before);
}

#[test]
fn a_move_is_legal_exactly_when_it_can_be_played() {
    let mut boards = vec![Board::default(), castling_board(), kings_and_rooks()];
    let mut lone = Board::empty();
    lone.spawn_white_rook(tile("e1"));
    boards.push(lone);
    let mut moves = vec![
        Move::Castling(CastlingSide::King),
        Move::Castling(CastlingSide::Queen),
    ];
    for text in ["e4", "Nf3", "Nb3", "Re2", "Kd1", "Ra5", "h5"] {
        moves.push(Move::from_str(text).unwrap());
    }
    for from in 0..64u8 {
        for to in 0..64u8 {
            moves.push(Move::FromTo {
                from: Tile::from_nth(from),
                to: Tile::from_nth(to),
                promotion: None,
            });
        }
    }
    for board in boards {
        for color in [Color::White, Color::Black] {
            for player_move in &moves {
                let mut copy = board;
                copy.set_turn(color);
                let legal = copy.is_legal_move(player_move);
                assert_eq!(copy.apply_ref(player_move).is_ok(), legal, "{:?}", player_move);
            }
        }
    }
}
