//! The search: scores, the choice among scored moves, and negamax with
//! engines whose evaluation is known.

use eco_chess::{
    best_move, legal_moves, minimax, select_best, Board, Color, Engine, Move, Piece, PieceType,
    Position, RandomEngine, Score, Tile,
};
use std::str::FromStr;

fn tile(name: &str) -> Tile {
    Tile::from_str(name).unwrap()
}

/// Counts material in whole pawns: the colour's own minus the other's.
struct Material;

impl Engine<Board> for Material {
    fn name(&self) -> String {
        "Material".to_string()
    }

    fn evaluate(&self, board: &Board, color: Color) -> Score {
        let mut total = 0i64;
        for n in 0..64u8 {
            if let Some(piece) = board.get_piece(Tile::from_nth(n)) {
                let value = piece.get_type().whole_value() as i64;
                if piece.get_color() == color {
                    total += value;
                } else {
                    total -= value;
                }
            }
        }
        Score::Value(total)
    }
}

/// Finds every position equally good.
struct Indifferent;

impl Engine<Board> for Indifferent {
    fn name(&self) -> String {
        "Indifferent".to_string()
    }

    fn evaluate(&self, _board: &Board, _color: Color) -> Score {
        Score::Value(0)
    }
}

#[test]
fn scores_are_ordered_and_negated() {
    assert!(Score::Value(1).exceeds(Score::Value(0)));
    assert!(!Score::Value(0).exceeds(Score::Value(0)));
    assert!(!Score::Value(-1).exceeds(Score::Value(0)));
    assert!(Score::Value(i64::MIN).exceeds(Score::Worst));
    assert!(!Score::Worst.exceeds(Score::Value(i64::MIN)));
    assert!(!Score::Worst.exceeds(Score::Worst));
    assert!(Score::Best.exceeds(Score::Value(i64::MAX)));
    assert!(!Score::Value(i64::MAX).exceeds(Score::Best));
    assert!(!Score::Best.exceeds(Score::Best));
    assert!(Score::Best.exceeds(Score::Worst));
    assert_eq!(Score::Value(5).negate(), Score::Value(-5));
    assert_eq!(Score::Value(-5).negate(), Score::Value(5));
    assert_eq!(Score::Value(0).negate(), Score::Value(0));
    assert_eq!(Score::Value(i64::MAX).negate(), Score::Value(-i64::MAX));
    assert_eq!(Score::Value(i64::MIN).negate(), Score::Value(i64::MAX));
    assert_eq!(Score::Worst.negate(), Score::Best);
    assert_eq!(Score::Best.negate(), Score::Worst);
}

#[test]
fn the_first_of_the_best_is_chosen() {
    let a = Move::from_str("a2a3").unwrap();
    let b = Move::from_str("b2b3").unwrap();
    let c = Move::from_str("c2c3").unwrap();
    let d = Move::from_str("d2d3").unwrap();
    let scored = vec![
        (Score::Value(1), a.clone()),
        (Score::Value(7), b.clone()),
        (Score::Value(7), c.clone()),
        (Score::Value(3), d.clone()),
    ];
    assert_eq!(select_best(&scored), (Score::Value(7), b.clone()));
    let scored = vec![(Score::Worst, a.clone()), (Score::Worst, b.clone())];
    assert_eq!(select_best(&scored), (Score::Worst, a.clone()));
    let scored = vec![
        (Score::Value(i64::MAX), a.clone()),
        (Score::Best, b.clone()),
        (Score::Best, c.clone()),
    ];
    assert_eq!(select_best(&scored), (Score::Best, b.clone()));
    let scored = vec![(Score::Value(-4), d.clone())];
    assert_eq!(select_best(&scored), (Score::Value(-4), d));
    assert_eq!(select_best(&Vec::new()), (Score::Worst, Move::Pass));
}

#[test]
fn the_engine_lists_the_legal_moves_of_the_board() {
    let board = Board::default();
    assert_eq!(legal_moves(&Material, &board), Move::legal_moves(&board));
    assert_eq!(legal_moves(&RandomEngine, &board).len(), 20);
}

#[test]
fn at_depth_zero_the_position_is_evaluated() {
    let board = Board::default();
    let first = Move::from_str("e2e4").unwrap();
    assert_eq!(
        minimax(&Material, &board, 0, Color::White, Some(first.clone())),
        (Score::Value(0), first.clone())
    );
    let mut board = Board::default();
    board.remove_piece(tile("d8"));
    assert_eq!(
        minimax(&Material, &board, 0, Color::White, Some(first.clone())),
        (Score::Value(9), first.clone())
    );
    assert_eq!(
        minimax(&Material, &board, 0, Color::Black, Some(first.clone())),
        (Score::Value(-9), first)
    );
}

#[test]
fn without_a_legal_move_the_search_passes() {
    let mut board = Board::empty();
    board.spawn_white_king(tile("a1"));
    board.spawn_black_rook(tile("h1"));
    board.spawn_black_rook(tile("g2"));
    assert_eq!(minimax(&Material, &board, 1, Color::White, None), (Score::Worst, Move::Pass));
    assert_eq!(minimax(&Material, &board, 3, Color::White, None), (Score::Worst, Move::Pass));
    assert_eq!(best_move(&Material, &board), Some(Move::Pass));
    assert_eq!(best_move(&RandomEngine, &Board::empty()), Some(Move::Pass));
}

#[test]
fn equal_branches_resolve_to_the_first_move() {
    let board = Board::default();
    let moves = Move::legal_moves(&board);
    let (score, chosen) = minimax(&Indifferent, &board, 1, Color::White, None);
    assert_eq!(score, Score::Value(0));
    assert_eq!(chosen, moves[0]);
    let (score, chosen) = minimax(&Indifferent, &board, 2, Color::White, None);
    assert_eq!(score, Score::Value(0));
    assert_eq!(chosen, moves[0]);
}

#[test]
fn one_ply_of_negamax_negates_the_evaluation() {
    let mut board = Board::empty();
    board.spawn_white_rook(tile("a1"));
    board.spawn_black_queen(tile("a8"));
    board.spawn_black_pawn(tile("h7"));
    let moves = Move::legal_moves(&board);
    let (score, chosen) = minimax(&Material, &board, 1, Color::White, None);
    assert_eq!(score, Score::Value(5));
    assert_eq!(chosen, moves[0]);
    assert_ne!(chosen, Move::from_str("a1a8").unwrap());
    let (score, chosen) = minimax(&Material, &board, 1, Color::Black, None);
    assert_eq!(score, Score::Value(4));
    assert_eq!(chosen, Move::from_str("a1a8").unwrap());
}

#[test]
fn two_plies_of_negamax() {
    let mut board = Board::empty();
    board.spawn_white_rook(tile("a1"));
    board.spawn_black_queen(tile("a8"));
    let (score, chosen) = minimax(&Material, &board, 2, Color::White, None);
    let moves = Move::legal_moves(&board);
    assert!(moves.contains(&chosen));
    assert_eq!(score, Score::Best);
    assert_eq!(chosen, Move::from_str("a1a8").unwrap());
    board.spawn_black_pawn(tile("h7"));
    let (score, chosen) = minimax(&Material, &board, 2, Color::White, None);
    assert_eq!(score, Score::Value(4));
    assert_eq!(chosen, Move::from_str("a1a8").unwrap());
}

#[test]
fn the_best_move_is_a_legal_move() {
    let mut board = Board::empty();
    board.spawn_white_king(tile("a1"));
    board.spawn_white_pawn(tile("b2"));
    board.spawn_black_king(tile("h8"));
    board.spawn_black_pawn(tile("c3"));
    let moves = Move::legal_moves(&board);
    assert!(!moves.is_empty());
    let chosen = best_move(&Material, &board).unwrap();
    assert!(moves.contains(&chosen));
    let chosen = best_move(&RandomEngine, &board).unwrap();
    assert!(moves.contains(&chosen));
    assert_eq!(board.get_piece(tile("b2")), Some(Piece::new(PieceType::Pawn, Color::White)));
}

#[test]
fn playing_on_a_copy_leaves_the_position_alone() {
    let board = Board::default();
    let first = Move::from_str("e2e4").unwrap();
    let next = Position::play(&board, &first).unwrap();
    assert_eq!(board, Board::default());
    let mut expected = Board::default();
    assert!(expected.apply(first).is_ok());
    assert_eq!(next, expected);
    assert_eq!(Position::play(&board, &Move::from_str("e2e5").unwrap()), None);
    assert_eq!(Position::whose_turn(&next), Color::Black);
    assert_eq!(Position::legal_moves(&board), Move::legal_moves(&board));
}

#[test]
fn random_scores_are_numbers_under_two_to_the_fifty_third() {
    let board = Board::default();
    let mut seen = Vec::new();
    for _ in 0..64 {
        match Engine::<Board>::evaluate(&RandomEngine, &board, Color::White) {
            Score::Value(v) => {
                assert!(0 <= v && v < (1i64 << 53));
                seen.push(v);
            }
            other => panic!("{:?}", other),
        }
    }
    seen.sort();
    seen.dedup();
    assert!(seen.len() > 1);
    assert_eq!(Engine::<Board>::name(&RandomEngine), "Random Engine");
}

#[test]
fn a_drawn_number_gives_its_upper_bits_as_the_score() {
    assert_eq!(RandomEngine::score_from_bits(0), Score::Value(0));
    assert_eq!(RandomEngine::score_from_bits(2047), Score::Value(0));
    assert_eq!(RandomEngine::score_from_bits(2048), Score::Value(1));
    assert_eq!(RandomEngine::score_from_bits(1 << 63), Score::Value(1 << 52));
    assert_eq!(
        RandomEngine::score_from_bits(u64::MAX),
        Score::Value((1i64 << 53) - 1)
    );
}
