//! Move text: every kind of word, lines of several words, and what is refused.

use eco_chess::{CastlingSide, Move, PieceType, Tile};
use std::str::FromStr;

fn tile(name: &str) -> Tile {
    Tile::from_str(name).unwrap()
}

#[test]
fn castling_words() {
    assert_eq!(Move::from_str("O-O"), Ok(Move::Castling(CastlingSide::King)));
    assert_eq!(Move::from_str("O-O-O"), Ok(Move::Castling(CastlingSide::Queen)));
    assert!(Move::from_str("O-O-O-O").is_err());
    assert!(Move::from_str("0-0").is_err());
}

#[test]
fn resign_and_pass_words() {
    assert_eq!(Move::from_str("resign"), Ok(Move::Resign));
    assert_eq!(Move::from_str("pass"), Ok(Move::Pass));
    assert!(Move::from_str("Resign").is_err());
    assert!(Move::from_str("passs").is_err());
}

#[test]
fn purchase_words() {
    assert_eq!(
        Move::from_str("$Qe8"),
        Ok(Move::Purchase { piece: PieceType::Queen, to: tile("e8") })
    );
    assert_eq!(
        Move::from_str("$Pa2"),
        Ok(Move::Purchase { piece: PieceType::Pawn, to: tile("a2") })
    );
    assert!(Move::from_str("$").is_err());
    assert!(Move::from_str("$Q").is_err());
    assert!(Move::from_str("$Qe").is_err());
    assert!(Move::from_str("$Qe9").is_err());
    assert!(Move::from_str("$qe8").is_err());
    assert!(Move::from_str("$Qe8x").is_err());
}

#[test]
fn words_of_four_characters() {
    assert_eq!(
        Move::from_str("e2e4"),
        Ok(Move::FromTo { from: tile("e2"), to: tile("e4"), promotion: None })
    );
    assert_eq!(Move::from_str("e2e4"), Ok(Move::new(tile("e2"), tile("e4"), None)));
    assert_eq!(
        Move::from_str("B1c3"),
        Ok(Move::FromTo { from: tile("b1"), to: tile("c3"), promotion: None })
    );
    assert_eq!(
        Move::from_str("Ne8Q"),
        Ok(Move::PieceTo {
            piece: PieceType::Knight,
            to: tile("e8"),
            promotion: Some(PieceType::Queen)
        })
    );
    assert!(Move::from_str("e2e9").is_err());
    assert!(Move::from_str("e2i4").is_err());
    assert!(Move::from_str("Ne8q").is_err());
    assert!(Move::from_str("xxxx").is_err());
}

#[test]
fn words_of_five_characters() {
    assert_eq!(
        Move::from_str("e7e8Q"),
        Ok(Move::FromTo { from: tile("e7"), to: tile("e8"), promotion: Some(PieceType::Queen) })
    );
    assert_eq!(
        Move::from_str("a2a1N"),
        Ok(Move::FromTo { from: tile("a2"), to: tile("a1"), promotion: Some(PieceType::Knight) })
    );
    assert!(Move::from_str("e7e8q").is_err());
    assert!(Move::from_str("e7e9Q").is_err());
    assert!(Move::from_str("Qe7e8").is_err());
}

#[test]
fn words_of_three_characters() {
    assert_eq!(
        Move::from_str("Nf3"),
        Ok(Move::PieceTo { piece: PieceType::Knight, to: tile("f3"), promotion: None })
    );
    assert_eq!(
        Move::from_str("Bb5"),
        Ok(Move::PieceTo { piece: PieceType::Bishop, to: tile("b5"), promotion: None })
    );
    assert_eq!(
        Move::from_str("e8Q"),
        Ok(Move::PieceTo {
            piece: PieceType::Pawn,
            to: tile("e8"),
            promotion: Some(PieceType::Queen)
        })
    );
    assert_eq!(
        Move::from_str("B4Q"),
        Ok(Move::PieceTo {
            piece: PieceType::Pawn,
            to: tile("b4"),
            promotion: Some(PieceType::Queen)
        })
    );
    assert!(Move::from_str("nf3").is_err());
    assert!(Move::from_str("Nf9").is_err());
    assert!(Move::from_str("e8q").is_err());
}

#[test]
fn words_of_two_characters() {
    assert_eq!(
        Move::from_str("e4"),
        Ok(Move::PieceTo { piece: PieceType::Pawn, to: tile("e4"), promotion: None })
    );
    assert!(Move::from_str("e9").is_err());
    assert!(Move::from_str("4e").is_err());
}

#[test]
fn words_of_other_lengths_are_refused() {
    assert!(Move::from_str("e").is_err());
    assert!(Move::from_str("e2e4e6").is_err());
    assert!(Move::from_str("e2e4e6e8").is_err());
}

#[test]
fn white_space_around_one_word_is_ignored() {
    let expected = Move::PieceTo { piece: PieceType::Pawn, to: tile("e4"), promotion: None };
    assert_eq!(Move::from_str("  e4"), Ok(expected.clone()));
    assert_eq!(Move::from_str("e4\n"), Ok(expected.clone()));
    assert_eq!(Move::from_str("\t e4 \r\n"), Ok(expected.clone()));
    assert_eq!(Move::from_str("\u{a0}e4\u{3000}"), Ok(expected.clone()));
    assert_eq!(Move::from_str("\u{2003}e4\u{85}"), Ok(expected));
}

#[test]
fn a_line_without_words_is_the_empty_sequence() {
    assert_eq!(Move::from_str(""), Ok(Move::Many(vec![])));
    assert_eq!(Move::from_str("   \t\n"), Ok(Move::Many(vec![])));
}

#[test]
fn several_words_make_a_sequence() {
    assert_eq!(
        Move::from_str("e2e4 Nf3"),
        Ok(Move::Many(vec![
            Move::FromTo { from: tile("e2"), to: tile("e4"), promotion: None },
            Move::PieceTo { piece: PieceType::Knight, to: tile("f3"), promotion: None },
        ]))
    );
    assert_eq!(
        Move::from_str(" e4\t\td5   O-O\n"),
        Ok(Move::Many(vec![
            Move::PieceTo { piece: PieceType::Pawn, to: tile("e4"), promotion: None },
            Move::PieceTo { piece: PieceType::Pawn, to: tile("d5"), promotion: None },
            Move::Castling(CastlingSide::King),
        ]))
    );
    assert_eq!(
        Move::from_str("pass $Ra1 resign"),
        Ok(Move::Many(vec![
            Move::Pass,
            Move::Purchase { piece: PieceType::Rook, to: tile("a1") },
            Move::Resign,
        ]))
    );
}

#[test]
fn one_bad_word_spoils_the_line() {
    assert!(Move::from_str("e2e4 Nf9").is_err());
    assert!(Move::from_str("xx e2e4").is_err());
    assert!(Move::from_str("e2e4 O-O junk").is_err());
    assert!(Move::from_str("O-O e2e").is_err());
    assert!(Move::from_str("e2\u{2d}e4").is_err());
}

fn written(player_move: &Move) -> String {
    player_move.write().into_iter().collect()
}

#[test]
fn moves_are_written_in_the_words_that_are_read() {
    let e2 = tile("e2");
    let e4 = tile("e4");
    assert_eq!(written(&Move::new(e2, e4, None)), "e2e4");
    assert_eq!(written(&Move::new(tile("a7"), tile("a8"), Some(PieceType::Rook))), "a7a8R");
    assert_eq!(
        written(&Move::PieceTo { piece: PieceType::Knight, to: tile("f3"), promotion: None }),
        "Nf3"
    );
    assert_eq!(
        written(&Move::PieceTo { piece: PieceType::Pawn, to: e4, promotion: None }),
        "Pe4"
    );
    assert_eq!(
        written(&Move::PieceTo {
            piece: PieceType::Pawn,
            to: tile("h1"),
            promotion: Some(PieceType::Bishop)
        }),
        "Ph1B"
    );
    assert_eq!(written(&Move::Purchase { piece: PieceType::Queen, to: tile("d1") }), "$Qd1");
    assert_eq!(written(&Move::Castling(CastlingSide::King)), "O-O");
    assert_eq!(written(&Move::Castling(CastlingSide::Queen)), "O-O-O");
    assert_eq!(written(&Move::Resign), "resign");
    assert_eq!(written(&Move::Pass), "pass");
    assert_eq!(written(&Move::Many(vec![])), "");
    assert_eq!(
        written(&Move::Many(vec![Move::new(e2, e4, None), Move::Pass, Move::Resign])),
        "e2e4 pass resign"
    );
    assert_eq!(tile("g5").name(), vec!['g', '5']);
    assert_eq!(Move::Many(vec![Move::Pass]).write_word(), Vec::<char>::new());
}

#[test]
fn what_is_written_is_read_back() {
    let mut singles = vec![
        Move::Resign,
        Move::Pass,
        Move::Castling(CastlingSide::King),
        Move::Castling(CastlingSide::Queen),
    ];
    let kinds = PieceType::all();
    for n in [0u8, 7, 9, 28, 35, 56, 63] {
        let to = Tile::from_nth(n);
        let from = Tile::from_nth(63 - n);
        singles.push(Move::new(from, to, None));
        for kind in kinds {
            singles.push(Move::new(from, to, Some(kind)));
            singles.push(Move::Purchase { piece: kind, to });
            singles.push(Move::PieceTo { piece: kind, to, promotion: None });
            for promotion in kinds {
                singles.push(Move::PieceTo { piece: kind, to, promotion: Some(promotion) });
            }
        }
    }
    for single in &singles {
        assert_eq!(Move::from_str(&written(single)), Ok(single.clone()));
    }
    let line = Move::Many(singles.clone());
    assert_eq!(Move::from_str(&written(&line)), Ok(line));
    let pair = Move::Many(vec![singles[0].clone(), singles[5].clone()]);
    assert_eq!(Move::from_str(&written(&pair)), Ok(pair));
    let none = Move::Many(vec![]);
    assert_eq!(Move::from_str(&written(&none)), Ok(none));
    let one = Move::Many(vec![Move::Pass]);
    assert_eq!(Move::from_str(&written(&one)), Ok(Move::Pass));
}

#[test]
fn a_copy_of_a_move_equals_the_move() {
    let line = Move::from_str("e2e4 Nf3 O-O-O e7e8Q").unwrap();
    assert_eq!(line.clone(), line);
    assert_eq!(line.duplicate(), line);
    let nested = Move::Many(vec![line.clone(), Move::Pass, Move::Many(vec![])]);
    assert_eq!(nested.duplicate(), nested);
}

#[test]
fn a_sequence_within_a_sequence_is_written_move_by_move() {
    let inner = Move::from_str("e2e4 d2d4").unwrap();
    let outer = Move::Many(vec![
        inner,
        Move::from_str("Nf3").unwrap(),
        Move::Many(vec![Move::Pass, Move::Many(vec![Move::Resign])]),
    ]);
    let text: String = outer.write().into_iter().collect();
    assert_eq!(text, "e2e4 d2d4 Nf3 pass resign");
    assert_eq!(
        Move::from_str(&text).unwrap(),
        Move::from_str("e2e4 d2d4 Nf3 pass resign").unwrap()
    );
    let empty: String = Move::Many(vec![Move::Many(vec![])]).write().into_iter().collect();
    assert_eq!(empty, "");
}
