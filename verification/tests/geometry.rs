//! Tiles, ranks, files and sectors: numbering, neighbourhoods and the squares
//! that each kind of piece bears on.

use eco_chess::{CastlingSide, Color, File, Piece, PieceType, Rank, Sector, Tile, TileSet};
use std::str::FromStr;

fn tile(name: &str) -> Tile {
    Tile::from_str(name).unwrap()
}

fn mask(names: &[&str]) -> u64 {
    let mut bits = 0u64;
    for name in names {
        bits |= tile(name).to_bit();
    }
    bits
}

#[test]
fn tiles_are_numbered_rank_by_rank() {
    assert_eq!(tile("a1").get_nth(), 0);
    assert_eq!(tile("h1").get_nth(), 7);
    assert_eq!(tile("a2").get_nth(), 8);
    assert_eq!(tile("e4").get_nth(), 28);
    assert_eq!(tile("h8").get_nth(), 63);
    for n in 0..64u8 {
        let t = Tile::from_nth(n);
        assert_eq!(t.get_nth(), n);
        assert_eq!(t.get_rank().get_index(), n / 8);
        assert_eq!(t.get_file().get_index(), n % 8);
        assert_eq!(t.to_bit(), 1u64 << n);
        assert_eq!(Tile::from_bit(1u64 << n), t);
    }
}

#[test]
fn from_bit_reads_the_lowest_square() {
    assert_eq!(Tile::from_bit(0b1010_0000), tile("f1"));
    assert_eq!(Tile::from_bit(u64::MAX), tile("a1"));
    assert_eq!(Tile::from_bit(1u64 << 63), tile("h8"));
}

#[test]
fn all_tiles_come_in_order() {
    let all = Tile::all();
    assert_eq!(all.len(), 64);
    for (n, t) in all.iter().enumerate() {
        assert_eq!(t.get_nth() as usize, n);
    }
}

#[test]
fn tile_names_are_read_in_either_case() {
    assert_eq!(tile("e4"), Tile::new(Rank::from_index(3), File::from_index(4)));
    assert_eq!(tile("E4"), tile("e4"));
    assert_eq!(tile("a1"), Tile::new(Rank::from_char('1'), File::from_char('a')));
    assert_eq!(tile("h8"), Tile::new(Rank::from_char('8'), File::from_char('H')));
}

#[test]
fn malformed_tile_names_are_refused() {
    assert!(Tile::from_str("").is_err());
    assert!(Tile::from_str("e").is_err());
    assert!(Tile::from_str("e44").is_err());
    assert!(Tile::from_str("i4").is_err());
    assert!(Tile::from_str("e9").is_err());
    assert!(Tile::from_str("e0").is_err());
    assert!(Tile::from_str("4e").is_err());
    assert!(Tile::from_str("\u{e9}1").is_err());
}

#[test]
fn ranks_and_files_have_chars() {
    for n in 0..8u8 {
        assert_eq!(Rank::from_index(n).to_char(), (b'1' + n) as char);
        assert_eq!(File::from_index(n).to_char(), (b'a' + n) as char);
        assert_eq!(Rank::parse_char((b'1' + n) as char), Some(Rank::from_index(n)));
        assert_eq!(File::parse_char((b'a' + n) as char), Some(File::from_index(n)));
        assert_eq!(File::parse_char((b'A' + n) as char), Some(File::from_index(n)));
    }
    assert_eq!(Rank::parse_char('0'), None);
    assert_eq!(Rank::parse_char('9'), None);
    assert_eq!(File::parse_char('i'), None);
    assert_eq!(File::parse_char('1'), None);
}

#[test]
fn rank_advance_follows_the_colour() {
    let second = Rank::from_index(1);
    assert_eq!(second.advance(Color::White, 1), Rank::from_index(2));
    assert_eq!(second.advance(Color::White, 2), Rank::from_index(3));
    assert_eq!(second.advance(Color::Black, 1), Rank::from_index(0));
    assert_eq!(second.advance(Color::Black, -3), Rank::from_index(4));
    assert_eq!(tile("e5").advance(Color::White, -1), tile("e4"));
    assert_eq!(tile("e5").advance(Color::Black, -1), tile("e6"));
}

#[test]
fn rank_and_file_arithmetic() {
    assert_eq!(Rank::from_index(2) + 3i8, Rank::from_index(5));
    assert_eq!(Rank::from_index(2) - 2i8, Rank::from_index(0));
    assert_eq!(Rank::from_index(2) + Rank::from_index(5), Rank::from_index(7));
    assert_eq!(Rank::from_index(6) - Rank::from_index(5), Rank::from_index(1));
    assert_eq!(File::from_index(7) - 7i8, File::from_index(0));
    assert_eq!(File::from_index(0) + 7i8, File::from_index(7));
    assert_eq!(File::from_index(3) + File::from_index(1), File::from_index(4));
    assert_eq!(File::from_index(3) - File::from_index(3), File::from_index(0));
    assert!(Rank::from_index(3) == File::from_index(3));
    assert!(Rank::from_index(3) != File::from_index(4));
    assert!(File::from_index(5) == Rank::from_index(5));
    assert!(Rank::from_index(3) == 3u8);
    assert!(File::from_index(3) != 2u8);
}

#[test]
fn is_within_reads_the_bound_as_a_signed_byte() {
    let a = Rank::from_index(1);
    let b = Rank::from_index(4);
    assert!(!a.is_within(b, 2));
    assert!(a.is_within(b, 3));
    assert!(a.is_within(b, 127));
    assert!(!a.is_within(b, 128));
    assert!(!a.is_within(a, 255));
    let f = File::from_index(0);
    let g = File::from_index(7);
    assert!(f.is_within(g, 7));
    assert!(!f.is_within(g, 6));
    assert!(!f.is_within(g, 200));
}

#[test]
fn sides_of_the_board() {
    assert_eq!(tile("a4").get_player_side(), Color::White);
    assert_eq!(tile("a5").get_player_side(), Color::Black);
    assert_eq!(tile("d1").get_castling_side(), CastlingSide::Queen);
    assert_eq!(tile("e1").get_castling_side(), CastlingSide::King);
    assert_eq!(Color::White.enemy(), Color::Black);
    assert_eq!(!Color::Black, Color::White);
    assert_eq!(Color::default(), Color::White);
}

#[test]
fn home_squares() {
    assert_eq!(Tile::king_start_position(Color::White), tile("e1"));
    assert_eq!(Tile::king_start_position(Color::Black), tile("e8"));
    assert_eq!(Tile::rook_start_position(Color::White, CastlingSide::King), tile("h1"));
    assert_eq!(Tile::rook_start_position(Color::White, CastlingSide::Queen), tile("a1"));
    assert_eq!(Tile::rook_start_position(Color::Black, CastlingSide::King), tile("h8"));
    assert_eq!(Tile::rook_start_position(Color::Black, CastlingSide::Queen), tile("a8"));
    assert_eq!(Tile::castling_destination_for_king(Color::White, CastlingSide::King), tile("g1"));
    assert_eq!(Tile::castling_destination_for_king(Color::White, CastlingSide::Queen), tile("c1"));
    assert_eq!(Tile::castling_destination_for_king(Color::Black, CastlingSide::King), tile("g8"));
    assert_eq!(Tile::castling_destination_for_rook(Color::White, CastlingSide::King), tile("f1"));
    assert_eq!(Tile::castling_destination_for_rook(Color::White, CastlingSide::Queen), tile("d1"));
    assert_eq!(Tile::castling_destination_for_rook(Color::Black, CastlingSide::Queen), tile("d8"));
    assert!(tile("a1").is_rook_square(Color::White));
    assert!(tile("h8").is_rook_square(Color::Black));
    assert!(!tile("h8").is_rook_square(Color::White));
    assert!(!tile("b1").is_rook_square(Color::White));
    assert!(tile("g1").is_castling_destination_for_king(Color::White));
    assert!(tile("c8").is_castling_destination_for_king(Color::Black));
    assert!(!tile("c8").is_castling_destination_for_king(Color::White));
    assert!(!tile("f1").is_castling_destination_for_king(Color::White));
}

#[test]
fn move_by_stays_on_the_board() {
    assert_eq!(tile("e4").move_by(1, 1), Some(tile("f5")));
    assert_eq!(tile("e4").move_by(-3, -4), Some(tile("a1")));
    assert_eq!(tile("e4").move_by(4, 3), Some(tile("h8")));
    assert_eq!(tile("e4").move_by(5, 0), None);
    assert_eq!(tile("e4").move_by(0, 4), None);
    assert_eq!(tile("a1").move_by(-1, 0), None);
    assert_eq!(tile("a1").move_by(0, -1), None);
    assert_eq!(tile("h8").move_by(127, 127), None);
    assert_eq!(tile("h8").move_by(-128, -128), None);
}

#[test]
fn step_towards_moves_one_rank_and_one_file() {
    let mut t = tile("a1");
    t.step_towards(tile("c8"));
    assert_eq!(t, tile("b2"));
    t.step_towards(tile("c8"));
    assert_eq!(t, tile("c3"));
    t.step_towards(tile("c8"));
    assert_eq!(t, tile("c4"));
    let mut u = tile("h5");
    u.step_towards(tile("a5"));
    assert_eq!(u, tile("g5"));
    let mut v = tile("d4");
    v.step_towards(tile("d4"));
    assert_eq!(v, tile("d4"));
}

#[test]
fn pawn_from_en_passant_square_is_one_rank_further_in() {
    assert_eq!(Tile::pawn_from_en_passant_square(tile("e3")), tile("e2"));
    assert_eq!(Tile::pawn_from_en_passant_square(tile("e6")), tile("e7"));
    assert_eq!(Tile::pawn_from_en_passant_square(tile("a4")), tile("a3"));
    assert_eq!(Tile::pawn_from_en_passant_square(tile("a5")), tile("a6"));
}

#[test]
fn neighbourhood_tests() {
    let e4 = tile("e4");
    assert!(e4.is_diagonal_to(tile("h7")));
    assert!(e4.is_diagonal_to(tile("b1")));
    assert!(e4.is_diagonal_to(e4));
    assert!(!e4.is_diagonal_to(tile("e5")));
    assert!(e4.is_bishop_move_away(tile("a8")));
    assert!(e4.is_rook_move_away(tile("e8")));
    assert!(e4.is_rook_move_away(tile("a4")));
    assert!(!e4.is_rook_move_away(tile("f5")));
    assert!(e4.is_queen_move_away(tile("f5")));
    assert!(e4.is_queen_move_away(tile("e1")));
    assert!(!e4.is_queen_move_away(tile("f6")));
    assert!(e4.is_king_move_away(tile("f5")));
    assert!(e4.is_king_move_away(tile("e3")));
    assert!(!e4.is_king_move_away(tile("e6")));
    assert!(e4.is_knight_move_away(tile("f6")));
    assert!(e4.is_knight_move_away(tile("c3")));
    assert!(e4.is_knight_move_away(tile("g5")));
    assert!(e4.is_knight_move_away(tile("d2")));
    assert!(!e4.is_knight_move_away(tile("e5")));
    assert!(!e4.is_knight_move_away(tile("e6")));
    assert!(!e4.is_knight_move_away(tile("g4")));
    assert!(!e4.is_knight_move_away(tile("f5")));
    assert!(!e4.is_knight_move_away(tile("e4")));
    assert!(!e4.is_knight_move_away(tile("g6")));
    assert!(!e4.is_knight_move_away(tile("h4")));
    assert!(!e4.is_knight_move_away(tile("e7")));
}

#[test]
fn pawn_moves_depend_on_colour_capture_and_en_passant() {
    let e2 = tile("e2");
    assert!(e2.is_pawn_move_away(tile("e3"), Color::White, false, None));
    assert!(e2.is_pawn_move_away(tile("e4"), Color::White, false, None));
    assert!(!e2.is_pawn_move_away(tile("e5"), Color::White, false, None));
    assert!(!e2.is_pawn_move_away(tile("e1"), Color::White, false, None));
    assert!(e2.is_pawn_move_away(tile("e1"), Color::Black, false, None));
    assert!(!e2.is_pawn_move_away(tile("e3"), Color::White, true, None));
    assert!(e2.is_pawn_move_away(tile("d3"), Color::White, true, None));
    assert!(e2.is_pawn_move_away(tile("f3"), Color::White, true, None));
    assert!(!e2.is_pawn_move_away(tile("d3"), Color::White, false, None));
    assert!(e2.is_pawn_move_away(tile("d3"), Color::White, false, Some(tile("d3"))));
    assert!(!e2.is_pawn_move_away(tile("d3"), Color::White, false, Some(tile("f3"))));
    let e7 = tile("e7");
    assert!(e7.is_pawn_move_away(tile("e5"), Color::Black, false, None));
    assert!(!e7.is_pawn_move_away(tile("e5"), Color::White, false, None));
    assert!(!tile("e3").is_pawn_move_away(tile("e5"), Color::White, false, None));
    assert!(!tile("e8").is_pawn_move_away(tile("e8"), Color::White, false, None));
    assert!(!tile("e8").is_pawn_move_away(tile("d8"), Color::White, true, None));
    assert!(!tile("a1").is_pawn_move_away(tile("a1"), Color::Black, false, None));
}

#[test]
fn piece_can_move_follows_its_kind() {
    let e4 = tile("e4");
    assert!(Piece::rook(Color::White).can_move(e4, tile("e8"), false, None));
    assert!(!Piece::rook(Color::White).can_move(e4, tile("f5"), false, None));
    assert!(Piece::bishop(Color::Black).can_move(e4, tile("f5"), true, None));
    assert!(Piece::queen(Color::Black).can_move(e4, tile("a8"), true, None));
    assert!(Piece::king(Color::White).can_move(e4, tile("d5"), false, None));
    assert!(!Piece::king(Color::White).can_move(e4, tile("d6"), false, None));
    assert!(Piece::knight(Color::White).can_move(e4, tile("d6"), false, None));
    assert!(Piece::pawn(Color::White).can_move(e4, tile("e5"), false, None));
    assert!(Piece::pawn(Color::Black).can_move(e4, tile("e3"), false, None));
    assert!(!Piece::pawn(Color::Black).can_move(e4, tile("e5"), false, None));
    assert_eq!(Piece::new(PieceType::Queen, Color::Black), Piece::queen(Color::Black));
    assert_eq!(Piece::knight(Color::White).get_type(), PieceType::Knight);
    assert_eq!(Piece::knight(Color::White).get_color(), Color::White);
}

#[test]
fn attacking_bits_of_each_kind() {
    assert_eq!(tile("b1").knight_attacking_bits(), mask(&["a3", "c3", "d2"]));
    assert_eq!(
        tile("e4").knight_attacking_bits(),
        mask(&["d2", "f2", "c3", "g3", "c5", "g5", "d6", "f6"])
    );
    assert_eq!(
        tile("e4").king_attacking_bits(),
        mask(&["d3", "e3", "f3", "d4", "f4", "d5", "e5", "f5"])
    );
    assert_eq!(tile("a1").king_attacking_bits(), mask(&["a2", "b1", "b2"]));
    assert_eq!(tile("e2").pawn_attacking_bits(Color::White), mask(&["d3", "f3"]));
    assert_eq!(tile("e2").pawn_attacking_bits(Color::Black), mask(&["d1", "f1"]));
    assert_eq!(tile("a2").pawn_attacking_bits(Color::White), mask(&["b3"]));
    assert_eq!(tile("h7").pawn_attacking_bits(Color::Black), mask(&["g6"]));
    assert_eq!(tile("e8").pawn_attacking_bits(Color::White), 0);
    assert_eq!(tile("e1").pawn_attacking_bits(Color::Black), 0);
    assert_eq!(
        tile("a1").rook_attacking_bits(),
        mask(&[
            "a1", "a2", "a3", "a4", "a5", "a6", "a7", "a8", "b1", "c1", "d1", "e1", "f1", "g1", "h1"
        ])
    );
    assert_eq!(
        tile("a1").bishop_attacking_bits(),
        mask(&["a1", "b2", "c3", "d4", "e5", "f6", "g7", "h8"])
    );
    assert_eq!(
        tile("c2").bishop_attacking_bits(),
        mask(&["c2", "b1", "d1", "b3", "a4", "d3", "e4", "f5", "g6", "h7"])
    );
    assert_eq!(
        tile("a1").queen_attacking_bits(),
        tile("a1").rook_attacking_bits() | tile("a1").bishop_attacking_bits()
    );
    assert_eq!(
        tile("c2").attacking_bits(PieceType::Bishop, Color::Black),
        tile("c2").bishop_attacking_bits()
    );
    assert_eq!(
        tile("c2").attacking_bits(PieceType::Pawn, Color::Black),
        mask(&["b1", "d1"])
    );
}

#[test]
fn castling_bits_are_the_squares_the_king_crosses() {
    assert_eq!(tile("e1").castling_bits(tile("g1")), mask(&["f1", "g1"]));
    assert_eq!(tile("e8").castling_bits(tile("g8")), mask(&["f8", "g8"]));
    assert_eq!(tile("a1").castling_bits(tile("c1")), mask(&["b1", "c1", "d1"]));
    assert_eq!(tile("d8").castling_bits(tile("c8")), mask(&["b8", "c8", "d8"]));
    assert_eq!(tile("e1").castling_bits(tile("c1")), 0);
    assert_eq!(tile("e1").castling_bits(tile("g8")), 0);
    assert_eq!(tile("e1").castling_bits(tile("f1")), 0);
}

#[test]
fn candidate_tiles_come_in_a_fixed_order() {
    assert_eq!(
        tile("e2").get_moves(Piece::pawn(Color::White)),
        vec![tile("f3"), tile("d3"), tile("e3"), tile("e4")]
    );
    assert_eq!(
        tile("e7").get_moves(Piece::pawn(Color::Black)),
        vec![tile("f6"), tile("d6"), tile("e6"), tile("e5")]
    );
    assert_eq!(
        tile("a3").get_moves(Piece::pawn(Color::White)),
        vec![tile("b4"), tile("a4")]
    );
    assert_eq!(tile("e8").get_moves(Piece::pawn(Color::White)), Vec::<Tile>::new());
    assert_eq!(
        tile("e7").get_moves(Piece::pawn(Color::White)),
        vec![tile("f8"), tile("d8"), tile("e8")]
    );
    assert_eq!(
        tile("b1").get_moves(Piece::knight(Color::White)),
        vec![tile("c3"), tile("a3"), tile("d2")]
    );
    assert_eq!(
        tile("a1").get_moves(Piece::king(Color::Black)),
        vec![tile("b2"), tile("a2"), tile("b1")]
    );
    assert_eq!(
        tile("e4").get_moves(Piece::king(Color::Black)),
        vec![
            tile("f5"),
            tile("d5"),
            tile("f3"),
            tile("d3"),
            tile("e5"),
            tile("e3"),
            tile("f4"),
            tile("d4")
        ]
    );
    assert_eq!(
        tile("b2").get_moves(Piece::rook(Color::White)),
        vec![
            tile("b1"),
            tile("b2"),
            tile("b3"),
            tile("b4"),
            tile("b5"),
            tile("b6"),
            tile("b7"),
            tile("b8"),
            tile("a2"),
            tile("b2"),
            tile("c2"),
            tile("d2"),
            tile("e2"),
            tile("f2"),
            tile("g2"),
            tile("h2")
        ]
    );
    assert_eq!(
        tile("b2").get_moves(Piece::bishop(Color::White)),
        vec![
            tile("a1"),
            tile("c1"),
            tile("b2"),
            tile("a3"),
            tile("c3"),
            tile("d4"),
            tile("e5"),
            tile("f6"),
            tile("g7"),
            tile("h8")
        ]
    );
    let queen = tile("b2").get_moves(Piece::queen(Color::White));
    let mut expected = tile("b2").get_moves(Piece::rook(Color::White));
    expected.extend(tile("b2").get_moves(Piece::bishop(Color::White)));
    assert_eq!(queen, expected);
}

#[test]
fn sectors_are_two_by_two_blocks() {
    assert_eq!(tile("a1").get_sector().get_index(), 0);
    assert_eq!(tile("b2").get_sector().get_index(), 0);
    assert_eq!(tile("c1").get_sector().get_index(), 1);
    assert_eq!(tile("h1").get_sector().get_index(), 3);
    assert_eq!(tile("a3").get_sector().get_index(), 4);
    assert_eq!(tile("e4").get_sector().get_index(), 6);
    assert_eq!(tile("h8").get_sector().get_index(), 15);
    assert_eq!(Sector::new(tile("d5")), Sector::from_index(9));
    assert_eq!(Sector::from(tile("d5")), Sector::from_index(9));
    assert_eq!(Sector::from_index(256 + 7).get_index(), 7);
    let all = Sector::all();
    assert_eq!(all.len(), 16);
    for (n, s) in all.iter().enumerate() {
        assert_eq!(s.get_index(), n);
        assert_eq!(s.is_center(), n == 5 || n == 6 || n == 9 || n == 10);
        assert_eq!(s.is_outer(), !s.is_center());
        assert_eq!(s.is_home_for(Color::White), n <= 3);
        assert_eq!(s.is_home_for(Color::Black), n >= 12);
    }
}

#[test]
fn tile_sets_hold_what_was_put_in() {
    let mut set = TileSet::new();
    assert!(set.is_empty());
    assert_eq!(set.len(), 0);
    set.insert(tile("e4"));
    set.insert(tile("a1"));
    set.insert(tile("h8"));
    set.insert(tile("e4"));
    assert!(!set.is_empty());
    assert_eq!(set.len(), 3);
    assert!(set.contains(tile("e4")));
    assert!(set.contains(tile("a1")));
    assert!(!set.contains(tile("a2")));
    set.remove(tile("a1"));
    set.remove(tile("b1"));
    assert!(!set.contains(tile("a1")));
    assert_eq!(set.len(), 2);
    assert_eq!(set.into_iter(), vec![tile("e4"), tile("h8")]);
}

#[test]
fn piece_letters_symbols_and_values() {
    let kinds = PieceType::all();
    let letters = ['P', 'N', 'B', 'R', 'Q', 'K'];
    let hundredths = [100u32, 300, 315, 500, 900, 10000];
    let whole = [1i32, 3, 3, 5, 9, 100];
    let floats = [1.0f64, 3.0, 3.15, 5.0, 9.0, 100.0];
    for i in 0..6 {
        assert_eq!(kinds[i].letter(), letters[i]);
        assert_eq!(char::from(kinds[i]), letters[i]);
        assert_eq!(PieceType::from_letter(letters[i]), Some(kinds[i]));
        assert_eq!(PieceType::from_str(&letters[i].to_string()), Ok(kinds[i]));
        assert_eq!(kinds[i].value_hundredths(), hundredths[i]);
        assert_eq!(kinds[i].value_hundredths(), (floats[i] * 100.0).round() as u32);
        assert_eq!(kinds[i].whole_value(), whole[i]);
        assert_eq!(kinds[i].whole_value(), floats[i] as i32);
        assert_eq!(Piece::new(kinds[i], Color::Black).value_hundredths(), hundredths[i]);
    }
    assert_eq!(PieceType::from_letter('p'), None);
    assert_eq!(PieceType::from_letter('X'), None);
    assert!(PieceType::from_str("").is_err());
    assert!(PieceType::from_str("QQ").is_err());
    assert_eq!(
        PieceType::promotions(),
        [PieceType::Knight, PieceType::Bishop, PieceType::Rook, PieceType::Queen]
    );
    assert_eq!(PieceType::purchases(), PieceType::all());
    assert_eq!(Piece::king(Color::White).symbol(), '\u{2654}');
    assert_eq!(Piece::pawn(Color::Black).symbol(), '\u{265F}');
    assert_eq!(char::from(Piece::queen(Color::White)), '\u{2655}');
    assert_eq!(CastlingSide::from_str("O-O"), Ok(CastlingSide::King));
    assert_eq!(CastlingSide::from_str("O-O-O"), Ok(CastlingSide::Queen));
    assert!(CastlingSide::from_str("O-O-").is_err());
    assert!(CastlingSide::from_str("o-o").is_err());
}
