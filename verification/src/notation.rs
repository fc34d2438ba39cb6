//! Move text: how moves are written, and how a line of text is read.
//!
//! A line holds words separated by white space. Each word is one move:
//!
//! | word     | move                                              |
//! |----------|---------------------------------------------------|
//! | `O-O`    | castling king side                                |
//! | `O-O-O`  | castling queen side                               |
//! | `resign` | resignation                                       |
//! | `pass`   | a pass                                            |
//! | `$Qe8`   | purchase of a piece for a tile                    |
//! | `e2e4`   | from tile to tile                                 |
//! | `e7e8Q`  | from tile to tile, with the promotion kind        |
//! | `Nf3`    | a piece of a kind to a tile                       |
//! | `Ne8Q`   | a piece of a kind to a tile, with promotion kind  |
//! | `e4`     | a pawn to a tile                                  |
//! | `e8Q`    | a pawn to a tile, with the promotion kind         |
//!
//! Kinds are written `P`, `N`, `B`, `R`, `Q`, `K`; files `a` to `h` in either
//! case; ranks `1` to `8`. A line of one word is that move; any other line is
//! the sequence of its moves. One word that is no move spoils the line.
use crate::file::{file_char_index, is_file_char, File};
use crate::generate::{lemma_list_view_push, spec_list_view};
use crate::moves::{Move, MoveView};
use crate::piece::{CastlingSide, PieceType};
use crate::rank::Rank;
use crate::tile::Tile;
use vstd::prelude::*;
use vstd::string::StrSliceExecFns;

verus! {

/// Whether a character is white space, as Unicode defines it.
pub open spec fn spec_is_space(c: char) -> bool {
    let n = c as u32;
    (0x9 <= n <= 0xD) || n == 0x20 || n == 0x85 || n == 0xA0 || n == 0x1680 || (0x2000 <= n
        <= 0x200A) || n == 0x2028 || n == 0x2029 || n == 0x202F || n == 0x205F || n == 0x3000
}

/// The words of the text from position `i` on, given the characters of the
/// word that position `i` continues.
pub open spec fn spec_words_from(text: Seq<char>, i: int, word: Seq<char>) -> Seq<Seq<char>>
    decreases text.len() - i,
{
    let done = if word.len() > 0 {
        seq![word]
    } else {
        Seq::empty()
    };
    if i < 0 || i >= text.len() {
        done
    } else if spec_is_space(text[i]) {
        done + spec_words_from(text, i + 1, Seq::empty())
    } else {
        spec_words_from(text, i + 1, word.push(text[i]))
    }
}

/// The words of a text: its longest runs of characters that are not white
/// space, in order.
pub open spec fn spec_words(text: Seq<char>) -> Seq<Seq<char>> {
    spec_words_from(text, 0, Seq::empty())
}

/// The tile that a file letter and a rank digit name.
pub open spec fn spec_tile(file: char, rank: char) -> Option<Tile> {
    if is_file_char(file) && '1' <= rank <= '8' {
        Some(Tile::at(rank as int - '1' as int, file_char_index(file)))
    } else {
        None
    }
}

/// The castling side that a word names.
pub open spec fn spec_castling_side(word: Seq<char>) -> Option<CastlingSide> {
    if word == seq!['O', '-', 'O'] {
        Some(CastlingSide::King)
    } else if word == seq!['O', '-', 'O', '-', 'O'] {
        Some(CastlingSide::Queen)
    } else {
        None
    }
}

/// The move that a word of two characters names: a pawn to a tile.
pub open spec fn spec_word2(word: Seq<char>) -> Option<MoveView> {
    match spec_tile(word[0], word[1]) {
        Some(to) => Some(MoveView::PieceTo { piece: PieceType::Pawn, to, promotion: None }),
        None => None,
    }
}

/// The move that a word of three characters names: a piece to a tile, or
/// else a pawn to a tile with a promotion kind.
pub open spec fn spec_word3(word: Seq<char>) -> Option<MoveView> {
    match (PieceType::spec_from_letter(word[0]), spec_tile(word[1], word[2])) {
        (Some(piece), Some(to)) => Some(MoveView::PieceTo { piece, to, promotion: None }),
        _ => match (spec_tile(word[0], word[1]), PieceType::spec_from_letter(word[2])) {
            (Some(to), Some(kind)) => Some(
                MoveView::PieceTo { piece: PieceType::Pawn, to, promotion: Some(kind) },
            ),
            _ => None,
        },
    }
}

/// The move that a word of four characters names: from tile to tile, or else
/// a piece to a tile with a promotion kind.
pub open spec fn spec_word4(word: Seq<char>) -> Option<MoveView> {
    match (spec_tile(word[0], word[1]), spec_tile(word[2], word[3])) {
        (Some(from), Some(to)) => Some(MoveView::FromTo { from, to, promotion: None }),
        _ => match (
            PieceType::spec_from_letter(word[0]),
            spec_tile(word[1], word[2]),
            PieceType::spec_from_letter(word[3]),
        ) {
            (Some(piece), Some(to), Some(kind)) => Some(
                MoveView::PieceTo { piece, to, promotion: Some(kind) },
            ),
            _ => None,
        },
    }
}

/// The move that a word of five characters names: from tile to tile with a
/// promotion kind.
pub open spec fn spec_word5(word: Seq<char>) -> Option<MoveView> {
    match (
        spec_tile(word[0], word[1]),
        spec_tile(word[2], word[3]),
        PieceType::spec_from_letter(word[4]),
    ) {
        (Some(from), Some(to), Some(kind)) => Some(
            MoveView::FromTo { from, to, promotion: Some(kind) },
        ),
        _ => None,
    }
}

/// The purchase that a word starting with `$` names.
pub open spec fn spec_purchase(word: Seq<char>) -> Option<MoveView> {
    if word.len() != 4 {
        None
    } else {
        match (PieceType::spec_from_letter(word[1]), spec_tile(word[2], word[3])) {
            (Some(piece), Some(to)) => Some(MoveView::Purchase { piece, to }),
            _ => None,
        }
    }
}

/// The move that a word names, if it names one.
pub open spec fn spec_word(word: Seq<char>) -> Option<MoveView> {
    if spec_castling_side(word) is Some {
        Some(MoveView::Castling(spec_castling_side(word)->0))
    } else if word == seq!['r', 'e', 's', 'i', 'g', 'n'] {
        Some(MoveView::Resign)
    } else if word == seq!['p', 'a', 's', 's'] {
        Some(MoveView::Pass)
    } else if word.len() > 0 && word[0] == '$' {
        spec_purchase(word)
    } else if word.len() == 5 {
        spec_word5(word)
    } else if word.len() == 4 {
        spec_word4(word)
    } else if word.len() == 3 {
        spec_word3(word)
    } else if word.len() == 2 {
        spec_word2(word)
    } else {
        None
    }
}

/// The moves that the first `n` words name, if each of them names one.
pub open spec fn spec_moves_of(words: Seq<Seq<char>>, n: nat) -> Option<Seq<MoveView>>
    decreases n,
{
    if n == 0 || n > words.len() {
        Some(Seq::empty())
    } else {
        match (spec_moves_of(words, (n - 1) as nat), spec_word(words[n - 1])) {
            (Some(moves), Some(last)) => Some(moves.push(last)),
            _ => None,
        }
    }
}

/// The move that a line of text names: the move of its one word, or the
/// sequence of the moves of its words; nothing if some word names no move.
pub open spec fn spec_parse(text: Seq<char>) -> Option<MoveView> {
    let words = spec_words(text);
    match spec_moves_of(words, words.len()) {
        Some(moves) => if moves.len() == 1 {
            Some(moves[0])
        } else {
            Some(MoveView::Many(moves))
        },
        None => None,
    }
}

/// Once a word names no move, no longer list of the words names moves.
pub proof fn lemma_moves_of_failed(words: Seq<Seq<char>>, n: nat, m: nat)
    requires
        n <= m <= words.len(),
        spec_moves_of(words, n) is None,
    ensures
        spec_moves_of(words, m) is None,
    decreases m,
{
    if m > n {
        lemma_moves_of_failed(words, n, (m - 1) as nat);
    }
}

/// Whether a character is white space.
pub fn is_space(c: char) -> (r: bool)
    ensures
        r == spec_is_space(c),
{
    let n: u32 = c as u32;
    (0x9 <= n && n <= 0xD) || n == 0x20 || n == 0x85 || n == 0xA0 || n == 0x1680 || (0x2000 <= n
        && n <= 0x200A) || n == 0x2028 || n == 0x2029 || n == 0x202F || n == 0x205F || n
        == 0x3000
}

/// Splits a text into its words.
pub fn split_words(text: &Vec<char>) -> (r: Vec<Vec<char>>)
    ensures
        r@.len() == spec_words(text@).len(),
        forall|k: int| 0 <= k < r@.len() ==> #[trigger] r@[k]@ == spec_words(text@)[k],
{
    let mut words: Vec<Vec<char>> = Vec::new();
    let mut word: Vec<char> = Vec::new();
    let ghost mut done: Seq<Seq<char>> = Seq::empty();
    let mut i: usize = 0;
    assert(done + spec_words_from(text@, 0, word@) =~= spec_words(text@)) by {
        assert(word@ =~= Seq::empty());
    }
    while i < text.len()
        invariant
            i <= text@.len(),
            words@.len() == done.len(),
            forall|k: int| 0 <= k < words@.len() ==> #[trigger] words@[k]@ == done[k],
            done + spec_words_from(text@, i as int, word@) == spec_words(text@),
        decreases text@.len() - i,
    {
        let c = text[i];
        let ghost rest = spec_words_from(text@, i as int, word@);
        if is_space(c) {
            if word.len() > 0 {
                proof {
                    assert((done.push(word@)) + spec_words_from(text@, i + 1, Seq::empty())
                        =~= done + rest);
                    done = done.push(word@);
                }
                words.push(word);
                word = Vec::new();
                assert(word@ =~= Seq::empty());
            } else {
                assert(done + spec_words_from(text@, i + 1, Seq::empty()) =~= done + rest);
                assert(word@ =~= Seq::empty());
            }
        } else {
            word.push(c);
        }
        i = i + 1;
    }
    if word.len() > 0 {
        proof {
            assert(done.push(word@) =~= done + spec_words_from(text@, i as int, word@));
            done = done.push(word@);
        }
        words.push(word);
    } else {
        assert(done =~= done + spec_words_from(text@, i as int, word@));
    }
    words
}

impl Tile {
    /// Reads a tile from a file letter and a rank digit.
    pub fn from_chars(file: char, rank: char) -> (r: Option<Tile>)
        ensures
            r == spec_tile(file, rank),
    {
        match (File::parse_char(file), Rank::parse_char(rank)) {
            (Some(file), Some(rank)) => Some(Tile::new(rank, file)),
            _ => None,
        }
    }

    /// Reads a tile from its name: a file letter and a rank digit, such as
    /// `e4`.
    pub fn parse(text: &str) -> (r: Result<Tile, ()>)
        ensures
            r is Ok <==> text@.len() == 2 && spec_tile(text@[0], text@[1]) is Some,
            r matches Ok(tile) ==> Some(tile) == spec_tile(text@[0], text@[1]),
    {
        if text.unicode_len() != 2 {
            return Err(());
        }
        match Tile::from_chars(text.get_char(0), text.get_char(1)) {
            Some(tile) => Ok(tile),
            None => Err(()),
        }
    }
}

impl core::str::FromStr for Tile {
    type Err = ();

    /// Reads a tile from its name, as [`Tile::parse`] does.
    fn from_str(s: &str) -> (r: Result<Tile, ()>)
        ensures
            r is Ok <==> s@.len() == 2 && spec_tile(s@[0], s@[1]) is Some,
            r matches Ok(tile) ==> Some(tile) == spec_tile(s@[0], s@[1]),
    {
        Tile::parse(s)
    }
}

impl PieceType {
    /// Reads a piece kind from its name: one of the letters `P`, `N`, `B`,
    /// `R`, `Q`, `K`.
    pub fn parse(text: &str) -> (r: Result<PieceType, ()>)
        ensures
            r is Ok <==> text@.len() == 1 && PieceType::spec_from_letter(text@[0]) is Some,
            r matches Ok(piece) ==> Some(piece) == PieceType::spec_from_letter(text@[0]),
    {
        if text.unicode_len() != 1 {
            return Err(());
        }
        match PieceType::from_letter(text.get_char(0)) {
            Some(piece) => Ok(piece),
            None => Err(()),
        }
    }
}

impl core::str::FromStr for PieceType {
    type Err = ();

    /// Reads a piece kind from its letter, as [`PieceType::parse`] does.
    fn from_str(s: &str) -> (r: Result<PieceType, ()>)
        ensures
            r is Ok <==> s@.len() == 1 && PieceType::spec_from_letter(s@[0]) is Some,
            r matches Ok(piece) ==> Some(piece) == PieceType::spec_from_letter(s@[0]),
    {
        PieceType::parse(s)
    }
}

impl CastlingSide {
    /// Reads a castling side from a word: `O-O` or `O-O-O`.
    pub fn from_word(word: &Vec<char>) -> (r: Option<CastlingSide>)
        ensures
            r == spec_castling_side(word@),
    {
        if word.len() == 3 && word[0] == 'O' && word[1] == '-' && word[2] == 'O' {
            assert(word@ =~= seq!['O', '-', 'O']);
            Some(CastlingSide::King)
        } else if word.len() == 5 && word[0] == 'O' && word[1] == '-' && word[2] == 'O' && word[3]
            == '-' && word[4] == 'O' {
            assert(word@ =~= seq!['O', '-', 'O', '-', 'O']);
            Some(CastlingSide::Queen)
        } else {
            assert(word@ != seq!['O', '-', 'O']) by {
                if word@ == seq!['O', '-', 'O'] {
                    assert(seq!['O', '-', 'O'].len() == 3);
                    assert(seq!['O', '-', 'O'][0] == 'O');
                    assert(seq!['O', '-', 'O'][1] == '-');
                    assert(seq!['O', '-', 'O'][2] == 'O');
                }
            }
            assert(word@ != seq!['O', '-', 'O', '-', 'O']) by {
                if word@ == seq!['O', '-', 'O', '-', 'O'] {
                    assert(seq!['O', '-', 'O', '-', 'O'].len() == 5);
                    assert(seq!['O', '-', 'O', '-', 'O'][0] == 'O');
                    assert(seq!['O', '-', 'O', '-', 'O'][1] == '-');
                    assert(seq!['O', '-', 'O', '-', 'O'][2] == 'O');
                    assert(seq!['O', '-', 'O', '-', 'O'][3] == '-');
                    assert(seq!['O', '-', 'O', '-', 'O'][4] == 'O');
                }
            }
            None
        }
    }

    /// Reads a castling side from its name: `O-O` or `O-O-O`.
    pub fn parse(text: &str) -> (r: Result<CastlingSide, ()>)
        ensures
            r is Ok <==> spec_castling_side(text@) is Some,
            r matches Ok(side) ==> Some(side) == spec_castling_side(text@),
    {
        let word = chars_of(text);
        match CastlingSide::from_word(&word) {
            Some(side) => Ok(side),
            None => Err(()),
        }
    }
}

impl core::str::FromStr for CastlingSide {
    type Err = ();

    /// Reads a castling side from its name, as [`CastlingSide::parse`] does.
    fn from_str(s: &str) -> (r: Result<CastlingSide, ()>)
        ensures
            r is Ok <==> spec_castling_side(s@) is Some,
            r matches Ok(side) ==> Some(side) == spec_castling_side(s@),
    {
        CastlingSide::parse(s)
    }
}

/// The characters of a text.
pub fn chars_of(text: &str) -> (r: Vec<char>)
    ensures
        r@ == text@,
{
    let n = text.unicode_len();
    let mut chars: Vec<char> = Vec::new();
    let mut i: usize = 0;
    while i < n
        invariant
            i <= n,
            n == text@.len(),
            chars@.len() == i,
            forall|k: int| 0 <= k < i ==> chars@[k] == text@[k],
        decreases n - i,
    {
        chars.push(text.get_char(i));
        i = i + 1;
    }
    assert(chars@ =~= text@);
    chars
}

/// Whether a word is `resign`.
fn is_resign(word: &Vec<char>) -> (r: bool)
    ensures
        r == (word@ == seq!['r', 'e', 's', 'i', 'g', 'n']),
{
    let ghost text = seq!['r', 'e', 's', 'i', 'g', 'n'];
    assert(text.len() == 6 && text[0] == 'r' && text[1] == 'e' && text[2] == 's' && text[3] == 'i'
        && text[4] == 'g' && text[5] == 'n');
    if word.len() == 6 && word[0] == 'r' && word[1] == 'e' && word[2] == 's' && word[3] == 'i'
        && word[4] == 'g' && word[5] == 'n' {
        assert(word@ =~= text);
        true
    } else {
        false
    }
}

/// Whether a word is `pass`.
fn is_pass(word: &Vec<char>) -> (r: bool)
    ensures
        r == (word@ == seq!['p', 'a', 's', 's']),
{
    let ghost text = seq!['p', 'a', 's', 's'];
    assert(text.len() == 4 && text[0] == 'p' && text[1] == 'a' && text[2] == 's' && text[3]
        == 's');
    if word.len() == 4 && word[0] == 'p' && word[1] == 'a' && word[2] == 's' && word[3] == 's' {
        assert(word@ =~= text);
        true
    } else {
        false
    }
}

impl Move {
    /// Reads one move from one word.
    pub fn from_word(word: &Vec<char>) -> (r: Option<Move>)
        ensures
            r is Some <==> spec_word(word@) is Some,
            r matches Some(player_move) ==> Some(player_move@) == spec_word(word@),
    {
        if let Some(side) = CastlingSide::from_word(word) {
            return Some(Move::Castling(side));
        }
        if is_resign(word) {
            return Some(Move::Resign);
        }
        if is_pass(word) {
            return Some(Move::Pass);
        }
        let n = word.len();
        if n > 0 && word[0] == '$' {
            if n != 4 {
                return None;
            }
            return match (PieceType::from_letter(word[1]), Tile::from_chars(word[2], word[3])) {
                (Some(piece), Some(to)) => Some(Move::Purchase { piece, to }),
                _ => None,
            };
        }
        if n == 5 {
            return match (
                Tile::from_chars(word[0], word[1]),
                Tile::from_chars(word[2], word[3]),
                PieceType::from_letter(word[4]),
            ) {
                (Some(from), Some(to), Some(kind)) => Some(
                    Move::FromTo { from, to, promotion: Some(kind) },
                ),
                _ => None,
            };
        }
        if n == 4 {
            return match (Tile::from_chars(word[0], word[1]), Tile::from_chars(word[2], word[3])) {
                (Some(from), Some(to)) => Some(Move::FromTo { from, to, promotion: None }),
                _ => match (
                    PieceType::from_letter(word[0]),
                    Tile::from_chars(word[1], word[2]),
                    PieceType::from_letter(word[3]),
                ) {
                    (Some(piece), Some(to), Some(kind)) => Some(
                        Move::PieceTo { piece, to, promotion: Some(kind) },
                    ),
                    _ => None,
                },
            };
        }
        if n == 3 {
            return match (PieceType::from_letter(word[0]), Tile::from_chars(word[1], word[2])) {
                (Some(piece), Some(to)) => Some(Move::PieceTo { piece, to, promotion: None }),
                _ => match (Tile::from_chars(word[0], word[1]), PieceType::from_letter(word[2])) {
                    (Some(to), Some(kind)) => Some(
                        Move::PieceTo { piece: PieceType::Pawn, to, promotion: Some(kind) },
                    ),
                    _ => None,
                },
            };
        }
        if n == 2 {
            return match Tile::from_chars(word[0], word[1]) {
                Some(to) => Some(Move::PieceTo { piece: PieceType::Pawn, to, promotion: None }),
                None => None,
            };
        }
        None
    }

    /// Reads a move from a line of text.
    pub fn parse(text: &str) -> (r: Result<Move, ()>)
        ensures
            r is Ok <==> spec_parse(text@) is Some,
            r matches Ok(player_move) ==> Some(player_move@) == spec_parse(text@),
    {
        let chars = chars_of(text);
        let words = split_words(&chars);
        let ghost texts = spec_words(text@);
        let mut moves: Vec<Move> = Vec::new();
        let mut i: usize = 0;
        assert(spec_list_view(moves@) =~= Seq::empty());
        while i < words.len()
            invariant
                i <= words@.len(),
                texts == spec_words(text@),
                words@.len() == texts.len(),
                forall|k: int| 0 <= k < words@.len() ==> #[trigger] words@[k]@ == texts[k],
                spec_moves_of(texts, i as nat) == Some(spec_list_view(moves@)),
                moves@.len() == i,
            decreases words@.len() - i,
        {
            match Move::from_word(&words[i]) {
                Some(player_move) => {
                    proof {
                        lemma_list_view_push(moves@, player_move);
                    }
                    moves.push(player_move);
                },
                None => {
                    proof {
                        lemma_moves_of_failed(texts, (i + 1) as nat, texts.len());
                    }
                    return Err(());
                },
            }
            i = i + 1;
        }
        proof {
            crate::moves::lemma_views(moves@, moves@.len());
        }
        if moves.len() == 1 {
            let only = moves.pop();
            match only {
                Some(player_move) => Ok(player_move),
                None => Err(()),
            }
        } else {
            Ok(Move::Many(moves))
        }
    }
}

impl core::str::FromStr for Move {
    type Err = ();

    /// Reads a move from a line of text, as [`Move::parse`] does.
    fn from_str(s: &str) -> (r: Result<Move, ()>)
        ensures
            r is Ok <==> spec_parse(s@) is Some,
            r matches Ok(player_move) ==> Some(player_move@) == spec_parse(s@),
    {
        Move::parse(s)
    }
}

} // verus!
