//! Counting the pieces of a board and adding up their value.
use crate::bits::{bit, count_ones, lemma_count_is_len, member, squares};
use crate::board::Board;
use crate::piece::{Color, Piece, PieceType};
use crate::tile::Tile;
use vstd::prelude::*;
use vstd::std_specs::bits::u64_trailing_zeros;

verus! {

impl Board {
    /// The number of squares in the mask of a piece.
    pub open spec fn spec_count(self, piece: Piece) -> nat {
        squares(self.spec_mask(piece)).len()
    }

    /// The value of the pieces of a colour in whole pawns, rounded down: each
    /// square in a mask counts for the base value of the mask's kind.
    pub open spec fn spec_total_value(self, color: Color) -> nat {
        (100 * self.spec_count(Piece::of(PieceType::Pawn, color)) + 300 * self.spec_count(
            Piece::of(PieceType::Knight, color),
        ) + 315 * self.spec_count(Piece::of(PieceType::Bishop, color)) + 500 * self.spec_count(
            Piece::of(PieceType::Rook, color),
        ) + 900 * self.spec_count(Piece::of(PieceType::Queen, color)) + 10000 * self.spec_count(
            Piece::of(PieceType::King, color),
        )) / 100
    }

    /// The mask of the colour's pieces without the square numbered one less
    /// than `last`.
    pub open spec fn spec_others(self, color: Color, last: Tile) -> u64 {
        self.spec_color_bits(color) & !bit((last.spec_index() - 1) as u64)
    }

    /// The number of squares in the mask of a piece.
    pub fn piece_count(&self, piece: Piece) -> (r: u64)
        ensures
            r == self.spec_count(piece),
            r <= 64,
    {
        proof {
            lemma_count_is_len(self.spec_mask(piece));
        }
        count_ones(self.get_mask(piece)) as u64
    }

    /// The value of the pieces of a colour in whole pawns, rounded down.
    pub fn total_piece_value(&self, color: Color) -> (r: u64)
        ensures
            r == self.spec_total_value(color),
    {
        let pawns = self.piece_count(Piece::pawn(color));
        let knights = self.piece_count(Piece::knight(color));
        let bishops = self.piece_count(Piece::bishop(color));
        let rooks = self.piece_count(Piece::rook(color));
        let queens = self.piece_count(Piece::queen(color));
        let kings = self.piece_count(Piece::king(color));
        (100 * pawns + 300 * knights + 315 * bishops + 500 * rooks + 900 * queens + 10000 * kings)
            / 100
    }

    /// Returns the number of squares that hold a white piece.
    pub fn white_piece_count(&self) -> (r: u64)
        ensures
            r == squares(self.spec_color_bits(Color::White)).len(),
    {
        proof {
            lemma_count_is_len(self.spec_color_bits(Color::White));
        }
        count_ones(self.white_pieces_as_bits()) as u64
    }

    /// Returns the number of squares that hold a black piece.
    pub fn black_piece_count(&self) -> (r: u64)
        ensures
            r == squares(self.spec_color_bits(Color::Black)).len(),
    {
        proof {
            lemma_count_is_len(self.spec_color_bits(Color::Black));
        }
        count_ones(self.black_pieces_as_bits()) as u64
    }

    /// Returns the number of white pawns on the board.
    pub fn white_pawn_count(&self) -> (r: u64)
        ensures
            r == self.spec_count(Piece::of(PieceType::Pawn, Color::White)),
    {
        self.piece_count(Piece::pawn(Color::White))
    }

    /// Returns the number of black pawns on the board.
    pub fn black_pawn_count(&self) -> (r: u64)
        ensures
            r == self.spec_count(Piece::of(PieceType::Pawn, Color::Black)),
    {
        self.piece_count(Piece::pawn(Color::Black))
    }

    /// Returns the number of white knights on the board.
    pub fn white_knight_count(&self) -> (r: u64)
        ensures
            r == self.spec_count(Piece::of(PieceType::Knight, Color::White)),
    {
        self.piece_count(Piece::knight(Color::White))
    }

    /// Returns the number of black knights on the board.
    pub fn black_knight_count(&self) -> (r: u64)
        ensures
            r == self.spec_count(Piece::of(PieceType::Knight, Color::Black)),
    {
        self.piece_count(Piece::knight(Color::Black))
    }

    /// Returns the number of white bishops on the board.
    pub fn white_bishop_count(&self) -> (r: u64)
        ensures
            r == self.spec_count(Piece::of(PieceType::Bishop, Color::White)),
    {
        self.piece_count(Piece::bishop(Color::White))
    }

    /// Returns the number of black bishops on the board.
    pub fn black_bishop_count(&self) -> (r: u64)
        ensures
            r == self.spec_count(Piece::of(PieceType::Bishop, Color::Black)),
    {
        self.piece_count(Piece::bishop(Color::Black))
    }

    /// Returns the number of white rooks on the board.
    pub fn white_rook_count(&self) -> (r: u64)
        ensures
            r == self.spec_count(Piece::of(PieceType::Rook, Color::White)),
    {
        self.piece_count(Piece::rook(Color::White))
    }

    /// Returns the number of black rooks on the board.
    pub fn black_rook_count(&self) -> (r: u64)
        ensures
            r == self.spec_count(Piece::of(PieceType::Rook, Color::Black)),
    {
        self.piece_count(Piece::rook(Color::Black))
    }

    /// Returns the number of white queens on the board.
    pub fn white_queen_count(&self) -> (r: u64)
        ensures
            r == self.spec_count(Piece::of(PieceType::Queen, Color::White)),
    {
        self.piece_count(Piece::queen(Color::White))
    }

    /// Returns the number of black queens on the board.
    pub fn black_queen_count(&self) -> (r: u64)
        ensures
            r == self.spec_count(Piece::of(PieceType::Queen, Color::Black)),
    {
        self.piece_count(Piece::queen(Color::Black))
    }

    /// Returns the number of white kings on the board.
    pub fn white_king_count(&self) -> (r: u64)
        ensures
            r == self.spec_count(Piece::of(PieceType::King, Color::White)),
    {
        self.piece_count(Piece::king(Color::White))
    }

    /// Returns the number of black kings on the board.
    pub fn black_king_count(&self) -> (r: u64)
        ensures
            r == self.spec_count(Piece::of(PieceType::King, Color::Black)),
    {
        self.piece_count(Piece::king(Color::Black))
    }

    /// Returns the total value of the white pieces on the board in whole
    /// pawns, rounded down. A pawn is worth 1, a knight 3, a bishop 3.15, a
    /// rook 5, a queen 9 and a king 100.
    pub fn total_white_piece_value(&self) -> (r: u64)
        ensures
            r == self.spec_total_value(Color::White),
    {
        self.total_piece_value(Color::White)
    }

    /// Returns the total value of the black pieces on the board in whole
    /// pawns, rounded down. A pawn is worth 1, a knight 3, a bishop 3.15, a
    /// rook 5, a queen 9 and a king 100.
    pub fn total_black_piece_value(&self) -> (r: u64)
        ensures
            r == self.spec_total_value(Color::Black),
    {
        self.total_piece_value(Color::Black)
    }

    /// The lowest tile that holds a white piece, not counting the tile
    /// numbered one less than `last`. `last` may not be the first tile, and
    /// there must be such a piece.
    pub fn next_white_piece(&self, last: Tile) -> (r: Tile)
        requires
            last.spec_index() >= 1,
            self.spec_others(Color::White, last) != 0,
        ensures
            r == Tile::nth(u64_trailing_zeros(self.spec_others(Color::White, last)) as int),
            member(self.spec_others(Color::White, last), r.spec_pos()),
            forall|j: u64| j < r.spec_pos() ==> !member(self.spec_others(Color::White, last), j),
    {
        let mut white_pieces = self.white_pieces_as_bits();
        white_pieces = white_pieces & !(1u64 << (last.get_nth() - 1));
        Tile::from_bit(white_pieces)
    }

    /// The lowest tile that holds a black piece, not counting the tile
    /// numbered one less than `last`. `last` may not be the first tile, and
    /// there must be such a piece.
    pub fn next_black_piece(&self, last: Tile) -> (r: Tile)
        requires
            last.spec_index() >= 1,
            self.spec_others(Color::Black, last) != 0,
        ensures
            r == Tile::nth(u64_trailing_zeros(self.spec_others(Color::Black, last)) as int),
            member(self.spec_others(Color::Black, last), r.spec_pos()),
            forall|j: u64| j < r.spec_pos() ==> !member(self.spec_others(Color::Black, last), j),
    {
        let mut black_pieces = self.black_pieces_as_bits();
        black_pieces = black_pieces & !(1u64 << (last.get_nth() - 1));
        Tile::from_bit(black_pieces)
    }
}

} // verus!
