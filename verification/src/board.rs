//! The board: twelve occupancy masks and the state that goes with them.
//!
//! Nothing here keeps the masks apart: a square may be set in several of
//! them, and every function says what it does in that case too. Where a
//! square is set in more than one mask, the piece on it is the first in the
//! order white before black, then pawn, knight, bishop, rook, queen, king.
use crate::bits::{group_bits, member};
use crate::castling::CastlingRights;
use crate::piece::{Color, Piece, PieceType};
use crate::tile::Tile;
use vstd::prelude::*;

verus! {

broadcast use group_bits;

/// Moves the bit of `from` to `to` in a mask, if the mask holds `from`.
pub open spec fn spec_move_bit(board: u64, from: Tile, to: Tile) -> u64 {
    if board & from.spec_bit() == 0 {
        board
    } else {
        (board & !from.spec_bit()) | to.spec_bit()
    }
}

/// Move a bit from one tile to another in the given bitboard.
pub fn move_bit(board: u64, from: Tile, to: Tile) -> (r: u64)
    ensures
        r == spec_move_bit(board, from, to),
        forall|i: u64|
            i < 64 ==> #[trigger] member(r, i) == (if member(board, from.spec_pos()) {
                (member(board, i) && i != from.spec_pos()) || i == to.spec_pos()
            } else {
                member(board, i)
            }),
{
    proof {
        use_type_invariant(&from);
        use_type_invariant(&to);
        from.lemma_index();
        to.lemma_index();
    }
    let from_bit = from.to_bit();
    let to_bit = to.to_bit();
    if board & from_bit == 0 {
        return board;
    }
    (board & !from_bit) | to_bit
}

/// A chess board: where the pieces stand, where a pawn may be captured in
/// passing, which castlings are still allowed, whose turn it is, and who has
/// won by resignation.
#[derive(Copy, Clone, Debug, PartialEq, Eq)]
pub struct Board {
    pub(crate) white_pawns: u64,
    pub(crate) white_knights: u64,
    pub(crate) white_bishops: u64,
    pub(crate) white_rooks: u64,
    pub(crate) white_queens: u64,
    pub(crate) white_king: u64,
    pub(crate) black_pawns: u64,
    pub(crate) black_knights: u64,
    pub(crate) black_bishops: u64,
    pub(crate) black_rooks: u64,
    pub(crate) black_queens: u64,
    pub(crate) black_king: u64,
    pub(crate) en_passant: Option<Tile>,
    pub(crate) castling_rights: CastlingRights,
    pub(crate) current_turn: Color,
    pub(crate) winner: Option<Color>,
}

impl Board {
    /// The mask of the squares that hold the given piece.
    pub open(crate) spec fn spec_mask(self, piece: Piece) -> u64 {
        match piece.spec_color() {
            Color::White => match piece.spec_type() {
                PieceType::Pawn => self.white_pawns,
                PieceType::Knight => self.white_knights,
                PieceType::Bishop => self.white_bishops,
                PieceType::Rook => self.white_rooks,
                PieceType::Queen => self.white_queens,
                PieceType::King => self.white_king,
            },
            Color::Black => match piece.spec_type() {
                PieceType::Pawn => self.black_pawns,
                PieceType::Knight => self.black_knights,
                PieceType::Bishop => self.black_bishops,
                PieceType::Rook => self.black_rooks,
                PieceType::Queen => self.black_queens,
                PieceType::King => self.black_king,
            },
        }
    }

    /// This board with the mask of one piece replaced.
    pub open(crate) spec fn spec_with_mask(self, piece: Piece, mask: u64) -> Board {
        match piece.spec_color() {
            Color::White => match piece.spec_type() {
                PieceType::Pawn => Board { white_pawns: mask, ..self },
                PieceType::Knight => Board { white_knights: mask, ..self },
                PieceType::Bishop => Board { white_bishops: mask, ..self },
                PieceType::Rook => Board { white_rooks: mask, ..self },
                PieceType::Queen => Board { white_queens: mask, ..self },
                PieceType::King => Board { white_king: mask, ..self },
            },
            Color::Black => match piece.spec_type() {
                PieceType::Pawn => Board { black_pawns: mask, ..self },
                PieceType::Knight => Board { black_knights: mask, ..self },
                PieceType::Bishop => Board { black_bishops: mask, ..self },
                PieceType::Rook => Board { black_rooks: mask, ..self },
                PieceType::Queen => Board { black_queens: mask, ..self },
                PieceType::King => Board { black_king: mask, ..self },
            },
        }
    }

    /// The square on which a pawn may be captured in passing, if there is
    /// one.
    pub open(crate) spec fn spec_en_passant(self) -> Option<Tile> {
        self.en_passant
    }

    /// The castling rights of the board.
    pub open(crate) spec fn spec_castling_rights(self) -> CastlingRights {
        self.castling_rights
    }

    /// The colour whose turn it is.
    pub open(crate) spec fn spec_turn(self) -> Color {
        self.current_turn
    }

    /// The colour that has won by the other's resignation, if one has.
    pub open(crate) spec fn spec_winner(self) -> Option<Color> {
        self.winner
    }

    /// This board with another colour to move.
    pub open(crate) spec fn spec_with_turn(self, color: Color) -> Board {
        Board { current_turn: color, ..self }
    }

    /// This board with another en-passant target.
    pub open(crate) spec fn spec_with_en_passant(self, en_passant: Option<Tile>) -> Board {
        Board { en_passant: en_passant, ..self }
    }

    /// This board with other castling rights.
    pub open(crate) spec fn spec_with_castling_rights(self, rights: CastlingRights) -> Board {
        Board { castling_rights: rights, ..self }
    }

    /// This board with a winner declared.
    pub open(crate) spec fn spec_with_winner(self, winner: Option<Color>) -> Board {
        Board { winner: winner, ..self }
    }

    /// Whether two boards have the same en-passant target, castling rights,
    /// side to move and winner.
    pub open spec fn spec_same_state(self, other: Board) -> bool {
        &&& self.spec_en_passant() == other.spec_en_passant()
        &&& self.spec_castling_rights() == other.spec_castling_rights()
        &&& self.spec_turn() == other.spec_turn()
        &&& self.spec_winner() == other.spec_winner()
    }

    /// Whether the mask of `piece` holds `tile`.
    pub open spec fn spec_holds(self, piece: Piece, tile: Tile) -> bool {
        member(self.spec_mask(piece), tile.spec_pos())
    }

    /// The mask of the squares that hold a piece of the colour.
    pub open spec fn spec_color_bits(self, color: Color) -> u64 {
        self.spec_mask(Piece::of(PieceType::Pawn, color)) | self.spec_mask(
            Piece::of(PieceType::Knight, color),
        ) | self.spec_mask(Piece::of(PieceType::Bishop, color)) | self.spec_mask(
            Piece::of(PieceType::Rook, color),
        ) | self.spec_mask(Piece::of(PieceType::Queen, color)) | self.spec_mask(
            Piece::of(PieceType::King, color),
        )
    }

    /// The mask of the squares that hold any piece.
    pub open spec fn spec_all_bits(self) -> u64 {
        self.spec_color_bits(Color::White) | self.spec_color_bits(Color::Black)
    }

    /// The piece of the colour on `tile`: of the kinds whose mask holds the
    /// tile, the first in the order pawn, knight, bishop, rook, queen, king.
    pub open spec fn spec_piece_of(self, color: Color, tile: Tile) -> Option<Piece> {
        if self.spec_holds(Piece::of(PieceType::Pawn, color), tile) {
            Some(Piece::of(PieceType::Pawn, color))
        } else if self.spec_holds(Piece::of(PieceType::Knight, color), tile) {
            Some(Piece::of(PieceType::Knight, color))
        } else if self.spec_holds(Piece::of(PieceType::Bishop, color), tile) {
            Some(Piece::of(PieceType::Bishop, color))
        } else if self.spec_holds(Piece::of(PieceType::Rook, color), tile) {
            Some(Piece::of(PieceType::Rook, color))
        } else if self.spec_holds(Piece::of(PieceType::Queen, color), tile) {
            Some(Piece::of(PieceType::Queen, color))
        } else if self.spec_holds(Piece::of(PieceType::King, color), tile) {
            Some(Piece::of(PieceType::King, color))
        } else {
            None
        }
    }

    /// The piece on `tile`, if there is one: a white piece before a black one.
    pub open spec fn spec_piece(self, tile: Tile) -> Option<Piece> {
        if self.spec_piece_of(Color::White, tile) is Some {
            self.spec_piece_of(Color::White, tile)
        } else {
            self.spec_piece_of(Color::Black, tile)
        }
    }

    /// Whether no square is set in more than one mask.
    pub open spec fn spec_disjoint(self) -> bool {
        forall|p: Piece, q: Piece, i: u64|
            i < 64 && p != q && #[trigger] member(self.spec_mask(p), i) ==> !#[trigger] member(
                self.spec_mask(q),
                i,
            )
    }

    /// This board with `tile` cleared in every mask.
    pub open(crate) spec fn spec_remove(self, tile: Tile) -> Board {
        let keep = !tile.spec_bit();
        Board {
            white_pawns: self.white_pawns & keep,
            white_knights: self.white_knights & keep,
            white_bishops: self.white_bishops & keep,
            white_rooks: self.white_rooks & keep,
            white_queens: self.white_queens & keep,
            white_king: self.white_king & keep,
            black_pawns: self.black_pawns & keep,
            black_knights: self.black_knights & keep,
            black_bishops: self.black_bishops & keep,
            black_rooks: self.black_rooks & keep,
            black_queens: self.black_queens & keep,
            black_king: self.black_king & keep,
            ..self
        }
    }

    /// This board with `tile` set in the mask of `piece`.
    pub open spec fn spec_put(self, piece: Piece, tile: Tile) -> Board {
        self.spec_with_mask(piece, self.spec_mask(piece) | tile.spec_bit())
    }

    /// This board after `to` has been cleared in every mask and then, in
    /// every mask that holds `from`, the bit of `from` has been moved to `to`.
    pub open(crate) spec fn spec_move_piece(self, from: Tile, to: Tile) -> Board {
        let cleared = self.spec_remove(to);
        Board {
            white_pawns: spec_move_bit(cleared.white_pawns, from, to),
            white_knights: spec_move_bit(cleared.white_knights, from, to),
            white_bishops: spec_move_bit(cleared.white_bishops, from, to),
            white_rooks: spec_move_bit(cleared.white_rooks, from, to),
            white_queens: spec_move_bit(cleared.white_queens, from, to),
            white_king: spec_move_bit(cleared.white_king, from, to),
            black_pawns: spec_move_bit(cleared.black_pawns, from, to),
            black_knights: spec_move_bit(cleared.black_knights, from, to),
            black_bishops: spec_move_bit(cleared.black_bishops, from, to),
            black_rooks: spec_move_bit(cleared.black_rooks, from, to),
            black_queens: spec_move_bit(cleared.black_queens, from, to),
            black_king: spec_move_bit(cleared.black_king, from, to),
            ..self
        }
    }

    /// This board after `tile` has been cleared and a piece of the given kind
    /// and of the colour to move has been put there.
    pub open spec fn spec_spawn(self, piece_type: PieceType, tile: Tile) -> Board {
        self.spec_remove(tile).spec_put(Piece::of(piece_type, self.spec_turn()), tile)
    }

    /// What removing does, tile by tile: the removed tile is in no mask, and
    /// every other tile is in the masks it was in.
    pub proof fn lemma_remove(self, tile: Tile)
        requires
            tile.wf(),
        ensures
            self.spec_remove(tile).spec_same_state(self),
            forall|p: Piece, i: u64|
                i < 64 ==> #[trigger] member(self.spec_remove(tile).spec_mask(p), i) == (member(
                    self.spec_mask(p),
                    i,
                ) && i != tile.spec_pos()),
            self.spec_remove(tile).spec_piece(tile) is None,
            forall|other: Tile|
                other.wf() && other != tile ==> #[trigger] self.spec_remove(tile).spec_piece(other)
                    == self.spec_piece(other),
    {
        tile.lemma_index();
        let after = self.spec_remove(tile);
        assert forall|p: Piece, i: u64| i < 64 implies #[trigger] member(after.spec_mask(p), i)
            == (member(self.spec_mask(p), i) && i != tile.spec_pos()) by {}
        assert forall|other: Tile| other.wf() && other != tile implies #[trigger] after.spec_piece(
            other,
        ) == self.spec_piece(other) by {
            other.lemma_index();
            tile.lemma_same(other);
        }
    }

    /// What putting does, tile by tile: the tile joins the mask of the piece,
    /// and nothing else changes.
    pub proof fn lemma_put(self, piece: Piece, tile: Tile)
        requires
            tile.wf(),
        ensures
            self.spec_put(piece, tile).spec_same_state(self),
            forall|i: u64|
                i < 64 ==> #[trigger] member(self.spec_put(piece, tile).spec_mask(piece), i) == (
                member(self.spec_mask(piece), i) || i == tile.spec_pos()),
            forall|p: Piece| p != piece ==> #[trigger] self.spec_put(piece, tile).spec_mask(p)
                == self.spec_mask(p),
    {
        tile.lemma_index();
    }

    /// Whether this board is `before` with `tile` added to the mask of
    /// `piece`: every tile is in the masks it was in, and `tile` is in the
    /// mask of `piece` as well.
    pub open spec fn spec_is_put(self, before: Board, piece: Piece, tile: Tile) -> bool {
        &&& self.spec_same_state(before)
        &&& forall|p: Piece, other: Tile|
            other.wf() ==> #[trigger] self.spec_holds(p, other) == (before.spec_holds(p, other) || (
            p == piece && other == tile))
    }

    /// Putting a piece on a tile adds the tile to the mask of the piece.
    pub proof fn lemma_is_put(self, piece: Piece, tile: Tile)
        requires
            tile.wf(),
        ensures
            self.spec_put(piece, tile).spec_is_put(self, piece, tile),
    {
        tile.lemma_index();
        self.lemma_put(piece, tile);
        let after = self.spec_put(piece, tile);
        assert forall|p: Piece, other: Tile| other.wf() implies #[trigger] after.spec_holds(
            p,
            other,
        ) == (self.spec_holds(p, other) || (p == piece && other == tile)) by {
            other.lemma_index();
            tile.lemma_same(other);
            if p != piece {
                assert(after.spec_mask(p) == self.spec_mask(p));
            }
        }
    }

    /// What moving does, tile by tile.
    pub proof fn lemma_move_piece(self, from: Tile, to: Tile)
        requires
            from.wf(),
            to.wf(),
        ensures
            self.spec_move_piece(from, to).spec_same_state(self),
            forall|p: Piece, i: u64|
                i < 64 ==> #[trigger] member(self.spec_move_piece(from, to).spec_mask(p), i) == (
                if from == to {
                    member(self.spec_mask(p), i) && i != to.spec_pos()
                } else if member(self.spec_mask(p), from.spec_pos()) {
                    (member(self.spec_mask(p), i) && i != from.spec_pos()) || i == to.spec_pos()
                } else {
                    member(self.spec_mask(p), i) && i != to.spec_pos()
                }),
    {
        from.lemma_index();
        to.lemma_index();
        from.lemma_same(to);
        let after = self.spec_move_piece(from, to);
        let cleared = self.spec_remove(to);
        self.lemma_remove(to);
        assert forall|p: Piece, i: u64| i < 64 implies #[trigger] member(after.spec_mask(p), i)
            == (if from == to {
            member(self.spec_mask(p), i) && i != to.spec_pos()
        } else if member(self.spec_mask(p), from.spec_pos()) {
            (member(self.spec_mask(p), i) && i != from.spec_pos()) || i == to.spec_pos()
        } else {
            member(self.spec_mask(p), i) && i != to.spec_pos()
        }) by {
            let m = cleared.spec_mask(p);
            assert(after.spec_mask(p) == spec_move_bit(m, from, to));
            assert(member(m, from.spec_pos()) == (m & from.spec_bit() != 0));
            assert(member(m, i) == (member(self.spec_mask(p), i) && i != to.spec_pos()));
            assert(member(m, from.spec_pos()) == (member(self.spec_mask(p), from.spec_pos())
                && from.spec_pos() != to.spec_pos()));
        }
    }

    /// An empty board with no pieces on it, no castling rights, and white to
    /// move.
    pub fn empty() -> (r: Board)
        ensures
            forall|p: Piece| #[trigger] r.spec_mask(p) == 0,
            forall|p: Piece, tile: Tile| tile.wf() ==> !#[trigger] r.spec_holds(p, tile),
            forall|tile: Tile| tile.wf() ==> #[trigger] r.spec_piece(tile) is None,
            r.spec_disjoint(),
            r.spec_en_passant() is None,
            forall|color: Color, side: crate::piece::CastlingSide|
                !#[trigger] r.spec_castling_rights().spec_allows(color, side),
            r.spec_turn() == Color::White,
            r.spec_winner() is None,
    {
        let r = Board {
            white_pawns: 0,
            white_knights: 0,
            white_bishops: 0,
            white_rooks: 0,
            white_queens: 0,
            white_king: 0,
            black_pawns: 0,
            black_knights: 0,
            black_bishops: 0,
            black_rooks: 0,
            black_queens: 0,
            black_king: 0,
            en_passant: None,
            castling_rights: CastlingRights::none(),
            current_turn: Color::White,
            winner: None,
        };
        proof {
            assert forall|p: Piece, tile: Tile| tile.wf() implies !#[trigger] r.spec_holds(
                p,
                tile,
            ) by {
                tile.lemma_index();
            }
            assert forall|tile: Tile| tile.wf() implies #[trigger] r.spec_piece(tile) is None by {
                tile.lemma_index();
            }
        }
        r
    }

    /// Set the turn of who's allowed to play the next move.
    pub fn set_turn(&mut self, color: Color)
        ensures
            *final(self) == old(self).spec_with_turn(color),
    {
        self.current_turn = color;
    }

    /// Whose turn is it?
    pub fn whose_turn(&self) -> (r: Color)
        ensures
            r == self.spec_turn(),
    {
        self.current_turn
    }

    /// Get the castling rights of the board.
    pub fn get_castling_rights(&self) -> (r: CastlingRights)
        ensures
            r == self.spec_castling_rights(),
    {
        self.castling_rights
    }

    /// The square on which a pawn may be captured in passing, if any.
    pub fn get_en_passant(&self) -> (r: Option<Tile>)
        ensures
            r == self.spec_en_passant(),
    {
        self.en_passant
    }

    /// The colour that has won by the other's resignation, if any.
    pub fn get_winner(&self) -> (r: Option<Color>)
        ensures
            r == self.spec_winner(),
    {
        self.winner
    }

    /// The mask of the given piece.
    pub fn get_mask(&self, piece: Piece) -> (r: u64)
        ensures
            r == self.spec_mask(piece),
    {
        match piece.get_color() {
            Color::White => match piece.get_type() {
                PieceType::Pawn => self.white_pawns,
                PieceType::Knight => self.white_knights,
                PieceType::Bishop => self.white_bishops,
                PieceType::Rook => self.white_rooks,
                PieceType::Queen => self.white_queens,
                PieceType::King => self.white_king,
            },
            Color::Black => match piece.get_type() {
                PieceType::Pawn => self.black_pawns,
                PieceType::Knight => self.black_knights,
                PieceType::Bishop => self.black_bishops,
                PieceType::Rook => self.black_rooks,
                PieceType::Queen => self.black_queens,
                PieceType::King => self.black_king,
            },
        }
    }

    /// Is there a black or white piece on the given tile?
    pub fn has_piece_on(&self, location: Tile) -> (r: bool)
        ensures
            r == self.spec_piece(location) is Some,
            r == member(self.spec_all_bits(), location.spec_pos()),
    {
        proof {
            use_type_invariant(&location);
            location.lemma_index();
        }
        self.has_white_piece_on(location) || self.has_black_piece_on(location)
    }

    /// The king bits of the given colour.
    pub fn get_king_bits(&self, color: Color) -> (r: u64)
        ensures
            r == self.spec_mask(Piece::of(PieceType::King, color)),
    {
        match color {
            Color::White => self.white_king,
            Color::Black => self.black_king,
        }
    }

    /// The mask of all the pieces on the board.
    pub fn all_pieces_as_bits(&self) -> (r: u64)
        ensures
            r == self.spec_all_bits(),
    {
        self.white_pieces_as_bits() | self.black_pieces_as_bits()
    }

    /// The mask of all the white pieces.
    pub fn white_pieces_as_bits(&self) -> (r: u64)
        ensures
            r == self.spec_color_bits(Color::White),
    {
        self.white_pawns | self.white_knights | self.white_bishops | self.white_rooks
            | self.white_queens | self.white_king
    }

    /// The mask of all the black pieces.
    pub fn black_pieces_as_bits(&self) -> (r: u64)
        ensures
            r == self.spec_color_bits(Color::Black),
    {
        self.black_pawns | self.black_knights | self.black_bishops | self.black_rooks
            | self.black_queens | self.black_king
    }

    /// Returns the piece on the given tile, or `None` if there is no piece on
    /// it.
    pub fn get_piece(&self, location: Tile) -> (r: Option<Piece>)
        ensures
            r == self.spec_piece(location),
    {
        proof {
            use_type_invariant(&location);
            location.lemma_index();
        }
        let bit = location.to_bit();
        if (self.white_pawns & bit) != 0 {
            return Some(Piece(PieceType::Pawn, Color::White));
        }
        if (self.white_knights & bit) != 0 {
            return Some(Piece(PieceType::Knight, Color::White));
        }
        if (self.white_bishops & bit) != 0 {
            return Some(Piece(PieceType::Bishop, Color::White));
        }
        if (self.white_rooks & bit) != 0 {
            return Some(Piece(PieceType::Rook, Color::White));
        }
        if (self.white_queens & bit) != 0 {
            return Some(Piece(PieceType::Queen, Color::White));
        }
        if (self.white_king & bit) != 0 {
            return Some(Piece(PieceType::King, Color::White));
        }
        if (self.black_pawns & bit) != 0 {
            return Some(Piece(PieceType::Pawn, Color::Black));
        }
        if (self.black_knights & bit) != 0 {
            return Some(Piece(PieceType::Knight, Color::Black));
        }
        if (self.black_bishops & bit) != 0 {
            return Some(Piece(PieceType::Bishop, Color::Black));
        }
        if (self.black_rooks & bit) != 0 {
            return Some(Piece(PieceType::Rook, Color::Black));
        }
        if (self.black_queens & bit) != 0 {
            return Some(Piece(PieceType::Queen, Color::Black));
        }
        if (self.black_king & bit) != 0 {
            return Some(Piece(PieceType::King, Color::Black));
        }
        None
    }

    /// Remove whatever stands on the tile from the board.
    pub fn remove_piece(&mut self, location: Tile)
        ensures
            *final(self) == old(self).spec_remove(location),
            final(self).spec_piece(location) is None,
            forall|other: Tile|
                other.wf() && other != location ==> #[trigger] final(self).spec_piece(other) == old(
                    self,
                ).spec_piece(other),
    {
        proof {
            use_type_invariant(&location);
            self.lemma_remove(location);
        }
        let bit = location.to_bit();
        self.white_pawns = self.white_pawns & !bit;
        self.white_knights = self.white_knights & !bit;
        self.white_bishops = self.white_bishops & !bit;
        self.white_rooks = self.white_rooks & !bit;
        self.white_queens = self.white_queens & !bit;
        self.white_king = self.white_king & !bit;
        self.black_pawns = self.black_pawns & !bit;
        self.black_knights = self.black_knights & !bit;
        self.black_bishops = self.black_bishops & !bit;
        self.black_rooks = self.black_rooks & !bit;
        self.black_queens = self.black_queens & !bit;
        self.black_king = self.black_king & !bit;
    }

    /// Move a piece from one tile to another: whatever stands on `to` leaves
    /// the board, and whatever stands on `from` goes to `to`.
    pub fn move_piece(&mut self, from: Tile, to: Tile)
        ensures
            *final(self) == old(self).spec_move_piece(from, to),
    {
        self.remove_piece(to);
        self.white_pawns = move_bit(self.white_pawns, from, to);
        self.white_knights = move_bit(self.white_knights, from, to);
        self.white_bishops = move_bit(self.white_bishops, from, to);
        self.white_rooks = move_bit(self.white_rooks, from, to);
        self.white_queens = move_bit(self.white_queens, from, to);
        self.white_king = move_bit(self.white_king, from, to);
        self.black_pawns = move_bit(self.black_pawns, from, to);
        self.black_knights = move_bit(self.black_knights, from, to);
        self.black_bishops = move_bit(self.black_bishops, from, to);
        self.black_rooks = move_bit(self.black_rooks, from, to);
        self.black_queens = move_bit(self.black_queens, from, to);
        self.black_king = move_bit(self.black_king, from, to);
    }

    /// Spawn a piece of a given type on a given tile, for the side to move.
    /// This will remove any piece that was previously on the tile.
    pub fn spawn(&mut self, piece: PieceType, to: Tile)
        ensures
            *final(self) == old(self).spec_spawn(piece, to),
            final(self).spec_piece(to) == Some(Piece::of(piece, old(self).spec_turn())),
            forall|other: Tile|
                other.wf() && other != to ==> #[trigger] final(self).spec_piece(other) == old(
                    self,
                ).spec_piece(other),
    {
        proof {
            use_type_invariant(&to);
            self.lemma_spawn(piece, to);
        }
        self.remove_piece(to);
        let color = self.current_turn;
        match color {
            Color::White => match piece {
                PieceType::Pawn => self.spawn_white_pawn(to),
                PieceType::Knight => self.spawn_white_knight(to),
                PieceType::Bishop => self.spawn_white_bishop(to),
                PieceType::Rook => self.spawn_white_rook(to),
                PieceType::Queen => self.spawn_white_queen(to),
                PieceType::King => self.spawn_white_king(to),
            },
            Color::Black => match piece {
                PieceType::Pawn => self.spawn_black_pawn(to),
                PieceType::Knight => self.spawn_black_knight(to),
                PieceType::Bishop => self.spawn_black_bishop(to),
                PieceType::Rook => self.spawn_black_rook(to),
                PieceType::Queen => self.spawn_black_queen(to),
                PieceType::King => self.spawn_black_king(to),
            },
        }
    }

    /// What spawning does, tile by tile: the tile holds the new piece and
    /// nothing else, and every other tile holds what it held.
    pub proof fn lemma_spawn(self, piece_type: PieceType, tile: Tile)
        requires
            tile.wf(),
        ensures
            self.spec_spawn(piece_type, tile).spec_same_state(self),
            self.spec_spawn(piece_type, tile).spec_piece(tile) == Some(
                Piece::of(piece_type, self.spec_turn()),
            ),
            forall|other: Tile|
                other.wf() && other != tile ==> #[trigger] self.spec_spawn(
                    piece_type,
                    tile,
                ).spec_piece(other) == self.spec_piece(other),
            self.spec_disjoint() ==> self.spec_spawn(piece_type, tile).spec_disjoint(),
    {
        tile.lemma_index();
        let piece = Piece::of(piece_type, self.spec_turn());
        let cleared = self.spec_remove(tile);
        let after = self.spec_spawn(piece_type, tile);
        self.lemma_remove(tile);
        cleared.lemma_put(piece, tile);
        assert forall|p: Piece, i: u64| i < 64 implies #[trigger] member(after.spec_mask(p), i)
            == ((member(self.spec_mask(p), i) && i != tile.spec_pos()) || (p == piece && i
            == tile.spec_pos())) by {
            if p != piece {
                assert(after.spec_mask(p) == cleared.spec_mask(p));
            }
        }
        assert forall|other: Tile| other.wf() && other != tile implies #[trigger] after.spec_piece(
            other,
        ) == self.spec_piece(other) by {
            other.lemma_index();
            tile.lemma_same(other);
        }
        if self.spec_disjoint() {
            assert forall|p: Piece, q: Piece, i: u64|
                i < 64 && p != q && #[trigger] member(after.spec_mask(p), i) implies !#[trigger] member(
                after.spec_mask(q),
                i,
            ) by {
                if member(after.spec_mask(q), i) {
                    assert(member(self.spec_mask(p), i) || i == tile.spec_pos());
                    assert(member(self.spec_mask(q), i) || i == tile.spec_pos());
                }
            }
        }
    }

    /// Puts a white pawn on the tile, beside whatever stands there.
    pub fn spawn_white_pawn(&mut self, location: Tile)
        ensures
            *final(self) == old(self).spec_put(Piece::of(PieceType::Pawn, Color::White), location),
            final(self).spec_is_put(*old(self), Piece::of(PieceType::Pawn, Color::White), location),
    {
        proof {
            use_type_invariant(&location);
            self.lemma_is_put(Piece::of(PieceType::Pawn, Color::White), location);
        }
        self.white_pawns = self.white_pawns | location.to_bit();
    }

    /// Puts a black pawn on the tile, beside whatever stands there.
    pub fn spawn_black_pawn(&mut self, location: Tile)
        ensures
            *final(self) == old(self).spec_put(Piece::of(PieceType::Pawn, Color::Black), location),
            final(self).spec_is_put(*old(self), Piece::of(PieceType::Pawn, Color::Black), location),
    {
        proof {
            use_type_invariant(&location);
            self.lemma_is_put(Piece::of(PieceType::Pawn, Color::Black), location);
        }
        self.black_pawns = self.black_pawns | location.to_bit();
    }

    /// Puts a white knight on the tile, beside whatever stands there.
    pub fn spawn_white_knight(&mut self, location: Tile)
        ensures
            *final(self) == old(self).spec_put(
                Piece::of(PieceType::Knight, Color::White),
                location,
            ),
            final(self).spec_is_put(
                *old(self),
                Piece::of(PieceType::Knight, Color::White),
                location,
            ),
    {
        proof {
            use_type_invariant(&location);
            self.lemma_is_put(Piece::of(PieceType::Knight, Color::White), location);
        }
        self.white_knights = self.white_knights | location.to_bit();
    }

    /// Puts a black knight on the tile, beside whatever stands there.
    pub fn spawn_black_knight(&mut self, location: Tile)
        ensures
            *final(self) == old(self).spec_put(
                Piece::of(PieceType::Knight, Color::Black),
                location,
            ),
            final(self).spec_is_put(
                *old(self),
                Piece::of(PieceType::Knight, Color::Black),
                location,
            ),
    {
        proof {
            use_type_invariant(&location);
            self.lemma_is_put(Piece::of(PieceType::Knight, Color::Black), location);
        }
        self.black_knights = self.black_knights | location.to_bit();
    }

    /// Puts a white bishop on the tile, beside whatever stands there.
    pub fn spawn_white_bishop(&mut self, location: Tile)
        ensures
            *final(self) == old(self).spec_put(
                Piece::of(PieceType::Bishop, Color::White),
                location,
            ),
            final(self).spec_is_put(
                *old(self),
                Piece::of(PieceType::Bishop, Color::White),
                location,
            ),
    {
        proof {
            use_type_invariant(&location);
            self.lemma_is_put(Piece::of(PieceType::Bishop, Color::White), location);
        }
        self.white_bishops = self.white_bishops | location.to_bit();
    }

    /// Puts a black bishop on the tile, beside whatever stands there.
    pub fn spawn_black_bishop(&mut self, location: Tile)
        ensures
            *final(self) == old(self).spec_put(
                Piece::of(PieceType::Bishop, Color::Black),
                location,
            ),
            final(self).spec_is_put(
                *old(self),
                Piece::of(PieceType::Bishop, Color::Black),
                location,
            ),
    {
        proof {
            use_type_invariant(&location);
            self.lemma_is_put(Piece::of(PieceType::Bishop, Color::Black), location);
        }
        self.black_bishops = self.black_bishops | location.to_bit();
    }

    /// Puts a white rook on the tile, beside whatever stands there.
    pub fn spawn_white_rook(&mut self, location: Tile)
        ensures
            *final(self) == old(self).spec_put(Piece::of(PieceType::Rook, Color::White), location),
            final(self).spec_is_put(*old(self), Piece::of(PieceType::Rook, Color::White), location),
    {
        proof {
            use_type_invariant(&location);
            self.lemma_is_put(Piece::of(PieceType::Rook, Color::White), location);
        }
        self.white_rooks = self.white_rooks | location.to_bit();
    }

    /// Puts a black rook on the tile, beside whatever stands there.
    pub fn spawn_black_rook(&mut self, location: Tile)
        ensures
            *final(self) == old(self).spec_put(Piece::of(PieceType::Rook, Color::Black), location),
            final(self).spec_is_put(*old(self), Piece::of(PieceType::Rook, Color::Black), location),
    {
        proof {
            use_type_invariant(&location);
            self.lemma_is_put(Piece::of(PieceType::Rook, Color::Black), location);
        }
        self.black_rooks = self.black_rooks | location.to_bit();
    }

    /// Puts a white queen on the tile, beside whatever stands there.
    pub fn spawn_white_queen(&mut self, location: Tile)
        ensures
            *final(self) == old(self).spec_put(
                Piece::of(PieceType::Queen, Color::White),
                location,
            ),
            final(self).spec_is_put(
                *old(self),
                Piece::of(PieceType::Queen, Color::White),
                location,
            ),
    {
        proof {
            use_type_invariant(&location);
            self.lemma_is_put(Piece::of(PieceType::Queen, Color::White), location);
        }
        self.white_queens = self.white_queens | location.to_bit();
    }

    /// Puts a black queen on the tile, beside whatever stands there.
    pub fn spawn_black_queen(&mut self, location: Tile)
        ensures
            *final(self) == old(self).spec_put(
                Piece::of(PieceType::Queen, Color::Black),
                location,
            ),
            final(self).spec_is_put(
                *old(self),
                Piece::of(PieceType::Queen, Color::Black),
                location,
            ),
    {
        proof {
            use_type_invariant(&location);
            self.lemma_is_put(Piece::of(PieceType::Queen, Color::Black), location);
        }
        self.black_queens = self.black_queens | location.to_bit();
    }

    /// Puts a white king on the tile, beside whatever stands there.
    pub fn spawn_white_king(&mut self, location: Tile)
        ensures
            *final(self) == old(self).spec_put(Piece::of(PieceType::King, Color::White), location),
            final(self).spec_is_put(*old(self), Piece::of(PieceType::King, Color::White), location),
    {
        proof {
            use_type_invariant(&location);
            self.lemma_is_put(Piece::of(PieceType::King, Color::White), location);
        }
        self.white_king = self.white_king | location.to_bit();
    }

    /// Puts a black king on the tile, beside whatever stands there.
    pub fn spawn_black_king(&mut self, location: Tile)
        ensures
            *final(self) == old(self).spec_put(Piece::of(PieceType::King, Color::Black), location),
            final(self).spec_is_put(*old(self), Piece::of(PieceType::King, Color::Black), location),
    {
        proof {
            use_type_invariant(&location);
            self.lemma_is_put(Piece::of(PieceType::King, Color::Black), location);
        }
        self.black_king = self.black_king | location.to_bit();
    }

    /// Is there a white piece on the given tile?
    pub fn has_white_piece_on(&self, location: Tile) -> (r: bool)
        ensures
            r == self.spec_piece_of(Color::White, location) is Some,
            r == member(self.spec_color_bits(Color::White), location.spec_pos()),
    {
        proof {
            use_type_invariant(&location);
            location.lemma_index();
        }
        let bit = location.to_bit();
        (self.white_pawns & bit) != 0 || (self.white_knights & bit) != 0 || (self.white_bishops
            & bit) != 0 || (self.white_rooks & bit) != 0 || (self.white_queens & bit) != 0 || (
        self.white_king & bit) != 0
    }

    /// Is there a black piece on the given tile?
    pub fn has_black_piece_on(&self, location: Tile) -> (r: bool)
        ensures
            r == self.spec_piece_of(Color::Black, location) is Some,
            r == member(self.spec_color_bits(Color::Black), location.spec_pos()),
    {
        proof {
            use_type_invariant(&location);
            location.lemma_index();
        }
        let bit = location.to_bit();
        (self.black_pawns & bit) != 0 || (self.black_knights & bit) != 0 || (self.black_bishops
            & bit) != 0 || (self.black_rooks & bit) != 0 || (self.black_queens & bit) != 0 || (
        self.black_king & bit) != 0
    }
}

} // verus!
