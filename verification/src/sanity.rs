//! The consistency check of a board.
//!
//! No operation of the board asks for a consistent board, and several can
//! break consistency; the check is there for callers that want to know.
use crate::bits::{group_bits, lemma_meet, member};
use crate::board::Board;
use crate::piece::{CastlingSide, Color, Piece, PieceType};
use crate::tile::Tile;
use vstd::prelude::*;

verus! {

broadcast use group_bits;

impl Piece {
    /// The number of a piece in the order in which the board looks pieces up:
    /// the white kinds from pawn to king, then the black ones.
    pub open spec fn spec_ordinal(self) -> int {
        (if self.spec_color() == Color::White {
            0int
        } else {
            6int
        }) + self.spec_type().spec_ordinal()
    }

    /// The piece with the given number.
    pub open spec fn spec_nth(n: int) -> Piece {
        Piece::of(
            if n % 6 == 0 {
                PieceType::Pawn
            } else if n % 6 == 1 {
                PieceType::Knight
            } else if n % 6 == 2 {
                PieceType::Bishop
            } else if n % 6 == 3 {
                PieceType::Rook
            } else if n % 6 == 4 {
                PieceType::Queen
            } else {
                PieceType::King
            },
            if n < 6 {
                Color::White
            } else {
                Color::Black
            },
        )
    }

    /// Numbering the pieces and reading the numbers back are inverse to each
    /// other.
    pub proof fn lemma_ordinal(self)
        ensures
            0 <= self.spec_ordinal() < 12,
            Piece::spec_nth(self.spec_ordinal()) == self,
    {
    }

    /// The piece with the given number, which must be under 12.
    pub fn from_ordinal(n: u8) -> (r: Piece)
        requires
            n < 12,
        ensures
            r == Piece::spec_nth(n as int),
            r.spec_ordinal() == n,
    {
        let color = if n < 6 {
            Color::White
        } else {
            Color::Black
        };
        let piece_type = match n % 6 {
            0 => PieceType::Pawn,
            1 => PieceType::Knight,
            2 => PieceType::Bishop,
            3 => PieceType::Rook,
            4 => PieceType::Queen,
            _ => PieceType::King,
        };
        Piece::new(piece_type, color)
    }
}

impl Board {
    /// Whether every castling that is still allowed has its king alone on
    /// the king's home square and a rook on the rook's corner.
    pub open spec fn spec_rights_consistent(self) -> bool {
        forall|color: Color, side: CastlingSide| #[trigger]
            self.spec_castling_rights().spec_allows(color, side) ==> {
                &&& self.spec_mask(Piece::of(PieceType::King, color)) == Tile::spec_king_start(
                    color,
                ).spec_bit()
                &&& self.spec_holds(
                    Piece::of(PieceType::Rook, color),
                    Tile::spec_rook_start(color, side),
                )
            }
    }

    /// Whether the en-passant target, if there is one, lies on the third or
    /// the sixth rank with a pawn of that half of the board on the tile one
    /// step further from the edge.
    pub open spec fn spec_en_passant_consistent(self) -> bool {
        match self.spec_en_passant() {
            None => true,
            Some(target) => {
                &&& (target.spec_rank() == 2 || target.spec_rank() == 5)
                &&& self.spec_piece(
                    target.spec_offset(target.spec_player_side().spec_direction(), 0),
                ) == Some(Piece::of(PieceType::Pawn, target.spec_player_side()))
            },
        }
    }

    /// Whether the board is consistent: no square is set in two masks, the
    /// castling rights fit the kings and rooks, and the en-passant target fits
    /// the pawns.
    pub open spec fn spec_consistent(self) -> bool {
        &&& self.spec_disjoint()
        &&& self.spec_rights_consistent()
        &&& self.spec_en_passant_consistent()
    }

    /// Whether no square is set in two of the masks of the first `n` pieces.
    pub open spec fn spec_disjoint_among(self, n: int) -> bool {
        forall|a: int, b: int, i: u64|
            0 <= a < b < n && i < 64 && #[trigger] member(self.spec_mask(Piece::spec_nth(a)), i)
                ==> !#[trigger] member(self.spec_mask(Piece::spec_nth(b)), i)
    }

    /// The masks are apart exactly when the masks of all twelve pieces are
    /// apart in the order of their numbers.
    pub proof fn lemma_disjoint_among(self)
        ensures
            self.spec_disjoint() <==> self.spec_disjoint_among(12),
    {
        if self.spec_disjoint() {
            assert forall|a: int, b: int, i: u64|
                0 <= a < b < 12 && i < 64 && #[trigger] member(
                    self.spec_mask(Piece::spec_nth(a)),
                    i,
                ) implies !#[trigger] member(self.spec_mask(Piece::spec_nth(b)), i) by {
                assert(Piece::spec_nth(a) != Piece::spec_nth(b));
            }
        }
        if self.spec_disjoint_among(12) {
            assert forall|p: Piece, q: Piece, i: u64|
                i < 64 && p != q && #[trigger] member(self.spec_mask(p), i) implies !#[trigger] member(
                self.spec_mask(q),
                i,
            ) by {
                p.lemma_ordinal();
                q.lemma_ordinal();
                let a = p.spec_ordinal();
                let b = q.spec_ordinal();
                if member(self.spec_mask(q), i) {
                    if a < b {
                        assert(member(self.spec_mask(Piece::spec_nth(a)), i));
                        assert(member(self.spec_mask(Piece::spec_nth(b)), i));
                    } else {
                        assert(member(self.spec_mask(Piece::spec_nth(b)), i));
                        assert(member(self.spec_mask(Piece::spec_nth(a)), i));
                    }
                }
            }
        }
    }

    /// Checks that no square is set in two masks.
    pub fn masks_are_disjoint(&self) -> (r: bool)
        ensures
            r == self.spec_disjoint(),
    {
        let mut bits: u64 = 0;
        let mut n: u8 = 0;
        while n < 12
            invariant
                n <= 12,
                self.spec_disjoint_among(n as int),
                forall|i: u64|
                    i < 64 ==> #[trigger] member(bits, i) == (exists|a: int|
                        0 <= a < n && #[trigger] member(self.spec_mask(Piece::spec_nth(a)), i)),
            decreases 12 - n,
        {
            let mask = self.get_mask(Piece::from_ordinal(n));
            proof {
                lemma_meet(bits, mask);
            }
            if bits & mask != 0 {
                proof {
                    let i = choose|i: u64| i < 64 && member(bits, i) && member(mask, i);
                    let a = choose|a: int|
                        0 <= a < n && #[trigger] member(self.spec_mask(Piece::spec_nth(a)), i);
                    assert(member(self.spec_mask(Piece::spec_nth(n as int)), i));
                    assert(!self.spec_disjoint_among(12));
                    self.lemma_disjoint_among();
                }
                return false;
            }
            proof {
                assert forall|a: int, b: int, i: u64|
                    0 <= a < b < n + 1 && i < 64 && #[trigger] member(
                        self.spec_mask(Piece::spec_nth(a)),
                        i,
                    ) implies !#[trigger] member(self.spec_mask(Piece::spec_nth(b)), i) by {
                    if b == n {
                        assert(member(bits, i));
                    }
                }
            }
            let ghost before = bits;
            bits = bits | mask;
            proof {
                assert forall|i: u64| i < 64 implies #[trigger] member(bits, i) == (exists|a: int|
                    0 <= a < n + 1 && #[trigger] member(self.spec_mask(Piece::spec_nth(a)), i)) by {
                    if member(before, i) {
                        let a = choose|a: int|
                            0 <= a < n && #[trigger] member(
                                self.spec_mask(Piece::spec_nth(a)),
                                i,
                            );
                        assert(member(self.spec_mask(Piece::spec_nth(a)), i));
                    }
                    if member(mask, i) {
                        assert(member(self.spec_mask(Piece::spec_nth(n as int)), i));
                    }
                }
            }
            n = n + 1;
        }
        proof {
            self.lemma_disjoint_among();
        }
        true
    }

    /// Checks that the castling rights of one colour and side fit the board.
    fn right_is_consistent(&self, color: Color, side: CastlingSide) -> (r: bool)
        ensures
            r == (self.spec_castling_rights().spec_allows(color, side) ==> {
                &&& self.spec_mask(Piece::of(PieceType::King, color)) == Tile::spec_king_start(
                    color,
                ).spec_bit()
                &&& self.spec_holds(
                    Piece::of(PieceType::Rook, color),
                    Tile::spec_rook_start(color, side),
                )
            }),
    {
        let king = Tile::king_start_position(color);
        let rook = Tile::rook_start_position(color, side);
        proof {
            use_type_invariant(&king);
            use_type_invariant(&rook);
            rook.lemma_index();
        }
        if !self.castling_rights.can_castle(king, rook) {
            return true;
        }
        if self.get_king_bits(color) != king.to_bit() {
            return false;
        }
        if self.get_mask(Piece::rook(color)) & rook.to_bit() == 0 {
            return false;
        }
        true
    }

    /// Checks that the en-passant target fits the board.
    fn en_passant_is_consistent(&self) -> (r: bool)
        ensures
            r == self.spec_en_passant_consistent(),
    {
        if let Some(en_passant) = self.en_passant {
            proof {
                use_type_invariant(&en_passant);
            }
            let rank = en_passant.get_rank().get_index();
            if rank != 2 && rank != 5 {
                return false;
            }
            let color = en_passant.get_player_side();
            let pawn_tile = en_passant.advance(color, 1);
            match self.get_piece(pawn_tile) {
                Some(piece) => piece.get_type() == PieceType::Pawn && piece.get_color() == color,
                None => false,
            }
        } else {
            true
        }
    }

    /// Perform a sanity check on the board: confirm that there are no
    /// overlapping pieces, that no castling is allowed whose king or rook has
    /// left its square, and that the en-passant target has its pawn.
    pub fn sanity_check(&self) -> (r: Result<(), ()>)
        ensures
            r is Ok <==> self.spec_consistent(),
    {
        if !self.masks_are_disjoint() {
            return Err(());
        }
        if !self.right_is_consistent(Color::White, CastlingSide::King) {
            return Err(());
        }
        if !self.right_is_consistent(Color::White, CastlingSide::Queen) {
            return Err(());
        }
        if !self.right_is_consistent(Color::Black, CastlingSide::King) {
            return Err(());
        }
        if !self.right_is_consistent(Color::Black, CastlingSide::Queen) {
            return Err(());
        }
        if !self.en_passant_is_consistent() {
            return Err(());
        }
        Ok(())
    }
}

} // verus!
