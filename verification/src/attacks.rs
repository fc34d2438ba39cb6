//! The squares that a piece on a tile bears on, as bit masks.
use crate::bits::{group_bits, member};
use crate::piece::{CastlingSide, Color, PieceType};
use crate::tile::Tile;
use vstd::prelude::*;

verus! {

broadcast use group_bits;

/// Adds to `bits` the tile that lies at the given offset from `from`, if
/// there is one.
fn with_offset(bits: u64, from: Tile, rank: i8, file: i8) -> (r: u64)
    ensures
        forall|i: u64|
            i < 64 ==> #[trigger] member(r, i) == (member(bits, i) || (from.spec_offset_in_board(
                rank as int,
                file as int,
            ) && Tile::nth(i as int) == from.spec_offset(rank as int, file as int))),
{
    proof {
        use_type_invariant(&from);
    }
    match from.move_by(rank, file) {
        Some(tile) => {
            proof {
                use_type_invariant(&tile);
                tile.lemma_index();
                assert forall|i: u64| i < 64 implies (Tile::nth(i as int) == tile) == (i
                    == tile.spec_pos()) by {
                    Tile::lemma_nth(i as int);
                }
            }
            bits | tile.to_bit()
        },
        None => bits,
    }
}

impl Tile {
    /// Whether `mask` holds exactly the squares that the king passes over and
    /// lands on when it castles from this tile to `to`; no square at all
    /// unless `to` is the castling destination on this tile's own side and
    /// half of the board.
    pub open spec fn spec_is_castling_mask(self, mask: u64, to: Tile) -> bool {
        let side = self.spec_castling_side();
        let color = self.spec_player_side();
        forall|i: u64|
            i < 64 ==> #[trigger] member(mask, i) == (to == Tile::spec_king_castled(color, side)
                && Tile::nth(i as int).spec_rank() == Tile::spec_king_start(color).spec_rank() && (
            if side == CastlingSide::King {
                5 <= Tile::nth(i as int).spec_file() <= 6
            } else {
                1 <= Tile::nth(i as int).spec_file() <= 3
            }))
    }

    /// The attacking bits for this tile.
    pub fn attacking_bits(&self, piece_type: PieceType, color: Color) -> (r: u64)
        ensures
            self.spec_is_attack_mask(r, piece_type, color),
    {
        match piece_type {
            PieceType::Pawn => self.pawn_attacking_bits(color),
            PieceType::Knight => self.knight_attacking_bits(),
            PieceType::Bishop => self.bishop_attacking_bits(),
            PieceType::Rook => self.rook_attacking_bits(),
            PieceType::Queen => self.queen_attacking_bits(),
            PieceType::King => self.king_attacking_bits(),
        }
    }

    /// The attacking bits for a pawn on this tile: the two squares diagonally
    /// ahead, as far as they are on the board.
    pub fn pawn_attacking_bits(&self, color: Color) -> (r: u64)
        ensures
            self.spec_is_attack_mask(r, PieceType::Pawn, color),
    {
        proof {
            use_type_invariant(self);
        }
        let direction = color.direction();
        let mut bits: u64 = 0;
        bits = with_offset(bits, *self, direction, -1);
        bits = with_offset(bits, *self, direction, 1);
        proof {
            assert forall|i: u64| i < 64 implies #[trigger] member(bits, i) == self.spec_attacks(
                PieceType::Pawn,
                color,
                Tile::nth(i as int),
            ) by {
                Tile::lemma_nth(i as int);
            }
        }
        bits
    }

    /// The attacking bits for a knight on this tile.
    pub fn knight_attacking_bits(&self) -> (r: u64)
        ensures
            forall|color: Color| self.spec_is_attack_mask(r, PieceType::Knight, color),
    {
        proof {
            use_type_invariant(self);
        }
        let mut bits: u64 = 0;
        bits = with_offset(bits, *self, -2, -1);
        bits = with_offset(bits, *self, -2, 1);
        bits = with_offset(bits, *self, -1, -2);
        bits = with_offset(bits, *self, -1, 2);
        bits = with_offset(bits, *self, 1, -2);
        bits = with_offset(bits, *self, 1, 2);
        bits = with_offset(bits, *self, 2, -1);
        bits = with_offset(bits, *self, 2, 1);
        proof {
            assert forall|i: u64| i < 64 implies #[trigger] member(bits, i) == self.spec_attacks(
                PieceType::Knight,
                Color::White,
                Tile::nth(i as int),
            ) by {
                Tile::lemma_nth(i as int);
            }
            assert forall|color: Color|
                self.spec_is_attack_mask(bits, PieceType::Knight, color) by {
                assert forall|i: u64| i < 64 implies #[trigger] member(bits, i)
                    == self.spec_attacks(PieceType::Knight, color, Tile::nth(i as int)) by {
                    assert(member(bits, i) == self.spec_attacks(
                        PieceType::Knight,
                        Color::White,
                        Tile::nth(i as int),
                    ));
                }
            }
        }
        bits
    }

    /// The attacking bits for a bishop on this tile.
    pub fn bishop_attacking_bits(&self) -> (r: u64)
        ensures
            forall|color: Color| self.spec_is_attack_mask(r, PieceType::Bishop, color),
    {
        let mut bits: u64 = 0;
        let mut n: u8 = 0;
        while n < 64
            invariant
                n <= 64,
                forall|i: u64|
                    i < 64 ==> #[trigger] member(bits, i) == (i < n && self.spec_is_diagonal_to(
                        Tile::nth(i as int),
                    )),
            decreases 64 - n,
        {
            let tile = Tile::from_nth(n);
            if self.is_diagonal_to(tile) {
                proof {
                    assert(tile.spec_pos() == n);
                }
                bits = bits | tile.to_bit();
            }
            n = n + 1;
        }
        bits
    }

    /// The attacking bits for a rook on this tile.
    pub fn rook_attacking_bits(&self) -> (r: u64)
        ensures
            forall|color: Color| self.spec_is_attack_mask(r, PieceType::Rook, color),
    {
        proof {
            use_type_invariant(self);
        }
        let rank = self.get_rank();
        let file = self.get_file();
        let mut bits: u64 = 0;
        let mut n: u8 = 0;
        while n < 8
            invariant
                n <= 8,
                rank@ == self.spec_rank(),
                file@ == self.spec_file(),
                self.wf(),
                forall|i: u64|
                    i < 64 ==> #[trigger] member(bits, i) == (Tile::nth(i as int).spec_rank() < n
                        && Tile::nth(i as int).spec_file() == self.spec_file()),
            decreases 8 - n,
        {
            let tile = Tile::new(crate::rank::Rank::from_index(n), file);
            proof {
                assert forall|i: u64| i < 64 implies (Tile::nth(i as int) == tile) == (i
                    == tile.spec_pos()) by {
                    Tile::lemma_nth(i as int);
                }
            }
            bits = bits | tile.to_bit();
            n = n + 1;
        }
        let mut m: u8 = 0;
        while m < 8
            invariant
                m <= 8,
                rank@ == self.spec_rank(),
                file@ == self.spec_file(),
                self.wf(),
                forall|i: u64|
                    i < 64 ==> #[trigger] member(bits, i) == (Tile::nth(i as int).spec_file()
                        == self.spec_file() || (Tile::nth(i as int).spec_file() < m && Tile::nth(
                        i as int,
                    ).spec_rank() == self.spec_rank())),
            decreases 8 - m,
        {
            let tile = Tile::new(rank, crate::file::File::from_index(m));
            proof {
                assert forall|i: u64| i < 64 implies (Tile::nth(i as int) == tile) == (i
                    == tile.spec_pos()) by {
                    Tile::lemma_nth(i as int);
                }
            }
            bits = bits | tile.to_bit();
            m = m + 1;
        }
        proof {
            assert forall|i: u64| i < 64 implies #[trigger] member(bits, i) == self.spec_attacks(
                PieceType::Rook,
                Color::White,
                Tile::nth(i as int),
            ) by {
                Tile::lemma_nth(i as int);
            }
            assert forall|color: Color| self.spec_is_attack_mask(bits, PieceType::Rook, color) by {
                assert forall|i: u64| i < 64 implies #[trigger] member(bits, i)
                    == self.spec_attacks(PieceType::Rook, color, Tile::nth(i as int)) by {
                    assert(member(bits, i) == self.spec_attacks(
                        PieceType::Rook,
                        Color::White,
                        Tile::nth(i as int),
                    ));
                }
            }
        }
        bits
    }

    /// The attacking bits for a queen on this tile.
    pub fn queen_attacking_bits(&self) -> (r: u64)
        ensures
            forall|color: Color| self.spec_is_attack_mask(r, PieceType::Queen, color),
    {
        let rook = self.rook_attacking_bits();
        let bishop = self.bishop_attacking_bits();
        proof {
            assert(self.spec_is_attack_mask(rook, PieceType::Rook, Color::White));
            assert(self.spec_is_attack_mask(bishop, PieceType::Bishop, Color::White));
        }
        rook | bishop
    }

    /// The attacking bits for a king on this tile.
    pub fn king_attacking_bits(&self) -> (r: u64)
        ensures
            forall|color: Color| self.spec_is_attack_mask(r, PieceType::King, color),
    {
        proof {
            use_type_invariant(self);
        }
        let mut bits: u64 = 0;
        bits = with_offset(bits, *self, -1, -1);
        bits = with_offset(bits, *self, -1, 0);
        bits = with_offset(bits, *self, -1, 1);
        bits = with_offset(bits, *self, 0, -1);
        bits = with_offset(bits, *self, 0, 1);
        bits = with_offset(bits, *self, 1, -1);
        bits = with_offset(bits, *self, 1, 0);
        bits = with_offset(bits, *self, 1, 1);
        proof {
            assert forall|i: u64| i < 64 implies #[trigger] member(bits, i) == self.spec_attacks(
                PieceType::King,
                Color::White,
                Tile::nth(i as int),
            ) by {
                Tile::lemma_nth(i as int);
            }
            assert forall|color: Color| self.spec_is_attack_mask(bits, PieceType::King, color) by {
                assert forall|i: u64| i < 64 implies #[trigger] member(bits, i)
                    == self.spec_attacks(PieceType::King, color, Tile::nth(i as int)) by {
                    assert(member(bits, i) == self.spec_attacks(
                        PieceType::King,
                        Color::White,
                        Tile::nth(i as int),
                    ));
                }
            }
        }
        bits
    }

    /// The castling bits for this tile: the squares that the king passes over
    /// and lands on while castling from here to `to`.
    pub fn castling_bits(&self, to: Tile) -> (r: u64)
        ensures
            self.spec_is_castling_mask(r, to),
    {
        proof {
            use_type_invariant(self);
            use_type_invariant(&to);
        }
        let side = self.get_castling_side();
        let color = self.get_player_side();
        let proper_to_square = Tile::castling_destination_for_king(color, side);
        if to != proper_to_square {
            return 0;
        }
        let king = Tile::king_start_position(color);
        let mut bits: u64 = 0;
        match side {
            CastlingSide::King => {
                bits = with_offset(bits, king, 0, 1);
                bits = with_offset(bits, king, 0, 2);
            },
            CastlingSide::Queen => {
                bits = with_offset(bits, king, 0, -1);
                bits = with_offset(bits, king, 0, -2);
                bits = with_offset(bits, king, 0, -3);
            },
        }
        proof {
            assert forall|i: u64| i < 64 implies #[trigger] member(bits, i) == (Tile::nth(
                i as int,
            ).spec_rank() == Tile::spec_king_start(color).spec_rank() && (if side
                == CastlingSide::King {
                5 <= Tile::nth(i as int).spec_file() <= 6
            } else {
                1 <= Tile::nth(i as int).spec_file() <= 3
            })) by {
                Tile::lemma_nth(i as int);
            }
        }
        bits
    }
}

} // verus!
