//! The standard starting arrangement.
use crate::bits::member;
use crate::board::Board;
use crate::castling::CastlingRights;
use crate::piece::{CastlingSide, Color, Piece, PieceType};
use crate::tile::Tile;
use vstd::prelude::*;

verus! {

/// The kind of the piece that starts on a file of a back rank.
pub open spec fn spec_back_rank_kind(file: int) -> PieceType {
    if file == 0 || file == 7 {
        PieceType::Rook
    } else if file == 1 || file == 6 {
        PieceType::Knight
    } else if file == 2 || file == 5 {
        PieceType::Bishop
    } else if file == 3 {
        PieceType::Queen
    } else {
        PieceType::King
    }
}

/// The piece that starts a game on a tile, if one does.
pub open spec fn spec_initial_piece(tile: Tile) -> Option<Piece> {
    if tile.spec_rank() == 0 {
        Some(Piece::of(spec_back_rank_kind(tile.spec_file()), Color::White))
    } else if tile.spec_rank() == 1 {
        Some(Piece::of(PieceType::Pawn, Color::White))
    } else if tile.spec_rank() == 6 {
        Some(Piece::of(PieceType::Pawn, Color::Black))
    } else if tile.spec_rank() == 7 {
        Some(Piece::of(spec_back_rank_kind(tile.spec_file()), Color::Black))
    } else {
        None
    }
}

/// The squares of the twelve starting masks.
proof fn lemma_starting_masks(i: u64)
    by (bit_vector)
    requires
        i < 64,
    ensures
        member(0x0000_0000_0000_FF00u64, i) == (8 <= i && i < 16),
        member(0x0000_0000_0000_0042u64, i) == (i == 1 || i == 6),
        member(0x0000_0000_0000_0024u64, i) == (i == 2 || i == 5),
        member(0x0000_0000_0000_0081u64, i) == (i == 0 || i == 7),
        member(0x0000_0000_0000_0008u64, i) == (i == 3),
        member(0x0000_0000_0000_0010u64, i) == (i == 4),
        member(0x00FF_0000_0000_0000u64, i) == (48 <= i && i < 56),
        member(0x4200_0000_0000_0000u64, i) == (i == 57 || i == 62),
        member(0x2400_0000_0000_0000u64, i) == (i == 58 || i == 61),
        member(0x8100_0000_0000_0000u64, i) == (i == 56 || i == 63),
        member(0x0800_0000_0000_0000u64, i) == (i == 59),
        member(0x1000_0000_0000_0000u64, i) == (i == 60),
        0x0000_0000_0000_0010u64 == 1u64 << 4,
        0x1000_0000_0000_0000u64 == 1u64 << 60,
{
}

impl Default for Board {
    /// The board at the start of a game: the standard arrangement, every
    /// castling allowed, white to move.
    fn default() -> (r: Board)
        ensures
            forall|tile: Tile|
                tile.wf() ==> #[trigger] r.spec_piece(tile) == spec_initial_piece(tile),
            forall|p: Piece, tile: Tile|
                tile.wf() ==> #[trigger] r.spec_holds(p, tile) == (spec_initial_piece(tile) == Some(
                    p,
                )),
            forall|color: Color, side: CastlingSide| #[trigger]
                r.spec_castling_rights().spec_allows(color, side),
            r.spec_en_passant() is None,
            r.spec_turn() == Color::White,
            r.spec_winner() is None,
            r.spec_consistent(),
    {
        let r = Board {
            white_pawns: 0x0000_0000_0000_FF00,
            white_knights: 0x0000_0000_0000_0042,
            white_bishops: 0x0000_0000_0000_0024,
            white_rooks: 0x0000_0000_0000_0081,
            white_queens: 0x0000_0000_0000_0008,
            white_king: 0x0000_0000_0000_0010,
            black_pawns: 0x00FF_0000_0000_0000,
            black_knights: 0x4200_0000_0000_0000,
            black_bishops: 0x2400_0000_0000_0000,
            black_rooks: 0x8100_0000_0000_0000,
            black_queens: 0x0800_0000_0000_0000,
            black_king: 0x1000_0000_0000_0000,
            en_passant: None,
            castling_rights: CastlingRights::default(),
            current_turn: Color::White,
            winner: None,
        };
        proof {
            assert forall|tile: Tile| tile.wf() implies #[trigger] r.spec_piece(tile)
                == spec_initial_piece(tile) by {
                tile.lemma_index();
                lemma_starting_masks(tile.spec_pos());
            }
            assert forall|p: Piece, tile: Tile| tile.wf() implies #[trigger] r.spec_holds(p, tile)
                == (spec_initial_piece(tile) == Some(p)) by {
                tile.lemma_index();
                lemma_starting_masks(tile.spec_pos());
            }
            assert forall|p: Piece, q: Piece, i: u64|
                i < 64 && p != q && #[trigger] member(r.spec_mask(p), i) implies !#[trigger] member(
                r.spec_mask(q),
                i,
            ) by {
                lemma_starting_masks(i);
            }
            assert forall|color: Color, side: CastlingSide| #[trigger]
                r.spec_castling_rights().spec_allows(color, side) implies {
                &&& r.spec_mask(Piece::of(PieceType::King, color)) == Tile::spec_king_start(
                    color,
                ).spec_bit()
                &&& r.spec_holds(
                    Piece::of(PieceType::Rook, color),
                    Tile::spec_rook_start(color, side),
                )
            } by {
                lemma_starting_masks(Tile::spec_rook_start(color, side).spec_pos());
            }
        }
        r
    }
}

} // verus!
