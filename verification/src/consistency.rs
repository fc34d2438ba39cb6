//! A move that is played on a consistent board leaves a consistent board.
//!
//! The one exception is a pawn that is promoted to a king while its colour
//! may still castle: the colour then has two kings, and the castling rights
//! ask for one.
use crate::bits::{group_bits, lemma_mask_ext, member};
use crate::board::Board;
use crate::invariants::spec_on_board;
use crate::moves::MoveView;
use crate::piece::{CastlingSide, Color, Piece, PieceType};
use crate::tile::Tile;
use vstd::prelude::*;

verus! {

broadcast use group_bits;

/// The rank on which the king and the rooks of a colour start.
pub open spec fn spec_home_rank(color: Color) -> int {
    if color == Color::White {
        0
    } else {
        7
    }
}

/// The home squares and the castling squares of a colour lie on the board,
/// on the colour's home rank.
pub proof fn lemma_homes(color: Color, side: CastlingSide)
    ensures
        Tile::spec_king_start(color).wf(),
        Tile::spec_rook_start(color, side).wf(),
        Tile::spec_king_castled(color, side).wf(),
        Tile::spec_rook_castled(color, side).wf(),
        Tile::spec_king_start(color).spec_rank() == spec_home_rank(color),
        Tile::spec_rook_start(color, side).spec_rank() == spec_home_rank(color),
        Tile::spec_king_castled(color, side).spec_rank() == spec_home_rank(color),
        Tile::spec_rook_castled(color, side).spec_rank() == spec_home_rank(color),
        Tile::spec_king_start(color).spec_player_side() == color,
{
    let rank = spec_home_rank(color);
    Tile::lemma_at(rank, 0);
    Tile::lemma_at(rank, 2);
    Tile::lemma_at(rank, 3);
    Tile::lemma_at(rank, 4);
    Tile::lemma_at(rank, 5);
    Tile::lemma_at(rank, 6);
    Tile::lemma_at(rank, 7);
}

impl Board {
    /// Whether the king of the colour stands alone on its home square and a
    /// rook of the colour on the corner of the side.
    pub open spec fn spec_fits(self, color: Color, side: CastlingSide) -> bool {
        &&& self.spec_mask(Piece::of(PieceType::King, color)) == Tile::spec_king_start(
            color,
        ).spec_bit()
        &&& self.spec_holds(Piece::of(PieceType::Rook, color), Tile::spec_rook_start(color, side))
    }

    /// Whether the move promotes a pawn to a king while the side to move may
    /// still castle.
    pub open spec fn spec_crowns_a_castler(
        self,
        from: Tile,
        to: Tile,
        promotion: Option<PieceType>,
    ) -> bool {
        &&& promotion == Some(PieceType::King)
        &&& self.spec_is_valid_promotion(from, to)
        &&& (self.spec_castling_rights().spec_allows(self.spec_turn(), CastlingSide::King)
            || self.spec_castling_rights().spec_allows(self.spec_turn(), CastlingSide::Queen))
    }

    /// A board has the king and the rook of a castling in place exactly when
    /// another board with the same two masks has.
    pub proof fn lemma_same_fits(self, other: Board, color: Color, side: CastlingSide)
        requires
            self.spec_same_masks(other),
            self.spec_fits(color, side),
        ensures
            other.spec_fits(color, side),
    {
        assert(self.spec_mask(Piece::of(PieceType::King, color)) == other.spec_mask(
            Piece::of(PieceType::King, color),
        ));
        assert(self.spec_mask(Piece::of(PieceType::Rook, color)) == other.spec_mask(
            Piece::of(PieceType::Rook, color),
        ));
    }

    /// Clearing a tile that is neither the king's home square nor the rook's
    /// corner leaves the king and the rook in place.
    pub proof fn lemma_remove_fits(self, tile: Tile, color: Color, side: CastlingSide)
        requires
            tile.wf(),
            self.spec_fits(color, side),
            tile != Tile::spec_king_start(color),
            tile != Tile::spec_rook_start(color, side),
        ensures
            self.spec_remove(tile).spec_fits(color, side),
    {
        let king = Tile::spec_king_start(color);
        let rook = Tile::spec_rook_start(color, side);
        let own = Piece::of(PieceType::King, color);
        lemma_homes(color, side);
        tile.lemma_index();
        king.lemma_index();
        rook.lemma_index();
        tile.lemma_same(king);
        tile.lemma_same(rook);
        self.lemma_remove(tile);
        let after = self.spec_remove(tile);
        assert forall|i: u64| i < 64 implies member(after.spec_mask(own), i) == member(
            king.spec_bit(),
            i,
        ) by {
            assert(member(after.spec_mask(own), i) == (member(self.spec_mask(own), i) && i
                != tile.spec_pos()));
        }
        lemma_mask_ext(after.spec_mask(own), king.spec_bit());
    }

    /// Putting a piece that is not the king of the colour on a tile leaves
    /// the king and the rook of the colour in place.
    pub proof fn lemma_put_fits(self, piece: Piece, tile: Tile, color: Color, side: CastlingSide)
        requires
            tile.wf(),
            self.spec_fits(color, side),
            piece != Piece::of(PieceType::King, color),
        ensures
            self.spec_put(piece, tile).spec_fits(color, side),
    {
        let rook = Tile::spec_rook_start(color, side);
        lemma_homes(color, side);
        rook.lemma_index();
        self.lemma_put(piece, tile);
        let after = self.spec_put(piece, tile);
        let own = Piece::of(PieceType::King, color);
        let tower = Piece::of(PieceType::Rook, color);
        assert(after.spec_mask(own) == self.spec_mask(own));
        if piece != tower {
            assert(after.spec_mask(tower) == self.spec_mask(tower));
        } else {
            assert(member(after.spec_mask(tower), rook.spec_pos()));
        }
    }

    /// Moving a piece between tiles that are neither the king's home square
    /// nor the rook's corner leaves the king and the rook in place.
    pub proof fn lemma_move_fits(self, from: Tile, to: Tile, color: Color, side: CastlingSide)
        requires
            from.wf(),
            to.wf(),
            self.spec_fits(color, side),
            from != Tile::spec_king_start(color),
            from != Tile::spec_rook_start(color, side),
            to != Tile::spec_king_start(color),
            to != Tile::spec_rook_start(color, side),
        ensures
            self.spec_move_piece(from, to).spec_fits(color, side),
    {
        let king = Tile::spec_king_start(color);
        let rook = Tile::spec_rook_start(color, side);
        let own = Piece::of(PieceType::King, color);
        let tower = Piece::of(PieceType::Rook, color);
        lemma_homes(color, side);
        from.lemma_index();
        to.lemma_index();
        king.lemma_index();
        rook.lemma_index();
        from.lemma_same(king);
        from.lemma_same(rook);
        to.lemma_same(king);
        to.lemma_same(rook);
        self.lemma_move_piece(from, to);
        let after = self.spec_move_piece(from, to);
        assert(!member(self.spec_mask(own), from.spec_pos()));
        assert forall|i: u64| i < 64 implies member(after.spec_mask(own), i) == member(
            king.spec_bit(),
            i,
        ) by {
            assert(member(after.spec_mask(own), i) == (member(self.spec_mask(own), i) && i
                != to.spec_pos()));
        }
        lemma_mask_ext(after.spec_mask(own), king.spec_bit());
        assert(member(self.spec_mask(tower), rook.spec_pos()));
        assert(member(after.spec_mask(tower), rook.spec_pos()));
    }

    /// A castling leaves the king and the rooks of the other colour in
    /// place.
    pub proof fn lemma_castling_fits(self, king: Tile, rook: Tile, color: Color, side: CastlingSide)
        requires
            king.wf(),
            rook.wf(),
            self.spec_is_castling_move(king, rook),
            self.spec_turn() == king.spec_player_side(),
            color != self.spec_turn(),
            self.spec_fits(color, side),
        ensures
            self.spec_perform_castling(king, rook).spec_fits(color, side),
    {
        let turn = self.spec_turn();
        let flank = rook.spec_castling_side();
        let king_to = Tile::spec_king_castled(turn, flank);
        let rook_to = Tile::spec_rook_castled(turn, flank);
        lemma_homes(turn, flank);
        lemma_homes(turn, CastlingSide::King);
        lemma_homes(turn, CastlingSide::Queen);
        lemma_homes(color, side);
        assert(king.spec_rank() == spec_home_rank(turn));
        assert(rook.spec_rank() == spec_home_rank(turn));
        let lost = self.spec_with_castling_rights(
            self.spec_castling_rights().spec_without_color(turn),
        );
        assert(lost.spec_fits(color, side));
        lost.lemma_move_fits(king, king_to, color, side);
        lost.spec_move_piece(king, king_to).lemma_move_fits(rook, rook_to, color, side);
    }

    /// A capture in passing on a board whose en-passant target fits the
    /// pawns leaves the king and the rook of a castling in place, if the
    /// pawn neither leaves nor lands on the king's home square or the rook's
    /// corner.
    pub proof fn lemma_capture_en_passant_fits(
        self,
        from: Tile,
        target: Tile,
        color: Color,
        side: CastlingSide,
    )
        requires
            from.wf(),
            target.wf(),
            self.spec_en_passant() == Some(target),
            self.spec_en_passant_consistent(),
            self.spec_fits(color, side),
            from != Tile::spec_king_start(color),
            from != Tile::spec_rook_start(color, side),
            target != Tile::spec_king_start(color),
            target != Tile::spec_rook_start(color, side),
        ensures
            self.spec_capture_en_passant(from, target).spec_fits(color, side),
    {
        let back = -self.spec_turn().spec_direction();
        lemma_homes(color, side);
        target.lemma_index();
        let victim = target.spec_offset(back, 0);
        Tile::lemma_at(target.spec_rank() + back, target.spec_file());
        self.lemma_remove_fits(victim, color, side);
        self.spec_remove(victim).lemma_move_fits(from, target, color, side);
    }

    /// A move that is no castling leaves the king and the rook of a castling
    /// in place, on a board whose en-passant target fits the pawns, if the
    /// piece neither leaves nor lands on the king's home square or the
    /// rook's corner and is not made a king of that colour.
    pub proof fn lemma_relocate_fits(
        self,
        from: Tile,
        to: Tile,
        promotion: Option<PieceType>,
        color: Color,
        side: CastlingSide,
    )
        requires
            from.wf(),
            to.wf(),
            self.spec_en_passant_consistent(),
            self.spec_fits(color, side),
            from != Tile::spec_king_start(color),
            from != Tile::spec_rook_start(color, side),
            to != Tile::spec_king_start(color),
            to != Tile::spec_rook_start(color, side),
            !(promotion == Some(PieceType::King) && self.spec_is_valid_promotion(from, to)
                && color == self.spec_turn()),
        ensures
            self.spec_relocate(from, to, promotion).spec_fits(color, side),
    {
        let left = self.spec_with_castling_rights(self.spec_rights_after(from, to));
        assert(left.spec_fits(color, side));
        if left.spec_is_en_passant_capture(from, to) {
            left.lemma_capture_en_passant_fits(from, to, color, side);
        } else {
            let cleared = left.spec_remove(to);
            left.lemma_remove(to);
            left.lemma_remove_fits(to, color, side);
            if cleared.spec_is_valid_promotion(from, to) {
                let kind = match promotion {
                    Some(piece_type) => piece_type,
                    None => PieceType::Queen,
                };
                from.lemma_same(to);
                assert(cleared.spec_piece(from) == self.spec_piece(from)) by {
                    if from == to {
                        assert(cleared.spec_piece(from) is None);
                    }
                }
                let gone = cleared.spec_remove(from);
                cleared.lemma_remove_fits(from, color, side);
                cleared.lemma_remove(from);
                gone.lemma_remove_fits(to, color, side);
                gone.spec_remove(to).lemma_put_fits(
                    Piece::of(kind, gone.spec_turn()),
                    to,
                    color,
                    side,
                );
            } else {
                let opened = cleared.spec_with_en_passant(
                    cleared.spec_opened_en_passant(from, to),
                );
                assert(opened.spec_fits(color, side));
                opened.lemma_move_fits(from, to, color, side);
            }
        }
    }

    /// After a piece has moved onto a tile of a board on which no two masks
    /// share a square, the piece stands on that tile.
    pub proof fn lemma_moved_piece(self, from: Tile, to: Tile)
        requires
            from.wf(),
            to.wf(),
            from != to,
            self.spec_disjoint(),
            self.spec_piece(from) is Some,
        ensures
            self.spec_move_piece(from, to).spec_piece(to) == self.spec_piece(from),
    {
        let mover = self.spec_piece(from)->0;
        from.lemma_index();
        to.lemma_index();
        from.lemma_same(to);
        self.lemma_move_piece(from, to);
        let after = self.spec_move_piece(from, to);
        assert(member(self.spec_mask(mover), from.spec_pos()));
        assert(member(after.spec_mask(mover), to.spec_pos()));
        assert forall|p: Piece| p != mover implies !#[trigger] after.spec_holds(p, to) by {
            if member(self.spec_mask(p), from.spec_pos()) {
                assert(member(self.spec_mask(mover), from.spec_pos()));
            }
        }
    }

    /// A legal move that is no castling leaves an en-passant target that
    /// fits the pawns, on a board on which no two masks share a square.
    pub proof fn lemma_relocate_en_passant(
        self,
        from: Tile,
        to: Tile,
        promotion: Option<PieceType>,
    )
        requires
            from.wf(),
            to.wf(),
            self.spec_disjoint(),
            self.spec_is_legal_piece_move(from, to),
            !self.spec_is_castling_move(from, to),
        ensures
            self.spec_relocate(from, to, promotion).spec_en_passant_consistent(),
    {
        let left = self.spec_with_castling_rights(self.spec_rights_after(from, to));
        if !left.spec_is_en_passant_capture(from, to) {
            let cleared = left.spec_remove(to);
            left.lemma_remove(to);
            from.lemma_same(to);
            from.lemma_index();
            to.lemma_index();
            if !cleared.spec_is_valid_promotion(from, to) {
                let target = cleared.spec_opened_en_passant(from, to);
                let opened = cleared.spec_with_en_passant(target);
                let after = opened.spec_move_piece(from, to);
                opened.lemma_move_piece(from, to);
                if target is Some {
                    let mover = self.spec_piece(from)->0;
                    assert(cleared.spec_piece(from) == Some(mover));
                    let d = self.spec_turn().spec_direction();
                    Tile::lemma_at(from.spec_rank() + d, from.spec_file());
                    self.lemma_same_masks_apart(left);
                    left.lemma_remove_keeps_apart(to);
                    cleared.lemma_same_masks_apart(opened);
                    opened.lemma_moved_piece(from, to);
                    assert(after.spec_piece(to) == Some(mover));
                    assert(target->0.spec_offset(target->0.spec_player_side().spec_direction(), 0)
                        == to);
                }
            }
        }
    }

    /// A legal move of a piece leaves a consistent board consistent, unless
    /// it promotes a pawn to a king while the side to move may still castle.
    pub proof fn lemma_perform_consistent(
        self,
        from: Tile,
        to: Tile,
        promotion: Option<PieceType>,
    )
        requires
            from.wf(),
            to.wf(),
            self.spec_consistent(),
            self.spec_is_legal_piece_move(from, to),
            !self.spec_crowns_a_castler(from, to, promotion),
        ensures
            self.spec_perform(from, to, promotion).0.spec_consistent(),
    {
        let after = self.spec_perform(from, to, promotion).0;
        let rights = self.spec_castling_rights();
        let mover = self.spec_piece(from)->0;
        let mine = self.spec_with_turn(mover.spec_color());
        self.lemma_perform_keeps(from, to, promotion);
        if self.spec_is_castling_move(from, to) {
            crate::laws::lemma_castling_king(self, from, to);
            let turn = from.spec_player_side();
            rights.lemma_without_color(turn);
            assert forall|color: Color, side: CastlingSide| #[trigger]
                after.spec_castling_rights().spec_allows(color, side) implies after.spec_fits(
                color,
                side,
            ) by {
                assert(rights.spec_allows(color, side));
                assert(mine.spec_fits(color, side));
                mine.lemma_castling_fits(from, to, color, side);
            }
        } else {
            assert(mine == self);
            rights.lemma_without_tile(from);
            rights.spec_without_tile(from).lemma_without_tile(to);
            assert forall|color: Color, side: CastlingSide| #[trigger]
                after.spec_castling_rights().spec_allows(color, side) implies after.spec_fits(
                color,
                side,
            ) by {
                assert(rights.spec_without_tile(from).spec_allows(color, side));
                assert(rights.spec_allows(color, side));
                assert(self.spec_fits(color, side));
                self.lemma_relocate_fits(from, to, promotion, color, side);
            }
            self.lemma_relocate_en_passant(from, to, promotion);
        }
    }
}

/// Whether a move promotes a pawn to a king while the side to move may still
/// castle.
pub open spec fn spec_crowns_a_castler(board: Board, player_move: MoveView) -> bool {
    match player_move {
        MoveView::FromTo { from, to, promotion } => board.spec_crowns_a_castler(
            from,
            to,
            promotion,
        ),
        MoveView::PieceTo { piece, to, promotion } => match board.spec_eligible_piece(piece, to) {
            Some(from) => board.spec_crowns_a_castler(from, to, promotion),
            None => false,
        },
        _ => false,
    }
}

/// A move that is no sequence and is played on a consistent board leaves a
/// consistent board: the masks share no square, every castling that is still
/// allowed has its king alone on the king's home square and a rook on the
/// rook's corner, and the en-passant target, if there is one, has its pawn.
/// The one move that does not is the promotion of a pawn to a king while the
/// side to move may still castle.
pub proof fn law_moves_keep_the_board_consistent(board: Board, player_move: MoveView)
    requires
        spec_on_board(player_move),
        !(player_move is Many),
        board.spec_consistent(),
        board.spec_apply(player_move).1,
        !spec_crowns_a_castler(board, player_move),
    ensures
        board.spec_apply(player_move).0.spec_consistent(),
{
    match player_move {
        MoveView::FromTo { from, to, promotion } => {
            board.lemma_perform_consistent(from, to, promotion);
        },
        MoveView::PieceTo { piece, to, promotion } => {
            board.lemma_eligible_on_board(piece, to, 0);
            let from = board.spec_eligible_piece(piece, to)->0;
            board.lemma_perform_consistent(from, to, promotion);
        },
        MoveView::Castling(side) => {
            let king = Tile::spec_king_start(board.spec_turn());
            let rook = Tile::spec_rook_start(board.spec_turn(), side);
            lemma_homes(board.spec_turn(), side);
            board.lemma_perform_consistent(king, rook, None);
        },
        MoveView::Pass | MoveView::Resign => {
            let after = board.spec_apply(player_move).0;
            board.lemma_same_masks_apart(after);
            assert(after.spec_castling_rights() == board.spec_castling_rights());
            assert forall|color: Color, side: CastlingSide| #[trigger]
                after.spec_castling_rights().spec_allows(color, side) implies after.spec_fits(
                color,
                side,
            ) by {
                assert(board.spec_fits(color, side));
                board.lemma_same_fits(after, color, side);
            }
        },
        _ => {},
    }
}

} // verus!
