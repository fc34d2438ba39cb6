//! What every move preserves: castling rights are only ever lost, masks that
//! are apart stay apart, and the turn passes when a move is played.
use crate::bits::{group_bits, member};
use crate::board::Board;
use crate::castling::CastlingRights;
use crate::moves::MoveView;
use crate::piece::{CastlingSide, Color, Piece, PieceType};
use crate::tile::Tile;
use vstd::prelude::*;

verus! {

broadcast use group_bits;

impl CastlingRights {
    /// Rights that allow no more than rights that allow no more than others
    /// allow no more than those others.
    pub proof fn lemma_within_trans(self, middle: CastlingRights, other: CastlingRights)
        requires
            self.spec_within(middle),
            middle.spec_within(other),
        ensures
            self.spec_within(other),
    {
        assert forall|color: Color, side: CastlingSide| #[trigger]
            self.spec_allows(color, side) implies other.spec_allows(color, side) by {
            assert(middle.spec_allows(color, side));
        }
    }

    /// Switching off both rights of a colour allows nothing new.
    pub proof fn lemma_without_color(self, color: Color)
        ensures
            self.spec_without_color(color).spec_within(self),
            !self.spec_without_color(color).spec_allows(color, CastlingSide::King),
            !self.spec_without_color(color).spec_allows(color, CastlingSide::Queen),
    {
        self.lemma_without(color, CastlingSide::King);
        self.spec_without(color, CastlingSide::King).lemma_without(color, CastlingSide::Queen);
        self.spec_without_color(color).lemma_within_trans(
            self.spec_without(color, CastlingSide::King),
            self,
        );
    }
}

impl Board {
    /// Clearing a tile keeps masks apart.
    pub proof fn lemma_remove_keeps_apart(self, tile: Tile)
        requires
            tile.wf(),
            self.spec_disjoint(),
        ensures
            self.spec_remove(tile).spec_disjoint(),
    {
        self.lemma_remove(tile);
        let after = self.spec_remove(tile);
        assert forall|p: Piece, q: Piece, i: u64|
            i < 64 && p != q && #[trigger] member(after.spec_mask(p), i) implies !#[trigger] member(
            after.spec_mask(q),
            i,
        ) by {
            if member(after.spec_mask(q), i) {
                assert(member(self.spec_mask(p), i));
                assert(member(self.spec_mask(q), i));
            }
        }
    }

    /// Moving a piece keeps masks apart.
    pub proof fn lemma_move_keeps_apart(self, from: Tile, to: Tile)
        requires
            from.wf(),
            to.wf(),
            self.spec_disjoint(),
        ensures
            self.spec_move_piece(from, to).spec_disjoint(),
    {
        from.lemma_index();
        to.lemma_index();
        self.lemma_move_piece(from, to);
        let after = self.spec_move_piece(from, to);
        assert forall|p: Piece, q: Piece, i: u64|
            i < 64 && p != q && #[trigger] member(after.spec_mask(p), i) implies !#[trigger] member(
            after.spec_mask(q),
            i,
        ) by {
            if member(after.spec_mask(q), i) {
                if member(self.spec_mask(p), from.spec_pos()) {
                    assert(!member(self.spec_mask(q), from.spec_pos()));
                    assert(member(self.spec_mask(q), i));
                    assert(member(self.spec_mask(p), i));
                } else if member(self.spec_mask(q), from.spec_pos()) {
                    assert(member(self.spec_mask(p), i));
                    assert(member(self.spec_mask(q), i));
                } else {
                    assert(member(self.spec_mask(p), i));
                    assert(member(self.spec_mask(q), i));
                }
            }
        }
    }

    /// Whether two boards have the same masks.
    pub open spec fn spec_same_masks(self, other: Board) -> bool {
        forall|p: Piece| #[trigger] self.spec_mask(p) == other.spec_mask(p)
    }

    /// Boards with the same masks have their masks apart together.
    pub proof fn lemma_same_masks_apart(self, other: Board)
        requires
            self.spec_same_masks(other),
            self.spec_disjoint(),
        ensures
            other.spec_disjoint(),
    {
        assert forall|p: Piece, q: Piece, i: u64|
            i < 64 && p != q && #[trigger] member(other.spec_mask(p), i) implies !#[trigger] member(
            other.spec_mask(q),
            i,
        ) by {
            assert(self.spec_mask(p) == other.spec_mask(p));
            assert(self.spec_mask(q) == other.spec_mask(q));
            if member(other.spec_mask(q), i) {
                assert(member(self.spec_mask(p), i));
                assert(member(self.spec_mask(q), i));
            }
        }
    }

    /// Castling keeps masks apart, takes castling rights at most, and leaves
    /// the turn and the winner alone.
    pub proof fn lemma_castling_keeps(self, king: Tile, rook: Tile)
        requires
            king.wf(),
            rook.wf(),
        ensures
            self.spec_perform_castling(king, rook).spec_castling_rights().spec_within(
                self.spec_castling_rights(),
            ),
            self.spec_perform_castling(king, rook).spec_turn() == self.spec_turn(),
            self.spec_perform_castling(king, rook).spec_winner() == self.spec_winner(),
            self.spec_disjoint() ==> self.spec_perform_castling(king, rook).spec_disjoint(),
    {
        if self.spec_is_castling_move(king, rook) {
            let color = self.spec_turn();
            let side = rook.spec_castling_side();
            let king_to = Tile::spec_king_castled(color, side);
            let rook_to = Tile::spec_rook_castled(color, side);
            self.spec_castling_rights().lemma_without_color(color);
            let lost = self.spec_with_castling_rights(
                self.spec_castling_rights().spec_without_color(color),
            );
            lost.lemma_move_piece(king, king_to);
            let stepped = lost.spec_move_piece(king, king_to);
            stepped.lemma_move_piece(rook, rook_to);
            if self.spec_disjoint() {
                self.lemma_same_masks_apart(lost);
                lost.lemma_move_keeps_apart(king, king_to);
                stepped.lemma_move_keeps_apart(rook, rook_to);
            }
        }
    }

    /// The rights that are left after a piece has gone from one tile to
    /// another allow nothing new.
    pub proof fn lemma_rights_after(self, from: Tile, to: Tile)
        ensures
            self.spec_rights_after(from, to).spec_within(self.spec_castling_rights()),
    {
        let rights = self.spec_castling_rights();
        rights.lemma_without_color(self.spec_turn());
        rights.lemma_without_color(Color::White);
        rights.lemma_without_color(Color::Black);
        rights.lemma_without(Color::White, CastlingSide::King);
        rights.lemma_without(Color::White, CastlingSide::Queen);
        rights.lemma_without(Color::Black, CastlingSide::King);
        rights.lemma_without(Color::Black, CastlingSide::Queen);
    }

    /// A capture in passing keeps masks apart and leaves castling rights,
    /// turn and winner alone.
    pub proof fn lemma_capture_en_passant_keeps(self, from: Tile, target: Tile)
        requires
            from.wf(),
            target.wf(),
        ensures
            self.spec_capture_en_passant(from, target).spec_castling_rights()
                == self.spec_castling_rights(),
            self.spec_capture_en_passant(from, target).spec_turn() == self.spec_turn(),
            self.spec_capture_en_passant(from, target).spec_winner() == self.spec_winner(),
            self.spec_disjoint() ==> self.spec_capture_en_passant(from, target).spec_disjoint(),
    {
        let back = -self.spec_turn().spec_direction();
        let cleared = if target.spec_offset_in_board(back, 0) {
            self.spec_remove(target.spec_offset(back, 0))
        } else {
            self
        };
        if target.spec_offset_in_board(back, 0) {
            let victim = target.spec_offset(back, 0);
            Tile::lemma_at(target.spec_rank() + back, target.spec_file());
            self.lemma_remove(victim);
            if self.spec_disjoint() {
                self.lemma_remove_keeps_apart(victim);
            }
        }
        cleared.lemma_move_piece(from, target);
        if self.spec_disjoint() {
            cleared.lemma_move_keeps_apart(from, target);
            cleared.spec_move_piece(from, target).lemma_same_masks_apart(
                self.spec_capture_en_passant(from, target),
            );
        }
    }

    /// A promotion keeps masks apart and leaves castling rights, turn and
    /// winner alone.
    pub proof fn lemma_promotion_keeps(self, from: Tile, to: Tile, piece_type: PieceType)
        requires
            from.wf(),
            to.wf(),
        ensures
            self.spec_remove(from).spec_spawn(piece_type, to).spec_same_state(self),
            self.spec_disjoint() ==> self.spec_remove(from).spec_spawn(
                piece_type,
                to,
            ).spec_disjoint(),
    {
        let gone = self.spec_remove(from);
        self.lemma_remove(from);
        gone.lemma_spawn(piece_type, to);
        if self.spec_disjoint() {
            self.lemma_remove_keeps_apart(from);
        }
    }

    /// A move that is no castling keeps masks apart, takes castling rights at
    /// most, and leaves the turn and the winner alone.
    pub proof fn lemma_relocate_keeps(self, from: Tile, to: Tile, promotion: Option<PieceType>)
        requires
            from.wf(),
            to.wf(),
        ensures
            self.spec_relocate(from, to, promotion).spec_castling_rights().spec_within(
                self.spec_castling_rights(),
            ),
            self.spec_relocate(from, to, promotion).spec_turn() == self.spec_turn(),
            self.spec_relocate(from, to, promotion).spec_winner() == self.spec_winner(),
            self.spec_disjoint() ==> self.spec_relocate(from, to, promotion).spec_disjoint(),
    {
        self.lemma_rights_after(from, to);
        let left = self.spec_with_castling_rights(self.spec_rights_after(from, to));
        if self.spec_disjoint() {
            self.lemma_same_masks_apart(left);
        }
        if left.spec_is_en_passant_capture(from, to) {
            left.lemma_capture_en_passant_keeps(from, to);
        } else {
            let cleared = left.spec_remove(to);
            left.lemma_remove(to);
            if self.spec_disjoint() {
                left.lemma_remove_keeps_apart(to);
            }
            if cleared.spec_is_valid_promotion(from, to) {
                let kind = match promotion {
                    Some(piece_type) => piece_type,
                    None => PieceType::Queen,
                };
                cleared.lemma_promotion_keeps(from, to, kind);
                if self.spec_disjoint() {
                    cleared.spec_remove(from).spec_spawn(kind, to).lemma_same_masks_apart(
                        self.spec_relocate(from, to, promotion),
                    );
                }
            } else {
                let opened = cleared.spec_with_en_passant(
                    cleared.spec_opened_en_passant(from, to),
                );
                opened.lemma_move_piece(from, to);
                if self.spec_disjoint() {
                    cleared.lemma_same_masks_apart(opened);
                    opened.lemma_move_keeps_apart(from, to);
                }
            }
        }
    }

    /// A move of a piece from one tile to another keeps masks apart, takes
    /// castling rights at most, leaves the winner alone, and passes the turn
    /// to the enemy of the colour that moved. A move that is refused changes
    /// nothing.
    pub proof fn lemma_perform_keeps(self, from: Tile, to: Tile, promotion: Option<PieceType>)
        requires
            from.wf(),
            to.wf(),
        ensures
            self.spec_perform(from, to, promotion).0.spec_castling_rights().spec_within(
                self.spec_castling_rights(),
            ),
            self.spec_disjoint() ==> self.spec_perform(from, to, promotion).0.spec_disjoint(),
            self.spec_perform(from, to, promotion).0.spec_winner() == self.spec_winner(),
            self.spec_perform(from, to, promotion).1 ==> self.spec_perform(
                from,
                to,
                promotion,
            ).0.spec_turn() == self.spec_piece(from)->0.spec_color().spec_enemy(),
            !self.spec_perform(from, to, promotion).1 ==> self.spec_perform(from, to, promotion).0
                == self,
    {
        if self.spec_is_legal_piece_move(from, to) {
            let color = self.spec_piece(from)->0.spec_color();
            let mine = self.spec_with_turn(color);
            if self.spec_disjoint() {
                self.lemma_same_masks_apart(mine);
            }
            let moved = if mine.spec_is_castling_move(from, to) {
                mine.spec_perform_castling(from, to).spec_with_en_passant(None)
            } else {
                mine.spec_relocate(from, to, promotion)
            };
            if mine.spec_is_castling_move(from, to) {
                mine.lemma_castling_keeps(from, to);
                if self.spec_disjoint() {
                    mine.spec_perform_castling(from, to).lemma_same_masks_apart(moved);
                }
            } else {
                mine.lemma_relocate_keeps(from, to, promotion);
            }
            if self.spec_disjoint() {
                moved.lemma_same_masks_apart(moved.spec_with_turn(color.spec_enemy()));
            }
        }
    }

    /// The first tile that holds an eligible piece is a tile of the board.
    pub proof fn lemma_eligible_on_board(self, piece_type: PieceType, to: Tile, n: int)
        requires
            0 <= n,
        ensures
            self.spec_eligible_from(piece_type, to, n) matches Some(from) ==> from.wf()
                && self.spec_is_eligible(piece_type, from, to),
        decreases 64 - n,
    {
        if n < 64 {
            Tile::lemma_nth(n);
            if !self.spec_is_eligible(piece_type, Tile::nth(n), to) {
                self.lemma_eligible_on_board(piece_type, to, n + 1);
            }
        }
    }
}

/// Whether every tile that a move names lies on the board.
pub open spec fn spec_on_board(player_move: MoveView) -> bool
    decreases player_move,
{
    match player_move {
        MoveView::FromTo { from, to, promotion } => from.wf() && to.wf(),
        MoveView::PieceTo { piece, to, promotion } => to.wf(),
        MoveView::Purchase { piece, to } => to.wf(),
        MoveView::Castling(side) => true,
        MoveView::Resign => true,
        MoveView::Pass => true,
        MoveView::Many(moves) => forall|i: int|
            0 <= i < moves.len() ==> spec_on_board(#[trigger] moves[i]),
    }
}

/// Whatever is played, castling rights are only ever lost, masks that were
/// apart stay apart, and a winner that was declared stays declared.
pub proof fn law_moves_keep_the_board_sound(board: Board, player_move: MoveView)
    requires
        spec_on_board(player_move),
    ensures
        board.spec_apply(player_move).0.spec_castling_rights().spec_within(
            board.spec_castling_rights(),
        ),
        board.spec_disjoint() ==> board.spec_apply(player_move).0.spec_disjoint(),
        board.spec_winner() is Some ==> board.spec_apply(player_move).0.spec_winner() is Some,
    decreases player_move, 0nat,
{
    match player_move {
        MoveView::FromTo { from, to, promotion } => {
            board.lemma_perform_keeps(from, to, promotion);
        },
        MoveView::PieceTo { piece, to, promotion } => {
            board.lemma_eligible_on_board(piece, to, 0);
            match board.spec_eligible_piece(piece, to) {
                Some(from) => {
                    board.lemma_perform_keeps(from, to, promotion);
                },
                None => {},
            }
        },
        MoveView::Castling(side) => {
            let king = Tile::spec_king_start(board.spec_turn());
            let rook = Tile::spec_rook_start(board.spec_turn(), side);
            board.lemma_perform_keeps(king, rook, None);
        },
        MoveView::Many(moves) => {
            if moves.len() > 0 {
                lemma_sequences_keep_the_board_sound(board, moves, board.spec_turn(), moves.len());
                if board.spec_disjoint() {
                    let played = board.spec_apply_all(moves, board.spec_turn(), moves.len()).0;
                    played.lemma_same_masks_apart(board.spec_apply(player_move).0);
                }
            }
        },
        MoveView::Resign => {
            if board.spec_disjoint() {
                board.lemma_same_masks_apart(board.spec_apply(player_move).0);
            }
        },
        MoveView::Pass => {
            if board.spec_disjoint() {
                board.lemma_same_masks_apart(board.spec_apply(player_move).0);
            }
        },
        MoveView::Purchase { piece, to } => {},
    }
}

/// Whatever part of a sequence is played, castling rights are only ever
/// lost, masks that were apart stay apart, and a winner that was declared
/// stays declared.
pub proof fn lemma_sequences_keep_the_board_sound(
    board: Board,
    moves: Seq<MoveView>,
    turn: Color,
    n: nat,
)
    requires
        forall|i: int| 0 <= i < moves.len() ==> spec_on_board(#[trigger] moves[i]),
    ensures
        board.spec_apply_all(moves, turn, n).0.spec_castling_rights().spec_within(
            board.spec_castling_rights(),
        ),
        board.spec_disjoint() ==> board.spec_apply_all(moves, turn, n).0.spec_disjoint(),
        board.spec_winner() is Some ==> board.spec_apply_all(moves, turn, n).0.spec_winner()
            is Some,
    decreases moves, n,
{
    if n == 0 || n > moves.len() {
    } else {
        lemma_sequences_keep_the_board_sound(board, moves, turn, (n - 1) as nat);
        let (played, ok) = board.spec_apply_all(moves, turn, (n - 1) as nat);
        if ok {
            let next = played.spec_with_turn(turn);
            if board.spec_disjoint() {
                played.lemma_same_masks_apart(next);
            }
            law_moves_keep_the_board_sound(next, moves[n - 1]);
            next.spec_apply(moves[n - 1]).0.spec_castling_rights().lemma_within_trans(
                played.spec_castling_rights(),
                board.spec_castling_rights(),
            );
        }
    }
}

/// A move that is played passes the turn: a pass, a resignation, a move that
/// names a kind and a destination and a sequence of moves pass it to the
/// enemy of the side that was to move; a move from tile to tile and a
/// castling pass it to the enemy of the colour of the piece that moves.
pub proof fn law_turn_passes(board: Board, player_move: MoveView)
    requires
        spec_on_board(player_move),
        board.spec_apply(player_move).1,
        !(player_move matches MoveView::Many(moves) && moves.len() == 0),
    ensures
        match player_move {
            MoveView::FromTo { from, to, promotion } => board.spec_apply(player_move).0.spec_turn()
                == board.spec_piece(from)->0.spec_color().spec_enemy(),
            MoveView::Castling(side) => board.spec_apply(player_move).0.spec_turn()
                == board.spec_piece(
                Tile::spec_king_start(board.spec_turn()),
            )->0.spec_color().spec_enemy(),
            _ => board.spec_apply(player_move).0.spec_turn() == board.spec_turn().spec_enemy(),
        },
{
    match player_move {
        MoveView::FromTo { from, to, promotion } => {
            board.lemma_perform_keeps(from, to, promotion);
        },
        MoveView::PieceTo { piece, to, promotion } => {
            board.lemma_eligible_on_board(piece, to, 0);
            let from = board.spec_eligible_piece(piece, to)->0;
            board.lemma_perform_keeps(from, to, promotion);
        },
        MoveView::Castling(side) => {
            let king = Tile::spec_king_start(board.spec_turn());
            let rook = Tile::spec_rook_start(board.spec_turn(), side);
            board.lemma_perform_keeps(king, rook, None);
        },
        _ => {},
    }
}

} // verus!
