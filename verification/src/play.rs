//! Playing moves on a board.
//!
//! A single move is checked before anything is changed, so a move that is
//! refused leaves the board as it was. A sequence of moves is played one by
//! one: when one of them is refused, the moves before it stay played.
use crate::bits::group_bits;
use crate::board::Board;
use crate::castling::CastlingRights;
use crate::moves::{lemma_views, spec_views, Move, MoveView};
use crate::piece::{CastlingSide, Color, PieceType};
use crate::tile::Tile;
use vstd::prelude::*;

verus! {

broadcast use group_bits;

impl Board {
    /// The castling rights that are left once a piece has gone from `from` to
    /// `to`: a castling takes both rights of the side to move; any other move
    /// takes the rights that go with the tile that is left and with the tile
    /// that is landed on, which are the right of a rook's corner and both
    /// rights of a king's home square.
    pub open spec fn spec_rights_after(self, from: Tile, to: Tile) -> CastlingRights {
        let rights = self.spec_castling_rights();
        if self.spec_is_castling_move(from, to) {
            rights.spec_without_color(self.spec_turn())
        } else {
            rights.spec_without_tile(from).spec_without_tile(to)
        }
    }

    /// The en-passant target that a move from `from` to `to` opens: the tile
    /// one step ahead of `from`, if a pawn leaves a pawn starting rank for the
    /// rank two steps ahead of one; none otherwise.
    pub open spec fn spec_opened_en_passant(self, from: Tile, to: Tile) -> Option<Tile> {
        match self.spec_piece(from) {
            Some(piece) => if piece.spec_type() == PieceType::Pawn && (from.spec_rank() == 1
                || from.spec_rank() == 6) && (to.spec_rank() == 3 || to.spec_rank() == 4) {
                Some(from.spec_offset(self.spec_turn().spec_direction(), 0))
            } else {
                None
            },
            None => None,
        }
    }

    /// This board after the pawn on `from` has captured in passing on
    /// `target`: the tile one step behind `target`, seen from the side to
    /// move, is cleared, the pawn goes to `target`, and the en-passant target
    /// is gone.
    pub open spec fn spec_capture_en_passant(self, from: Tile, target: Tile) -> Board {
        let back = -self.spec_turn().spec_direction();
        let cleared = if target.spec_offset_in_board(back, 0) {
            self.spec_remove(target.spec_offset(back, 0))
        } else {
            self
        };
        cleared.spec_move_piece(from, target).spec_with_en_passant(None)
    }

    /// This board after the castling that `king` and `rook` encode: the side
    /// to move loses both castling rights, its king goes to the castling
    /// destination on the side of `rook`, and whatever stands on `rook` goes
    /// to the tile beside it. Nothing changes where the two tiles encode no
    /// castling.
    pub open spec fn spec_perform_castling(self, king: Tile, rook: Tile) -> Board {
        if !self.spec_is_castling_move(king, rook) {
            self
        } else {
            let color = self.spec_turn();
            let side = rook.spec_castling_side();
            self.spec_with_castling_rights(
                self.spec_castling_rights().spec_without_color(color),
            ).spec_move_piece(king, Tile::spec_king_castled(color, side)).spec_move_piece(
                rook,
                Tile::spec_rook_castled(color, side),
            )
        }
    }

    /// This board after the piece on `from` has gone to `to` by a move that
    /// is no castling, before the turn passes: a capture in passing, a
    /// promotion (to a queen where no kind is named), or a plain relocation
    /// that may open an en-passant target.
    pub open spec fn spec_relocate(
        self,
        from: Tile,
        to: Tile,
        promotion: Option<PieceType>,
    ) -> Board {
        let left = self.spec_with_castling_rights(self.spec_rights_after(from, to));
        if left.spec_is_en_passant_capture(from, to) {
            left.spec_capture_en_passant(from, to)
        } else {
            let cleared = left.spec_remove(to);
            if cleared.spec_is_valid_promotion(from, to) {
                cleared.spec_remove(from).spec_spawn(
                    match promotion {
                        Some(piece_type) => piece_type,
                        None => PieceType::Queen,
                    },
                    to,
                ).spec_with_en_passant(None)
            } else {
                cleared.spec_with_en_passant(
                    cleared.spec_opened_en_passant(from, to),
                ).spec_move_piece(from, to)
            }
        }
    }

    /// The board after an attempt to move the piece on `from` to `to`, and
    /// whether the move was played. An illegal move changes nothing. A legal
    /// one is played for the colour of the piece that moves, and the turn
    /// passes to the other colour.
    pub open spec fn spec_perform(self, from: Tile, to: Tile, promotion: Option<PieceType>) -> (
        Board,
        bool,
    ) {
        if !self.spec_is_legal_piece_move(from, to) {
            (self, false)
        } else {
            let color = self.spec_piece(from)->0.spec_color();
            let mine = self.spec_with_turn(color);
            let moved = if mine.spec_is_castling_move(from, to) {
                mine.spec_perform_castling(from, to).spec_with_en_passant(None)
            } else {
                mine.spec_relocate(from, to, promotion)
            };
            (moved.spec_with_turn(color.spec_enemy()), true)
        }
    }

    /// The board after an attempt to play a move, and whether it was played.
    ///
    /// A move that names a kind and a destination starts from the first
    /// eligible tile and fails without one. Castling is refused unless the
    /// king of the side to move may castle with the rook of that side, and is
    /// then the move of that king from its home square onto the rook's corner.
    /// Resigning declares the other colour the winner; passing only passes
    /// the turn; both clear the en-passant target. A purchase is refused. An
    /// empty sequence changes nothing; any other sequence plays its moves in
    /// order for the colour that was to move, stops at the first that fails,
    /// and passes the turn once all are played.
    pub open spec fn spec_apply(self, player_move: MoveView) -> (Board, bool)
        decreases player_move, 0nat,
    {
        match player_move {
            MoveView::FromTo { from, to, promotion } => self.spec_perform(from, to, promotion),
            MoveView::PieceTo { piece, to, promotion } => match self.spec_eligible_piece(piece, to) {
                Some(from) => self.spec_perform(from, to, promotion),
                None => (self, false),
            },
            MoveView::Castling(side) => {
                let king = Tile::spec_king_start(self.spec_turn());
                let rook = Tile::spec_rook_start(self.spec_turn(), side);
                if self.spec_can_castle(king, rook) {
                    self.spec_perform(king, rook, None)
                } else {
                    (self, false)
                }
            },
            MoveView::Many(moves) => if moves.len() == 0 {
                (self, true)
            } else {
                let (played, ok) = self.spec_apply_all(moves, self.spec_turn(), moves.len());
                if ok {
                    (played.spec_with_turn(self.spec_turn().spec_enemy()), true)
                } else {
                    (played, false)
                }
            },
            MoveView::Resign => (
                self.spec_with_winner(Some(self.spec_turn().spec_enemy())).spec_with_en_passant(
                    None,
                ).spec_with_turn(self.spec_turn().spec_enemy()),
                true,
            ),
            MoveView::Pass => (
                self.spec_with_en_passant(None).spec_with_turn(self.spec_turn().spec_enemy()),
                true,
            ),
            MoveView::Purchase { piece, to } => (self, false),
        }
    }

    /// The board after the first `n` moves of a sequence have been tried in
    /// order, each with `turn` to move, and whether all of them were played.
    /// Nothing is tried after the first move that fails.
    pub open spec fn spec_apply_all(self, moves: Seq<MoveView>, turn: Color, n: nat) -> (
        Board,
        bool,
    )
        decreases moves, n,
    {
        if n == 0 || n > moves.len() {
            (self, true)
        } else {
            let (played, ok) = self.spec_apply_all(moves, turn, (n - 1) as nat);
            if ok {
                played.spec_with_turn(turn).spec_apply(moves[n - 1])
            } else {
                (played, false)
            }
        }
    }

    /// Whether a move may be played.
    ///
    /// A move from tile to tile is legal as a piece move. A move that names a
    /// kind and a destination is legal if it has an eligible tile to start
    /// from and is legal from there. Castling is legal if the king of the
    /// side to move may castle with the rook of that side. Resigning is always
    /// legal; passing and purchases never are. A sequence is legal if it is
    /// not empty and each of its moves, tried in order with the same colour to
    /// move, is legal and can be played on the board that the moves before it
    /// have left.
    pub open spec fn spec_is_legal_move(self, player_move: MoveView) -> bool
        decreases player_move, 0nat,
    {
        match player_move {
            MoveView::Castling(side) => self.spec_can_castle(
                Tile::spec_king_start(self.spec_turn()),
                Tile::spec_rook_start(self.spec_turn(), side),
            ),
            MoveView::FromTo { from, to, promotion } => self.spec_is_legal_piece_move(from, to),
            MoveView::PieceTo { piece, to, promotion } => match self.spec_eligible_piece(piece, to) {
                Some(from) => self.spec_is_legal_piece_move(from, to),
                None => false,
            },
            MoveView::Pass => false,
            MoveView::Resign => true,
            MoveView::Many(moves) => moves.len() > 0 && self.spec_legal_all(
                moves,
                self.spec_turn(),
                moves.len(),
            ).1,
            MoveView::Purchase { piece, to } => false,
        }
    }

    /// The board after the first `n` moves of a sequence have been checked
    /// and played in order, each with `turn` to move, and whether all of them
    /// were legal and were played.
    pub open spec fn spec_legal_all(self, moves: Seq<MoveView>, turn: Color, n: nat) -> (
        Board,
        bool,
    )
        decreases moves, n,
    {
        if n == 0 || n > moves.len() {
            (self, true)
        } else {
            let (played, ok) = self.spec_legal_all(moves, turn, (n - 1) as nat);
            if !ok {
                (played, false)
            } else {
                played.spec_try(moves[n - 1], turn)
            }
        }
    }

    /// The board after a move has been checked with `turn` to move and, if
    /// legal, played, and whether it was legal and was played.
    pub open spec fn spec_try(self, player_move: MoveView, turn: Color) -> (Board, bool)
        decreases player_move, 1nat,
    {
        let next = self.spec_with_turn(turn);
        if !next.spec_is_legal_move(player_move) {
            (next, false)
        } else {
            next.spec_apply(player_move)
        }
    }

    /// Mark a given player as the winner.
    pub(crate) fn set_winner(&mut self, winner: Color)
        ensures
            *final(self) == old(self).spec_with_winner(Some(winner)),
    {
        self.winner = Some(winner);
    }

    /// Perform an en passant capture onto `target` using the pawn at `from`.
    /// This abstracts the need to know what the attacked pawn's tile is.
    pub(crate) fn capture_en_passant(&mut self, from: Tile, target: Tile)
        ensures
            *final(self) == old(self).spec_capture_en_passant(from, target),
    {
        let back: i8 = match self.current_turn {
            Color::White => -1,
            Color::Black => 1,
        };
        if let Some(en_passant_pawn) = target.move_by(back, 0) {
            self.remove_piece(en_passant_pawn);
        }
        self.move_piece(from, target);
        self.en_passant = None;
    }

    /// Sets the en-passant target that a move from `from` to `to` opens, or
    /// clears it.
    pub(crate) fn detect_possible_en_passant(&mut self, from: Tile, to: Tile)
        ensures
            *final(self) == old(self).spec_with_en_passant(
                old(self).spec_opened_en_passant(from, to),
            ),
    {
        proof {
            use_type_invariant(&from);
        }
        self.en_passant = None;
        if let Some(piece) = self.get_piece(from) {
            if piece.get_type() == PieceType::Pawn {
                let from_rank = from.get_rank().get_index();
                let to_rank = to.get_rank().get_index();
                if from_rank == 1 || from_rank == 6 {
                    if to_rank == 3 || to_rank == 4 {
                        self.en_passant = from.move_by(self.current_turn.direction(), 0);
                        return ;
                    }
                }
            }
        }
    }

    /// Perform castling with a given king and rook tile. This will move the
    /// king to the proper, predefined square for the king after castling, and
    /// it will move the rook to the square on the opposite side of the king.
    pub(crate) fn perform_castling(&mut self, king_tile: Tile, rook_tile: Tile)
        ensures
            *final(self) == old(self).spec_perform_castling(king_tile, rook_tile),
    {
        if !self.is_castling_move(king_tile, rook_tile) {
            return ;
        }
        self.castling_rights.disable_castling_color(self.current_turn);
        let side = rook_tile.get_castling_side();
        let new_king_tile = Tile::castling_destination_for_king(self.current_turn, side);
        self.move_piece(king_tile, new_king_tile);
        let new_rook_tile = Tile::castling_destination_for_rook(self.current_turn, side);
        self.move_piece(rook_tile, new_rook_tile);
    }

    /// Given a piece move from one tile to another, detect if the move
    /// disables any castling rights.
    pub(crate) fn detect_disabled_castling_rights(&mut self, from: Tile, to: Tile)
        ensures
            *final(self) == old(self).spec_with_castling_rights(
                old(self).spec_rights_after(from, to),
            ),
            final(self).spec_castling_rights().spec_within(old(self).spec_castling_rights()),
    {
        if self.is_castling_move(from, to) {
            let color = self.current_turn;
            self.castling_rights.disable_castling_color(color);
            return ;
        }
        self.castling_rights.disable_castling_tile(from);
        self.castling_rights.disable_castling_tile(to);
        proof {
            final(self).spec_castling_rights().lemma_within_trans(
                old(self).spec_castling_rights().spec_without_tile(from),
                old(self).spec_castling_rights(),
            );
        }
    }

    /// Perform a move from one tile to another. This is the function to use
    /// to move pieces on the board: it will perform the validation and the
    /// move, and change the state accordingly.
    pub(crate) fn perform_move_from_to(
        &mut self,
        from: Tile,
        to: Tile,
        promotion: Option<PieceType>,
    ) -> (r: Result<(), ()>)
        ensures
            (*final(self), r is Ok) == old(self).spec_perform(from, to, promotion),
    {
        if !self.is_legal_piece_move(from, to) {
            return Err(());
        }
        let mover = match self.get_piece(from) {
            Some(piece) => piece,
            None => {
                return Err(());
            },
        };
        self.current_turn = mover.get_color();
        if self.is_castling_move(from, to) {
            self.perform_castling(from, to);
            self.en_passant = None;
            self.current_turn = self.current_turn.enemy();
            return Ok(());
        }
        self.detect_disabled_castling_rights(from, to);
        if self.is_en_passant_capture(from, to) {
            self.capture_en_passant(from, to);
        } else {
            self.remove_piece(to);
            if self.is_valid_promotion(from, to) {
                let promotion = match promotion {
                    Some(piece_type) => piece_type,
                    None => PieceType::Queen,
                };
                self.remove_piece(from);
                self.spawn(promotion, to);
                self.en_passant = None;
            } else {
                self.detect_possible_en_passant(from, to);
                self.move_piece(from, to);
            }
        }
        self.current_turn = self.current_turn.enemy();
        Ok(())
    }

    /// Perform a move on the board.
    pub fn apply(&mut self, player_move: Move) -> (r: Result<(), ()>)
        ensures
            (*final(self), r is Ok) == old(self).spec_apply(player_move@),
            r is Err && !(player_move@ is Many) ==> *final(self) == *old(self),
    {
        self.apply_ref(&player_move)
    }

    /// Perform a move on the board, without taking the move.
    pub fn apply_ref(&mut self, player_move: &Move) -> (r: Result<(), ()>)
        ensures
            (*final(self), r is Ok) == old(self).spec_apply(player_move@),
            r is Err && !(player_move@ is Many) ==> *final(self) == *old(self),
        decreases player_move,
    {
        match player_move {
            Move::FromTo { from, to, promotion } => self.perform_move_from_to(
                *from,
                *to,
                *promotion,
            ),
            Move::PieceTo { piece, to, promotion } => match self.get_eligible_piece(*piece, *to) {
                Some(from) => self.perform_move_from_to(from, *to, *promotion),
                None => Err(()),
            },
            Move::Castling(side) => {
                let king = Tile::king_start_position(self.current_turn);
                let rook = Tile::rook_start_position(self.current_turn, *side);
                if !self.can_castle(king, rook) {
                    return Err(());
                }
                self.perform_move_from_to(king, rook, None)
            },
            Move::Many(moves) => {
                if moves.len() == 0 {
                    return Ok(());
                }
                let turn = self.current_turn;
                let ghost views = spec_views(moves@, moves@.len());
                proof {
                    lemma_views(moves@, moves@.len());
                }
                let mut i: usize = 0;
                while i < moves.len()
                    invariant
                        i <= moves@.len(),
                        *player_move == Move::Many(*moves),
                        views == spec_views(moves@, moves@.len()),
                        views.len() == moves@.len(),
                        forall|j: int| 0 <= j < views.len() ==> #[trigger] views[j] == moves@[j]@,
                        turn == old(self).spec_turn(),
                        (*self, true) == old(self).spec_apply_all(views, turn, i as nat),
                    decreases moves@.len() - i,
                {
                    proof {
                        assert(player_move->Many_0 == *moves);
                        assert(decreases_to!(*player_move => player_move->Many_0));
                        assert(decreases_to!(*moves => moves@));
                        assert(decreases_to!(moves@ => moves@[i as int]));
                        assert(decreases_to!(*player_move => moves@[i as int]));
                    }
                    self.current_turn = turn;
                    match self.apply_ref(&moves[i]) {
                        Ok(()) => {},
                        Err(()) => {
                            proof {
                                old(self).lemma_apply_all_failed(
                                    views,
                                    turn,
                                    (i + 1) as nat,
                                    views.len(),
                                );
                            }
                            return Err(());
                        },
                    }
                    i = i + 1;
                }
                self.current_turn = turn.enemy();
                Ok(())
            },
            Move::Resign => {
                self.set_winner(self.current_turn.enemy());
                self.en_passant = None;
                self.current_turn = self.current_turn.enemy();
                Ok(())
            },
            Move::Pass => {
                self.en_passant = None;
                self.current_turn = self.current_turn.enemy();
                Ok(())
            },
            Move::Purchase { piece, to } => Err(()),
        }
    }

    /// Once a move of a sequence has failed, trying more of the sequence
    /// changes nothing.
    pub proof fn lemma_apply_all_failed(self, moves: Seq<MoveView>, turn: Color, n: nat, m: nat)
        requires
            n <= m <= moves.len(),
            !self.spec_apply_all(moves, turn, n).1,
        ensures
            self.spec_apply_all(moves, turn, m) == self.spec_apply_all(moves, turn, n),
        decreases m,
    {
        if m > n {
            self.lemma_apply_all_failed(moves, turn, n, (m - 1) as nat);
        }
    }

    /// Once a move of a sequence has been found illegal or has failed,
    /// checking more of the sequence changes nothing.
    pub proof fn lemma_legal_all_failed(self, moves: Seq<MoveView>, turn: Color, n: nat, m: nat)
        requires
            n <= m <= moves.len(),
            !self.spec_legal_all(moves, turn, n).1,
        ensures
            self.spec_legal_all(moves, turn, m) == self.spec_legal_all(moves, turn, n),
        decreases m,
    {
        if m > n {
            self.lemma_legal_all_failed(moves, turn, n, (m - 1) as nat);
        }
    }

    /// Is a move legal? This will return if the move can be played.
    pub fn is_legal_move(&self, player_move: &Move) -> (r: bool)
        ensures
            r == self.spec_is_legal_move(player_move@),
        decreases player_move, 0nat,
    {
        match player_move {
            Move::Castling(side) => {
                let king = Tile::king_start_position(self.current_turn);
                let rook = Tile::rook_start_position(self.current_turn, *side);
                self.can_castle(king, rook)
            },
            Move::FromTo { from, to, promotion } => self.is_legal_piece_move(*from, *to),
            Move::PieceTo { piece, to, promotion } => match self.get_eligible_piece(*piece, *to) {
                Some(from) => self.is_legal_piece_move(from, *to),
                None => false,
            },
            Move::Pass => false,
            Move::Resign => true,
            Move::Many(moves) => {
                if moves.len() == 0 {
                    return false;
                }
                let turn = self.current_turn;
                let ghost views = spec_views(moves@, moves@.len());
                proof {
                    lemma_views(moves@, moves@.len());
                }
                let mut copy = *self;
                let mut i: usize = 0;
                while i < moves.len()
                    invariant
                        i <= moves@.len(),
                        *player_move == Move::Many(*moves),
                        turn == self.spec_turn(),
                        views == spec_views(moves@, moves@.len()),
                        views.len() == moves@.len(),
                        forall|j: int| 0 <= j < views.len() ==> #[trigger] views[j] == moves@[j]@,
                        (copy, true) == self.spec_legal_all(views, turn, i as nat),
                    decreases moves@.len() - i,
                {
                    proof {
                        assert(player_move->Many_0 == *moves);
                        assert(decreases_to!(*player_move => player_move->Many_0));
                        assert(decreases_to!(*moves => moves@));
                        assert(decreases_to!(moves@ => moves@[i as int]));
                        assert(decreases_to!(*player_move => moves@[i as int]));
                    }
                    if !copy.try_move(&moves[i], turn) {
                        proof {
                            self.lemma_legal_all_failed(
                                views,
                                turn,
                                (i + 1) as nat,
                                views.len(),
                            );
                        }
                        return false;
                    }
                    i = i + 1;
                }
                true
            },
            Move::Purchase { piece, to } => false,
        }
    }

    /// Checks a move with `turn` to move and plays it if it is legal; says
    /// whether it was legal and was played.
    pub fn try_move(&mut self, player_move: &Move, turn: Color) -> (r: bool)
        ensures
            (*final(self), r) == old(self).spec_try(player_move@, turn),
        decreases player_move, 1nat,
    {
        self.current_turn = turn;
        if !self.is_legal_move(player_move) {
            return false;
        }
        self.apply_ref(player_move).is_ok()
    }
}

} // verus!
