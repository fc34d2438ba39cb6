//! Which moves of a piece are legal, and the end-of-game tests built on that.
use crate::bits::{group_bits, member};
use crate::board::Board;
use crate::piece::{Color, PieceType};
use crate::tile::Tile;
use crate::vision::{is_blocked, lemma_path};
use vstd::prelude::*;

verus! {

broadcast use group_bits;

impl Board {
    /// Whether a move from `from` to `to` encodes a castling that is still
    /// allowed: a king stands on `from`, and the castling rights take the two
    /// tiles for a castling.
    pub open spec fn spec_is_castling_move(self, from: Tile, to: Tile) -> bool {
        match self.spec_piece(from) {
            Some(piece) => piece.spec_type() == PieceType::King
                && self.spec_castling_rights().spec_is_castling_move(from, to),
            None => false,
        }
    }

    /// Whether a piece stands on `tile` or the colour attacks it.
    pub open spec fn spec_taken_or_attacked(self, by: Color, tile: Tile) -> bool {
        member(self.spec_all_bits(), tile.spec_pos()) || self.spec_attacks(by, tile)
    }

    /// Whether some tile strictly between `king` and `rook` holds a piece or
    /// is attacked by the enemy of `color`.
    pub open spec fn spec_castle_path_blocked(self, color: Color, king: Tile, rook: Tile) -> bool {
        exists|k: int|
            1 <= k < king.spec_distance(rook) && #[trigger] self.spec_taken_or_attacked(
                color.spec_enemy(),
                king.spec_path(rook, k),
            )
    }

    /// Whether the king on `king` may castle with the rook on `rook`: the
    /// castling rights still allow it, the colour on whose half of the board
    /// `king` lies is not in check, the tiles between the two hold no piece
    /// and are not attacked by the enemy, and the two tiles hold a king and a
    /// rook of one colour.
    pub open spec fn spec_can_castle(self, king: Tile, rook: Tile) -> bool {
        &&& self.spec_castling_rights().spec_is_castling_move(king, rook)
        &&& !self.spec_in_check(king.spec_player_side())
        &&& match (self.spec_piece(king), self.spec_piece(rook)) {
            (Some(king_piece), Some(rook_piece)) => {
                &&& !self.spec_castle_path_blocked(king_piece.spec_color(), king, rook)
                &&& king_piece.spec_type() == PieceType::King
                &&& rook_piece.spec_type() == PieceType::Rook
                &&& king_piece.spec_color() == rook_piece.spec_color()
            },
            _ => false,
        }
    }

    /// Whether the colour would be in check once the piece on `from` had gone
    /// to `to`.
    pub open spec fn spec_in_check_after_move(self, color: Color, from: Tile, to: Tile) -> bool {
        self.spec_move_piece(from, to).spec_in_check(color)
    }

    /// Whether moving whatever stands on `from` to `to` is legal.
    ///
    /// Without a piece on `from` it is not. Onto a piece of the mover's own
    /// colour it is legal only as a castling that may be played. Otherwise the
    /// mover must belong to the side to move; a castling encoding is then legal
    /// exactly if that castling may be played; any other move must fit the
    /// piece's kind (as a capture if `to` is taken), must not jump over a piece
    /// unless the mover is a knight, and must not leave the mover's side in
    /// check.
    pub open spec fn spec_is_legal_piece_move(self, from: Tile, to: Tile) -> bool {
        match self.spec_piece(from) {
            None => false,
            Some(mover) => {
                let target = self.spec_piece(to);
                if target is Some && target->0.spec_color() == mover.spec_color() {
                    self.spec_is_castling_move(from, to) && self.spec_can_castle(from, to)
                } else if mover.spec_color() != self.spec_turn() {
                    false
                } else if self.spec_is_castling_move(from, to) {
                    self.spec_can_castle(from, to)
                } else {
                    &&& mover.spec_can_move(from, to, target is Some, self.spec_en_passant())
                    &&& (mover.spec_type() == PieceType::Knight || !self.spec_path_blocked(
                        from,
                        to,
                    ))
                    &&& !self.spec_in_check_after_move(self.spec_turn(), from, to)
                }
            },
        }
    }

    /// Whether a pawn stands on `from` and `to` is the en-passant target.
    pub open spec fn spec_is_en_passant_capture(self, from: Tile, to: Tile) -> bool {
        self.spec_en_passant() == Some(to) && match self.spec_piece(from) {
            Some(piece) => piece.spec_type() == PieceType::Pawn,
            None => false,
        }
    }

    /// Whether a pawn stands on `from` and `to` lies on the far back rank for
    /// the pawn's colour.
    pub open spec fn spec_is_valid_promotion(self, from: Tile, to: Tile) -> bool {
        match self.spec_piece(from) {
            Some(piece) => piece.spec_type() == PieceType::Pawn && ((to.spec_rank() == 7
                && piece.spec_color() == Color::White) || (to.spec_rank() == 0
                && piece.spec_color() == Color::Black)),
            None => false,
        }
    }

    /// Whether the piece on `from` is of the given kind, belongs to the side
    /// to move, and is let by its kind to go to `to`.
    pub open spec fn spec_is_eligible(self, piece_type: PieceType, from: Tile, to: Tile) -> bool {
        match self.spec_piece(from) {
            Some(piece) => piece.spec_type() == piece_type && piece.spec_color()
                == self.spec_turn() && piece.spec_can_move(
                from,
                to,
                self.spec_piece(to) is Some,
                self.spec_en_passant(),
            ),
            None => false,
        }
    }

    /// The first tile numbered `n` or more that holds an eligible piece.
    pub open spec fn spec_eligible_from(self, piece_type: PieceType, to: Tile, n: int) -> Option<
        Tile,
    >
        decreases 64 - n,
    {
        if n >= 64 || n < 0 {
            None
        } else if self.spec_is_eligible(piece_type, Tile::nth(n), to) {
            Some(Tile::nth(n))
        } else {
            self.spec_eligible_from(piece_type, to, n + 1)
        }
    }

    /// The tile that a move naming only a kind and a destination starts from:
    /// the first tile in the order of the tile numbers that holds an eligible
    /// piece.
    pub open spec fn spec_eligible_piece(self, piece_type: PieceType, to: Tile) -> Option<Tile> {
        self.spec_eligible_from(piece_type, to, 0)
    }

    /// Whether a piece of the colour stands on `tile`.
    pub open spec fn spec_stands(self, color: Color, tile: Tile) -> bool {
        match self.spec_piece(tile) {
            Some(piece) => piece.spec_color() == color,
            None => false,
        }
    }

    /// Whether a piece of the colour stands on `from` and `to` is among the
    /// tiles it might try.
    pub open spec fn spec_is_candidate(self, color: Color, from: Tile, to: Tile) -> bool {
        from.wf() && match self.spec_piece(from) {
            Some(piece) => piece.spec_color() == color && from.spec_moves(piece).contains(to),
            None => false,
        }
    }

    /// Whether some piece of the colour has a legal move to one of the tiles
    /// it might try.
    pub open spec fn spec_can_move_any(self, color: Color) -> bool {
        exists|from: Tile, to: Tile| #[trigger]
            self.spec_is_candidate(color, from, to) && self.spec_is_legal_piece_move(from, to)
    }

    /// Whether the colour is checkmated: in check, with no legal move among
    /// the tiles its pieces might try.
    pub open spec fn spec_in_checkmate(self, color: Color) -> bool {
        self.spec_in_check(color) && !self.spec_can_move_any(color)
    }

    /// Whether the side to move is stalemated: not in check, with no legal
    /// move among the tiles its pieces might try.
    pub open spec fn spec_stalemate(self) -> bool {
        !self.spec_in_check(self.spec_turn()) && !self.spec_can_move_any(self.spec_turn())
    }

    /// Can the given king and rook castle? This will check for the legality of
    /// the move, and if the castling rights allow the move.
    pub fn can_castle(&self, king: Tile, rook: Tile) -> (r: bool)
        ensures
            r == self.spec_can_castle(king, rook),
    {
        proof {
            use_type_invariant(&king);
            use_type_invariant(&rook);
        }
        if !self.castling_rights.can_castle(king, rook) {
            return false;
        }
        if self.is_in_check(king.get_player_side()) {
            return false;
        }
        if let Some(king_piece) = self.get_piece(king) {
            let color = king_piece.get_color();
            let all = self.all_pieces_as_bits();
            let attacked = self.get_attacking_bits(color.enemy());
            let blocked = is_blocked(all | attacked, king, rook);
            proof {
                let enemy = color.spec_enemy();
                if blocked {
                    let k = choose|k: int|
                        1 <= k < king.spec_distance(rook) && #[trigger] member(
                            all | attacked,
                            king.spec_path(rook, k).spec_pos(),
                        );
                    let tile = king.spec_path(rook, k);
                    lemma_path(king, rook, k);
                    tile.lemma_index();
                    assert(self.spec_taken_or_attacked(enemy, tile));
                }
                if self.spec_castle_path_blocked(color, king, rook) {
                    let k = choose|k: int|
                        1 <= k < king.spec_distance(rook) && #[trigger] self.spec_taken_or_attacked(
                            enemy,
                            king.spec_path(rook, k),
                        );
                    let tile = king.spec_path(rook, k);
                    lemma_path(king, rook, k);
                    tile.lemma_index();
                    assert(member(all | attacked, tile.spec_pos()));
                }
            }
            if blocked {
                return false;
            }
            if let Some(rook_piece) = self.get_piece(rook) {
                if king_piece.get_type() == PieceType::King && rook_piece.get_type()
                    == PieceType::Rook && king_piece.get_color() == rook_piece.get_color() {
                    return true;
                }
            }
        }
        false
    }

    /// Is this move a castling?
    pub fn is_castling_move(&self, from: Tile, to: Tile) -> (r: bool)
        ensures
            r == self.spec_is_castling_move(from, to),
    {
        if let Some(src_piece) = self.get_piece(from) {
            if src_piece.get_type() == PieceType::King {
                return self.get_castling_rights().is_castling_move(from, to);
            }
        }
        false
    }

    /// Would the player be in check after moving a piece from one tile to
    /// another?
    pub fn is_in_check_after_move(&self, color: Color, from: Tile, to: Tile) -> (r: bool)
        ensures
            r == self.spec_in_check_after_move(color, from, to),
    {
        let mut copy = *self;
        copy.move_piece(from, to);
        copy.is_in_check(color)
    }

    /// Is a piece move legal? Castling is encoded by passing the king's tile
    /// as the `from` tile, and the rook's tile as the `to` tile.
    pub fn is_legal_piece_move(&self, from: Tile, to: Tile) -> (r: bool)
        ensures
            r == self.spec_is_legal_piece_move(from, to),
    {
        let src_piece = match self.get_piece(from) {
            Some(piece) => piece,
            None => {
                return false;
            },
        };
        let dst_piece = self.get_piece(to);
        let is_attack = match dst_piece {
            Some(dst_piece) => {
                if src_piece.get_color() == dst_piece.get_color() {
                    return self.is_castling_move(from, to) && self.can_castle(from, to);
                }
                true
            },
            None => false,
        };
        if src_piece.get_color() != self.current_turn {
            return false;
        }
        if self.is_castling_move(from, to) {
            return self.can_castle(from, to);
        }
        if !src_piece.can_move(from, to, is_attack, self.en_passant) {
            return false;
        }
        if src_piece.get_type() != PieceType::Knight && self.is_blocked(from, to) {
            return false;
        }
        if self.is_in_check_after_move(self.current_turn, from, to) {
            return false;
        }
        true
    }

    /// Is this a pawn capturing to the en passant tile?
    pub fn is_en_passant_capture(&self, from: Tile, to: Tile) -> (r: bool)
        ensures
            r == self.spec_is_en_passant_capture(from, to),
    {
        if let Some(en_passant) = self.en_passant {
            if en_passant == to {
                if let Some(piece) = self.get_piece(from) {
                    if piece.get_type() == PieceType::Pawn {
                        return true;
                    }
                }
            }
        }
        false
    }

    /// Is the move from one tile to another a valid promotion? This will
    /// return true if the move is a pawn moving to the last rank of either
    /// player.
    pub fn is_valid_promotion(&self, from: Tile, to: Tile) -> (r: bool)
        ensures
            r == self.spec_is_valid_promotion(from, to),
    {
        if let Some(piece) = self.get_piece(from) {
            if piece.get_type() == PieceType::Pawn {
                if to.get_rank().get_index() == 7 && piece.get_color() == Color::White {
                    return true;
                }
                if to.get_rank().get_index() == 0 && piece.get_color() == Color::Black {
                    return true;
                }
            }
        }
        false
    }

    /// Given a move of a piece type and a destination tile, return the first
    /// tile, in the order of the tile numbers, that holds a piece of that kind
    /// and of the side to move whose kind lets it go to the destination.
    /// Return `None` if no piece can move to the destination tile.
    pub fn get_eligible_piece(&self, piece: PieceType, to: Tile) -> (r: Option<Tile>)
        ensures
            r == self.spec_eligible_piece(piece, to),
            r matches Some(from) ==> self.spec_is_eligible(piece, from, to) && forall|j: int|
                0 <= j < from.spec_index() ==> !self.spec_is_eligible(piece, Tile::nth(j), to),
            r is None ==> forall|j: int| 0 <= j < 64 ==> !self.spec_is_eligible(
                piece,
                Tile::nth(j),
                to,
            ),
    {
        let is_attack = self.has_piece_on(to);
        let mut n: u8 = 0;
        while n < 64
            invariant
                n <= 64,
                is_attack == self.spec_piece(to) is Some,
                self.spec_eligible_from(piece, to, n as int) == self.spec_eligible_piece(piece, to),
                forall|j: int| 0 <= j < n ==> !self.spec_is_eligible(piece, Tile::nth(j), to),
            decreases 64 - n,
        {
            let tile = Tile::from_nth(n);
            if let Some(src_piece) = self.get_piece(tile) {
                if src_piece.get_type() == piece && src_piece.get_color() == self.current_turn {
                    if src_piece.can_move(tile, to, is_attack, self.en_passant) {
                        return Some(tile);
                    }
                }
            }
            n = n + 1;
        }
        None
    }

    /// Whether some piece of the colour has a legal move among the tiles it
    /// might try.
    pub fn can_move_any(&self, color: Color) -> (r: bool)
        ensures
            r == self.spec_can_move_any(color),
    {
        let mut n: u8 = 0;
        while n < 64
            invariant
                n <= 64,
                forall|from: Tile, to: Tile|
                    from.spec_index() < n && #[trigger] self.spec_is_candidate(color, from, to)
                        ==> !self.spec_is_legal_piece_move(from, to),
            decreases 64 - n,
        {
            let tile = Tile::from_nth(n);
            proof {
                Tile::lemma_nth(n as int);
            }
            if let Some(piece) = self.get_piece(tile) {
                if piece.get_color() == color {
                    let moves = tile.get_moves(piece);
                    let mut j: usize = 0;
                    while j < moves.len()
                        invariant
                            j <= moves@.len(),
                            tile.wf(),
                            moves@ == tile.spec_moves(piece),
                            self.spec_piece(tile) == Some(piece),
                            piece.spec_color() == color,
                            forall|k: int|
                                0 <= k < j ==> !self.spec_is_legal_piece_move(tile, moves@[k]),
                        decreases moves@.len() - j,
                    {
                        let to = moves[j];
                        if self.is_legal_piece_move(tile, to) {
                            proof {
                                assert(tile.spec_moves(piece).contains(to));
                                assert(self.spec_is_candidate(color, tile, to));
                            }
                            return true;
                        }
                        j = j + 1;
                    }
                }
            }
            proof {
                assert forall|from: Tile, to: Tile|
                    from.spec_index() < n + 1 && #[trigger] self.spec_is_candidate(
                        color,
                        from,
                        to,
                    ) implies !self.spec_is_legal_piece_move(from, to) by {
                    from.lemma_index();
                    if from.spec_index() == n {
                        assert(from == tile);
                    }
                }
            }
            n = n + 1;
        }
        proof {
            assert forall|from: Tile, to: Tile| #[trigger]
                self.spec_is_candidate(color, from, to) implies !self.spec_is_legal_piece_move(
                from,
                to,
            ) by {
                from.lemma_index();
            }
        }
        false
    }

    /// Is the player in checkmate?
    pub fn is_in_checkmate(&self, color: Color) -> (r: bool)
        ensures
            r == self.spec_in_checkmate(color),
            r ==> self.spec_in_check(color),
    {
        if !self.is_in_check(color) {
            return false;
        }
        !self.can_move_any(color)
    }

    /// Is the board in a state of stalemate?
    pub fn is_stalemate(&self) -> (r: bool)
        ensures
            r == self.spec_stalemate(),
            r ==> !self.spec_in_check(self.spec_turn()),
    {
        if self.is_in_check(self.current_turn) {
            return false;
        }
        !self.can_move_any(self.current_turn)
    }
}

} // verus!
