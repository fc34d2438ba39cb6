//! Move generation: every legal move of the side to move, in a fixed order.
//!
//! The order is part of the contract. Tiles are walked in the order of their
//! numbers; for each piece of the side to move, the tiles it might try are
//! walked in the order of [`Tile::spec_moves`]; a promotion is listed once for
//! each kind in the order knight, bishop, rook, queen; castling to the king
//! side and to the queen side come last.
use crate::board::Board;
use crate::moves::{lemma_views, spec_views, Move, MoveView};
use crate::piece::{CastlingSide, PieceType};
use crate::tile::Tile;
use vstd::prelude::*;

verus! {

/// The models of a list of moves.
pub open spec fn spec_list_view(moves: Seq<Move>) -> Seq<MoveView> {
    spec_views(moves, moves.len())
}

/// The model of a list that grows by one move grows by the model of that
/// move.
pub proof fn lemma_list_view_push(moves: Seq<Move>, last: Move)
    ensures
        spec_list_view(moves.push(last)) == spec_list_view(moves).push(last@),
{
    let longer = moves.push(last);
    lemma_views(moves, moves.len());
    lemma_views(longer, longer.len());
    assert(spec_list_view(longer) =~= spec_list_view(moves).push(last@));
}

impl Board {
    /// The moves that one tile a piece might try adds to the list: none if
    /// the move is illegal, one for each promotion kind if it is a promotion,
    /// and the plain move otherwise.
    pub open spec fn spec_moves_to(self, from: Tile, to: Tile) -> Seq<MoveView> {
        if !self.spec_is_legal_piece_move(from, to) {
            Seq::empty()
        } else if self.spec_is_valid_promotion(from, to) {
            seq![
                MoveView::FromTo { from, to, promotion: Some(PieceType::Knight) },
                MoveView::FromTo { from, to, promotion: Some(PieceType::Bishop) },
                MoveView::FromTo { from, to, promotion: Some(PieceType::Rook) },
                MoveView::FromTo { from, to, promotion: Some(PieceType::Queen) },
            ]
        } else {
            seq![MoveView::FromTo { from, to, promotion: None }]
        }
    }

    /// The moves that the first `n` of the given tiles add to the list.
    pub open spec fn spec_moves_among(self, from: Tile, targets: Seq<Tile>, n: nat) -> Seq<
        MoveView,
    >
        decreases n,
    {
        if n == 0 || n > targets.len() {
            Seq::empty()
        } else {
            self.spec_moves_among(from, targets, (n - 1) as nat) + self.spec_moves_to(
                from,
                targets[n - 1],
            )
        }
    }

    /// The legal moves of the piece on `from`, if it belongs to the side to
    /// move.
    pub open spec fn spec_moves_from(self, from: Tile) -> Seq<MoveView> {
        match self.spec_piece(from) {
            Some(piece) => if piece.spec_color() == self.spec_turn() {
                self.spec_moves_among(from, from.spec_moves(piece), from.spec_moves(piece).len())
            } else {
                Seq::empty()
            },
            None => Seq::empty(),
        }
    }

    /// The legal moves of the pieces on the tiles numbered under `n`.
    pub open spec fn spec_piece_moves(self, n: nat) -> Seq<MoveView>
        decreases n,
    {
        if n == 0 {
            Seq::empty()
        } else {
            self.spec_piece_moves((n - 1) as nat) + self.spec_moves_from(Tile::nth(n - 1))
        }
    }

    /// The castlings that the side to move may play, king side first.
    pub open spec fn spec_castling_moves(self) -> Seq<MoveView> {
        let king = Tile::spec_king_start(self.spec_turn());
        (if self.spec_can_castle(king, Tile::spec_rook_start(self.spec_turn(), CastlingSide::King)) {
            seq![MoveView::Castling(CastlingSide::King)]
        } else {
            Seq::empty()
        }) + (if self.spec_can_castle(
            king,
            Tile::spec_rook_start(self.spec_turn(), CastlingSide::Queen),
        ) {
            seq![MoveView::Castling(CastlingSide::Queen)]
        } else {
            Seq::empty()
        })
    }

    /// All the legal moves of the side to move, in order.
    pub open spec fn spec_legal_moves(self) -> Seq<MoveView> {
        self.spec_piece_moves(64) + self.spec_castling_moves()
    }
}

/// Appends a move to a list.
fn push_move(list: &mut Vec<Move>, next: Move)
    ensures
        spec_list_view(final(list)@) == spec_list_view(old(list)@).push(next@),
{
    proof {
        lemma_list_view_push(list@, next);
    }
    list.push(next);
}

impl Move {
    /// Generate all the legal moves for the side to move on the board.
    pub fn legal_moves(board: &Board) -> (r: Vec<Move>)
        ensures
            spec_list_view(r@) == board.spec_legal_moves(),
    {
        let mut result: Vec<Move> = Vec::new();
        let turn = board.whose_turn();
        assert(spec_list_view(result@) =~= Seq::empty());
        let mut n: u8 = 0;
        while n < 64
            invariant
                n <= 64,
                turn == board.spec_turn(),
                spec_list_view(result@) == board.spec_piece_moves(n as nat),
            decreases 64 - n,
        {
            let tile = Tile::from_nth(n);
            let ghost before = spec_list_view(result@);
            if let Some(piece) = board.get_piece(tile) {
                if piece.get_color() == turn {
                    let targets = tile.get_moves(piece);
                    let mut j: usize = 0;
                    assert(before + Seq::<MoveView>::empty() =~= before);
                    while j < targets.len()
                        invariant
                            j <= targets@.len(),
                            spec_list_view(result@) == before + board.spec_moves_among(
                                tile,
                                targets@,
                                j as nat,
                            ),
                        decreases targets@.len() - j,
                    {
                        let to = targets[j];
                        let ghost so_far = board.spec_moves_among(tile, targets@, j as nat);
                        if board.is_legal_piece_move(tile, to) {
                            if board.is_valid_promotion(tile, to) {
                                let kinds = PieceType::promotions();
                                push_move(&mut result, Move::new(tile, to, Some(kinds[0])));
                                push_move(&mut result, Move::new(tile, to, Some(kinds[1])));
                                push_move(&mut result, Move::new(tile, to, Some(kinds[2])));
                                push_move(&mut result, Move::new(tile, to, Some(kinds[3])));
                            } else {
                                push_move(&mut result, Move::new(tile, to, None));
                            }
                        }
                        j = j + 1;
                        assert(spec_list_view(result@) =~= before + (so_far + board.spec_moves_to(
                            tile,
                            to,
                        )));
                        assert(before + (so_far + board.spec_moves_to(tile, to)) =~= before
                            + board.spec_moves_among(tile, targets@, j as nat));
                    }
                }
            }
            assert(spec_list_view(result@) =~= before + board.spec_moves_from(tile)) by {
                assert(before + Seq::<MoveView>::empty() =~= before);
            }
            n = n + 1;
        }
        let ghost pieces = spec_list_view(result@);
        let king_tile = Tile::king_start_position(turn);
        if board.can_castle(king_tile, Tile::rook_start_position(turn, CastlingSide::King)) {
            push_move(&mut result, Move::Castling(CastlingSide::King));
        }
        if board.can_castle(king_tile, Tile::rook_start_position(turn, CastlingSide::Queen)) {
            push_move(&mut result, Move::Castling(CastlingSide::Queen));
        }
        assert(spec_list_view(result@) =~= pieces + board.spec_castling_moves());
        result
    }
}

} // verus!
