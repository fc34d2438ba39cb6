//! Moves: the shapes a player's turn can take.
use crate::piece::{CastlingSide, PieceType};
use crate::tile::Tile;
use vstd::prelude::*;

verus! {

/// A move, in one of its shapes.
#[derive(Debug, PartialEq)]
pub enum Move {
    /// A piece goes from one tile to another, and is promoted to the given
    /// kind if the move is a promotion.
    FromTo { from: Tile, to: Tile, promotion: Option<PieceType> },
    /// A piece of the given kind goes to a tile; the board finds the tile it
    /// starts from.
    PieceTo { piece: PieceType, to: Tile, promotion: Option<PieceType> },
    /// A piece is bought and put on a tile. Only the economy plays such a
    /// move; a board rejects it.
    Purchase { piece: PieceType, to: Tile },
    /// The side to move castles on the given side.
    Castling(CastlingSide),
    /// The side to move resigns.
    Resign,
    /// The side to move passes.
    Pass,
    /// Several moves played in one turn, in order.
    Many(Vec<Move>),
}

/// What a move says, apart from where its parts are stored: the contracts of
/// the crate speak of moves through this model.
pub enum MoveView {
    FromTo { from: Tile, to: Tile, promotion: Option<PieceType> },
    PieceTo { piece: PieceType, to: Tile, promotion: Option<PieceType> },
    Purchase { piece: PieceType, to: Tile },
    Castling(CastlingSide),
    Resign,
    Pass,
    Many(Seq<MoveView>),
}

/// The models of the first `n` moves of a list.
pub open spec fn spec_views(moves: Seq<Move>, n: nat) -> Seq<MoveView>
    decreases moves, n,
{
    if n == 0 || n > moves.len() {
        Seq::empty()
    } else {
        spec_views(moves, (n - 1) as nat).push(moves[n - 1].spec_view())
    }
}

/// The models of a list of moves are as many as the moves, each the model of
/// the move in its place.
pub proof fn lemma_views(moves: Seq<Move>, n: nat)
    requires
        n <= moves.len(),
    ensures
        spec_views(moves, n).len() == n,
        forall|i: int| 0 <= i < n ==> #[trigger] spec_views(moves, n)[i] == moves[i].spec_view(),
    decreases n,
{
    if n > 0 {
        lemma_views(moves, (n - 1) as nat);
    }
}

impl Move {
    /// The model of the move.
    pub open spec fn spec_view(self) -> MoveView
        decreases self, 0nat,
    {
        match self {
            Move::FromTo { from, to, promotion } => MoveView::FromTo { from, to, promotion },
            Move::PieceTo { piece, to, promotion } => MoveView::PieceTo { piece, to, promotion },
            Move::Purchase { piece, to } => MoveView::Purchase { piece, to },
            Move::Castling(side) => MoveView::Castling(side),
            Move::Resign => MoveView::Resign,
            Move::Pass => MoveView::Pass,
            Move::Many(moves) => MoveView::Many(spec_views(moves@, moves@.len())),
        }
    }

    /// Create a new move from a tile to a tile.
    pub fn new(from: Tile, to: Tile, promotion: Option<PieceType>) -> (r: Move)
        ensures
            r == (Move::FromTo { from, to, promotion }),
            r@ == (MoveView::FromTo { from, to, promotion }),
    {
        Move::FromTo { from, to, promotion }
    }

    /// A copy of the move.
    pub fn duplicate(&self) -> (r: Move)
        ensures
            r@ == self@,
        decreases self,
    {
        match self {
            Move::FromTo { from, to, promotion } => Move::FromTo {
                from: *from,
                to: *to,
                promotion: *promotion,
            },
            Move::PieceTo { piece, to, promotion } => Move::PieceTo {
                piece: *piece,
                to: *to,
                promotion: *promotion,
            },
            Move::Purchase { piece, to } => Move::Purchase { piece: *piece, to: *to },
            Move::Castling(side) => Move::Castling(*side),
            Move::Resign => Move::Resign,
            Move::Pass => Move::Pass,
            Move::Many(moves) => {
                let mut copies: Vec<Move> = Vec::new();
                let mut i: usize = 0;
                while i < moves.len()
                    invariant
                        i <= moves@.len(),
                        *self == Move::Many(*moves),
                        copies@.len() == i,
                        forall|j: int|
                            0 <= j < i ==> #[trigger] copies@[j].spec_view()
                                == moves@[j].spec_view(),
                    decreases moves@.len() - i,
                {
                    proof {
                        assert(self->Many_0 == *moves);
                        assert(decreases_to!(*self => self->Many_0));
                        assert(decreases_to!(*moves => moves@));
                        assert(decreases_to!(moves@ => moves@[i as int]));
                        assert(decreases_to!(*self => moves@[i as int]));
                    }
                    copies.push(moves[i].duplicate());
                    i = i + 1;
                }
                proof {
                    lemma_views(moves@, moves@.len());
                    lemma_views(copies@, copies@.len());
                    assert(spec_views(copies@, copies@.len()) =~= spec_views(
                        moves@,
                        moves@.len(),
                    ));
                }
                Move::Many(copies)
            },
        }
    }
}

impl View for Move {
    type V = MoveView;

    open spec fn view(&self) -> MoveView {
        self.spec_view()
    }
}

impl Clone for Move {
    fn clone(&self) -> (r: Move)
        ensures
            r@ == self@,
    {
        self.duplicate()
    }
}

} // verus!
