//! Castling rights: four flags that can be switched off and never on again.
use crate::piece::{CastlingSide, Color};
use crate::tile::Tile;
use vstd::prelude::*;

verus! {

/// The castling rights of a board: for each colour and side, whether that
/// castling is still allowed.
#[derive(Copy, Clone, Debug, PartialEq, Eq, Structural)]
pub struct CastlingRights {
    pub(crate) white_king_side: bool,
    pub(crate) white_queen_side: bool,
    pub(crate) black_king_side: bool,
    pub(crate) black_queen_side: bool,
}

impl CastlingRights {
    /// Whether the colour may still castle on the side.
    pub open(crate) spec fn spec_allows(self, color: Color, side: CastlingSide) -> bool {
        match color {
            Color::White => match side {
                CastlingSide::King => self.white_king_side,
                CastlingSide::Queen => self.white_queen_side,
            },
            Color::Black => match side {
                CastlingSide::King => self.black_king_side,
                CastlingSide::Queen => self.black_queen_side,
            },
        }
    }

    /// Whether these rights allow nothing that `other` forbids.
    pub open spec fn spec_within(self, other: CastlingRights) -> bool {
        forall|color: Color, side: CastlingSide|
            #[trigger] self.spec_allows(color, side) ==> other.spec_allows(color, side)
    }

    /// These rights with one castling switched off.
    pub open(crate) spec fn spec_without(self, color: Color, side: CastlingSide) -> CastlingRights {
        match color {
            Color::White => match side {
                CastlingSide::King => CastlingRights { white_king_side: false, ..self },
                CastlingSide::Queen => CastlingRights { white_queen_side: false, ..self },
            },
            Color::Black => match side {
                CastlingSide::King => CastlingRights { black_king_side: false, ..self },
                CastlingSide::Queen => CastlingRights { black_queen_side: false, ..self },
            },
        }
    }

    /// These rights with both castlings of a colour switched off.
    pub open spec fn spec_without_color(self, color: Color) -> CastlingRights {
        self.spec_without(color, CastlingSide::King).spec_without(color, CastlingSide::Queen)
    }

    /// Whether a move of the king from `king` to `rook` encodes a castling
    /// that is still allowed: `king` is the home square of the king whose half
    /// of the board it lies in, `rook` is a corner of that king's back rank or
    /// one of the two squares the king castles to, and the right for the side
    /// that `rook` lies on is still there.
    pub open spec fn spec_is_castling_move(self, king: Tile, rook: Tile) -> bool {
        let color = king.spec_player_side();
        king == Tile::spec_king_start(color) && (rook.spec_is_castling_destination_for_king(color)
            || rook.spec_is_rook_square(color)) && self.spec_allows(
            color,
            rook.spec_castling_side(),
        )
    }

    /// These rights after the castling that `king` and `rook` encode, if they
    /// encode one, has been switched off.
    pub open spec fn spec_disable_castling(self, king: Tile, rook: Tile) -> CastlingRights {
        if self.spec_is_castling_move(king, rook) {
            self.spec_without(king.spec_player_side(), rook.spec_castling_side())
        } else {
            self
        }
    }

    /// These rights once a piece has left `tile` or has landed on it: a
    /// rook's corner takes the right of that corner with it, a king's home
    /// square both rights of its colour, and any other tile none.
    pub open spec fn spec_without_tile(self, tile: Tile) -> CastlingRights {
        if tile == Tile::spec_rook_start(Color::White, CastlingSide::King) {
            self.spec_without(Color::White, CastlingSide::King)
        } else if tile == Tile::spec_rook_start(Color::White, CastlingSide::Queen) {
            self.spec_without(Color::White, CastlingSide::Queen)
        } else if tile == Tile::spec_rook_start(Color::Black, CastlingSide::King) {
            self.spec_without(Color::Black, CastlingSide::King)
        } else if tile == Tile::spec_rook_start(Color::Black, CastlingSide::Queen) {
            self.spec_without(Color::Black, CastlingSide::Queen)
        } else if tile == Tile::spec_king_start(Color::White) {
            self.spec_without_color(Color::White)
        } else if tile == Tile::spec_king_start(Color::Black) {
            self.spec_without_color(Color::Black)
        } else {
            self
        }
    }

    /// Switching a right off leaves the others as they were and allows
    /// nothing new.
    pub proof fn lemma_without(self, color: Color, side: CastlingSide)
        ensures
            !self.spec_without(color, side).spec_allows(color, side),
            forall|c: Color, s: CastlingSide|
                (c != color || s != side) ==> #[trigger] self.spec_without(color, side).spec_allows(
                    c,
                    s,
                ) == self.spec_allows(c, s),
            self.spec_without(color, side).spec_within(self),
    {
    }

    /// What is still allowed once a tile has been left or landed on was
    /// allowed before, and is no castling whose king starts on that tile or
    /// whose rook starts there.
    pub proof fn lemma_without_tile(self, tile: Tile)
        ensures
            self.spec_without_tile(tile).spec_within(self),
            forall|color: Color, side: CastlingSide| #[trigger]
                self.spec_without_tile(tile).spec_allows(color, side) ==> tile
                    != Tile::spec_king_start(color) && tile != Tile::spec_rook_start(color, side),
    {
    }

    /// Returns a new castling rights struct with no castling rights.
    pub fn none() -> (r: CastlingRights)
        ensures
            forall|color: Color, side: CastlingSide| !#[trigger] r.spec_allows(color, side),
    {
        CastlingRights {
            white_king_side: false,
            white_queen_side: false,
            black_king_side: false,
            black_queen_side: false,
        }
    }

    /// Switches off the castling that `king` and `rook` encode, if they encode
    /// one that is still allowed.
    pub fn disable_castling(&mut self, king: Tile, rook: Tile)
        ensures
            *final(self) == old(self).spec_disable_castling(king, rook),
            final(self).spec_within(*old(self)),
    {
        if !self.is_castling_move(king, rook) {
            return ;
        }
        let color = king.get_player_side();
        let side = rook.get_castling_side();
        self.disable_castling_color_and_side(color, side);
    }

    /// Returns true if `king` and `rook` encode a castling that is still
    /// allowed.
    pub fn can_castle(&self, king: Tile, rook: Tile) -> (r: bool)
        ensures
            r == self.spec_is_castling_move(king, rook),
    {
        if !self.is_castling_move(king, rook) {
            return false;
        }
        let color = king.get_player_side();
        let side = rook.get_castling_side();
        self.can_castle_color_and_side(color, side)
    }

    /// Disable castling for the given color.
    pub fn disable_castling_color(&mut self, color: Color)
        ensures
            *final(self) == old(self).spec_without_color(color),
            final(self).spec_within(*old(self)),
    {
        match color {
            Color::White => {
                self.white_king_side = false;
                self.white_queen_side = false;
            },
            Color::Black => {
                self.black_king_side = false;
                self.black_queen_side = false;
            },
        }
    }

    /// Switches off the rights that go with a tile once a piece has left it
    /// or has landed on it: the right of a rook's corner, both rights of a
    /// king's home square.
    pub fn disable_castling_tile(&mut self, tile: Tile)
        ensures
            *final(self) == old(self).spec_without_tile(tile),
            final(self).spec_within(*old(self)),
    {
        if tile == Tile::rook_start_position(Color::White, CastlingSide::King) {
            self.disable_castling_color_and_side(Color::White, CastlingSide::King);
        } else if tile == Tile::rook_start_position(Color::White, CastlingSide::Queen) {
            self.disable_castling_color_and_side(Color::White, CastlingSide::Queen);
        } else if tile == Tile::rook_start_position(Color::Black, CastlingSide::King) {
            self.disable_castling_color_and_side(Color::Black, CastlingSide::King);
        } else if tile == Tile::rook_start_position(Color::Black, CastlingSide::Queen) {
            self.disable_castling_color_and_side(Color::Black, CastlingSide::Queen);
        } else if tile == Tile::king_start_position(Color::White) {
            self.disable_castling_color(Color::White);
        } else if tile == Tile::king_start_position(Color::Black) {
            self.disable_castling_color(Color::Black);
        }
    }

    /// Is this a castling move?
    pub fn is_castling_move(&self, king: Tile, rook: Tile) -> (r: bool)
        ensures
            r == self.spec_is_castling_move(king, rook),
    {
        let color = king.get_player_side();
        king == Tile::king_start_position(color) && (rook.is_castling_destination_for_king(color)
            || rook.is_rook_square(color)) && self.can_castle_color_and_side(
            color,
            rook.get_castling_side(),
        )
    }

    /// Remove the given color's ability to castle on the given side.
    pub fn disable_castling_color_and_side(&mut self, color: Color, side: CastlingSide)
        ensures
            *final(self) == old(self).spec_without(color, side),
            final(self).spec_within(*old(self)),
    {
        match color {
            Color::White => match side {
                CastlingSide::King => self.white_king_side = false,
                CastlingSide::Queen => self.white_queen_side = false,
            },
            Color::Black => match side {
                CastlingSide::King => self.black_king_side = false,
                CastlingSide::Queen => self.black_queen_side = false,
            },
        }
    }

    /// Returns true if the given color can castle on the given side.
    pub fn can_castle_color_and_side(&self, color: Color, side: CastlingSide) -> (r: bool)
        ensures
            r == self.spec_allows(color, side),
    {
        match color {
            Color::White => match side {
                CastlingSide::King => self.white_king_side,
                CastlingSide::Queen => self.white_queen_side,
            },
            Color::Black => match side {
                CastlingSide::King => self.black_king_side,
                CastlingSide::Queen => self.black_queen_side,
            },
        }
    }
}

impl Default for CastlingRights {
    /// The rights at the start of a game: every castling is allowed.
    fn default() -> (r: CastlingRights)
        ensures
            forall|color: Color, side: CastlingSide| #[trigger] r.spec_allows(color, side),
    {
        CastlingRights {
            white_king_side: true,
            white_queen_side: true,
            black_king_side: true,
            black_queen_side: true,
        }
    }
}

} // verus!
