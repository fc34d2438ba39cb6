//! Conversions between the types of the board.
use crate::piece::{Color, Piece, PieceType};
use crate::sector::Sector;
use crate::tile::Tile;
use vstd::prelude::*;
use vstd::std_specs::convert::FromSpecImpl;

verus! {

impl Piece {
    /// The chess symbol of a piece.
    pub open spec fn spec_symbol(self) -> char {
        match (self.spec_type(), self.spec_color()) {
            (PieceType::Pawn, Color::White) => '\u{2659}',
            (PieceType::Knight, Color::White) => '\u{2658}',
            (PieceType::Bishop, Color::White) => '\u{2657}',
            (PieceType::Rook, Color::White) => '\u{2656}',
            (PieceType::Queen, Color::White) => '\u{2655}',
            (PieceType::King, Color::White) => '\u{2654}',
            (PieceType::Pawn, Color::Black) => '\u{265F}',
            (PieceType::Knight, Color::Black) => '\u{265E}',
            (PieceType::Bishop, Color::Black) => '\u{265D}',
            (PieceType::Rook, Color::Black) => '\u{265C}',
            (PieceType::Queen, Color::Black) => '\u{265B}',
            (PieceType::King, Color::Black) => '\u{265A}',
        }
    }

    /// The chess symbol of the piece.
    pub fn symbol(&self) -> (r: char)
        ensures
            r == self.spec_symbol(),
    {
        match (self.get_type(), self.get_color()) {
            (PieceType::Pawn, Color::White) => '\u{2659}',
            (PieceType::Knight, Color::White) => '\u{2658}',
            (PieceType::Bishop, Color::White) => '\u{2657}',
            (PieceType::Rook, Color::White) => '\u{2656}',
            (PieceType::Queen, Color::White) => '\u{2655}',
            (PieceType::King, Color::White) => '\u{2654}',
            (PieceType::Pawn, Color::Black) => '\u{265F}',
            (PieceType::Knight, Color::Black) => '\u{265E}',
            (PieceType::Bishop, Color::Black) => '\u{265D}',
            (PieceType::Rook, Color::Black) => '\u{265C}',
            (PieceType::Queen, Color::Black) => '\u{265B}',
            (PieceType::King, Color::Black) => '\u{265A}',
        }
    }
}

impl From<PieceType> for char {
    fn from(piece_type: PieceType) -> (r: char) {
        piece_type.letter()
    }
}

impl FromSpecImpl<PieceType> for char {
    open spec fn obeys_from_spec() -> bool {
        true
    }

    open spec fn from_spec(piece_type: PieceType) -> char {
        piece_type.spec_letter()
    }
}

impl From<Piece> for char {
    fn from(piece: Piece) -> (r: char) {
        piece.symbol()
    }
}

impl FromSpecImpl<Piece> for char {
    open spec fn obeys_from_spec() -> bool {
        true
    }

    open spec fn from_spec(piece: Piece) -> char {
        piece.spec_symbol()
    }
}

impl From<Tile> for Sector {
    fn from(location: Tile) -> (r: Sector) {
        Sector::new(location)
    }
}

impl FromSpecImpl<Tile> for Sector {
    open spec fn obeys_from_spec() -> bool {
        true
    }

    open spec fn from_spec(location: Tile) -> Sector {
        Sector::at(Sector::of_tile(location))
    }
}

} // verus!
