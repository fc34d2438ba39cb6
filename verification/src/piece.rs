//! Piece kinds, colours and castling sides.
use crate::tile::Tile;
use vstd::prelude::*;

verus! {

/// The kind of a piece.
#[derive(Copy, Clone, Debug, PartialEq, Eq, Structural)]
pub enum PieceType {
    Pawn,
    Knight,
    Bishop,
    Rook,
    Queen,
    King,
}

impl PieceType {
    /// The letter that stands for a kind in move text.
    pub open spec fn spec_letter(self) -> char {
        match self {
            PieceType::Pawn => 'P',
            PieceType::Knight => 'N',
            PieceType::Bishop => 'B',
            PieceType::Rook => 'R',
            PieceType::Queen => 'Q',
            PieceType::King => 'K',
        }
    }

    /// The kind that a letter stands for, if it stands for one.
    pub open spec fn spec_from_letter(c: char) -> Option<PieceType> {
        if c == 'P' {
            Some(PieceType::Pawn)
        } else if c == 'N' {
            Some(PieceType::Knight)
        } else if c == 'B' {
            Some(PieceType::Bishop)
        } else if c == 'R' {
            Some(PieceType::Rook)
        } else if c == 'Q' {
            Some(PieceType::Queen)
        } else if c == 'K' {
            Some(PieceType::King)
        } else {
            None
        }
    }

    /// The base value of a kind in hundredths of a pawn.
    pub open spec fn spec_value_hundredths(self) -> nat {
        match self {
            PieceType::Pawn => 100,
            PieceType::Knight => 300,
            PieceType::Bishop => 315,
            PieceType::Rook => 500,
            PieceType::Queen => 900,
            PieceType::King => 10000,
        }
    }

    /// The number of a kind, in the order pawn, knight, bishop, rook, queen,
    /// king.
    pub open spec fn spec_ordinal(self) -> int {
        match self {
            PieceType::Pawn => 0,
            PieceType::Knight => 1,
            PieceType::Bishop => 2,
            PieceType::Rook => 3,
            PieceType::Queen => 4,
            PieceType::King => 5,
        }
    }

    /// The six kinds in order.
    pub open spec fn spec_all() -> Seq<PieceType> {
        seq![
            PieceType::Pawn,
            PieceType::Knight,
            PieceType::Bishop,
            PieceType::Rook,
            PieceType::Queen,
            PieceType::King,
        ]
    }

    /// The kinds a pawn may be promoted to, in the order in which move
    /// generation lists them.
    pub open spec fn spec_promotions() -> Seq<PieceType> {
        seq![PieceType::Knight, PieceType::Bishop, PieceType::Rook, PieceType::Queen]
    }

    /// All the piece kinds.
    pub fn all() -> (r: [PieceType; 6])
        ensures
            r@ == PieceType::spec_all(),
    {
        let r = [
            PieceType::Pawn,
            PieceType::Knight,
            PieceType::Bishop,
            PieceType::Rook,
            PieceType::Queen,
            PieceType::King,
        ];
        assert(r@ =~= PieceType::spec_all());
        r
    }

    /// The kinds a pawn may be promoted to.
    pub fn promotions() -> (r: [PieceType; 4])
        ensures
            r@ == PieceType::spec_promotions(),
    {
        let r = [PieceType::Knight, PieceType::Bishop, PieceType::Rook, PieceType::Queen];
        assert(r@ =~= PieceType::spec_promotions());
        r
    }

    /// The kinds that can be bought.
    pub fn purchases() -> (r: [PieceType; 6])
        ensures
            r@ == PieceType::spec_all(),
    {
        PieceType::all()
    }

    /// The base value of the kind in hundredths of a pawn: a bishop is worth
    /// slightly more than a knight.
    pub fn value_hundredths(&self) -> (r: u32)
        ensures
            r == self.spec_value_hundredths(),
    {
        match self {
            PieceType::Pawn => 100,
            PieceType::Knight => 300,
            PieceType::Bishop => 315,
            PieceType::Rook => 500,
            PieceType::Queen => 900,
            PieceType::King => 10000,
        }
    }

    /// The letter of the kind in move text.
    pub fn letter(&self) -> (r: char)
        ensures
            r == self.spec_letter(),
            PieceType::spec_from_letter(r) == Some(*self),
    {
        match self {
            PieceType::Pawn => 'P',
            PieceType::Knight => 'N',
            PieceType::Bishop => 'B',
            PieceType::Rook => 'R',
            PieceType::Queen => 'Q',
            PieceType::King => 'K',
        }
    }

    /// Reads a kind from its letter; `None` for any other character.
    pub fn from_letter(c: char) -> (r: Option<PieceType>)
        ensures
            r == PieceType::spec_from_letter(c),
    {
        if c == 'P' {
            Some(PieceType::Pawn)
        } else if c == 'N' {
            Some(PieceType::Knight)
        } else if c == 'B' {
            Some(PieceType::Bishop)
        } else if c == 'R' {
            Some(PieceType::Rook)
        } else if c == 'Q' {
            Some(PieceType::Queen)
        } else if c == 'K' {
            Some(PieceType::King)
        } else {
            None
        }
    }
}

/// A colour is either white or black.
#[derive(Copy, Clone, Debug, PartialEq, Eq, Structural)]
pub enum Color {
    White,
    Black,
}

impl Color {
    /// The opposite colour.
    pub open spec fn spec_enemy(&self) -> Color {
        match self {
            Color::White => Color::Black,
            Color::Black => Color::White,
        }
    }

    /// The direction in which the colour's pawns advance: one rank up for
    /// white, one rank down for black.
    pub open spec fn spec_direction(self) -> int {
        match self {
            Color::White => 1,
            Color::Black => -1,
        }
    }

    /// The number of ranks that a pawn of the colour gains by `count` steps
    /// forward.
    pub open spec fn spec_forward(self, count: int) -> int {
        match self {
            Color::White => count,
            Color::Black => -count,
        }
    }

    /// The opposite colour.
    #[verifier::when_used_as_spec(spec_enemy)]
    pub fn enemy(&self) -> (r: Color)
        ensures
            r == self.spec_enemy(),
    {
        match self {
            Color::White => Color::Black,
            Color::Black => Color::White,
        }
    }

    /// The direction in which the colour's pawns advance.
    pub fn direction(&self) -> (r: i8)
        ensures
            r == self.spec_direction(),
    {
        match self {
            Color::White => 1,
            Color::Black => -1,
        }
    }
}

impl Default for Color {
    fn default() -> (r: Color)
        ensures
            r == Color::White,
    {
        Color::White
    }
}

impl core::ops::Not for Color {
    type Output = Color;

    fn not(self) -> (r: Color) {
        self.enemy()
    }
}

impl vstd::std_specs::ops::NotSpecImpl for Color {
    open spec fn obeys_not_spec() -> bool {
        true
    }

    open spec fn not_req(self) -> bool {
        true
    }

    open spec fn not_spec(self) -> Color {
        self.spec_enemy()
    }
}

/// A castling side is either the king side or the queen side.
#[derive(Copy, Clone, Debug, PartialEq, Eq, Structural)]
pub enum CastlingSide {
    King,
    Queen,
}

/// A piece: a kind and a colour.
#[derive(Copy, Clone, Debug, PartialEq, Eq, Structural)]
pub struct Piece(pub(crate) PieceType, pub(crate) Color);

impl Piece {
    /// The piece of the given kind and colour.
    pub open(crate) spec fn of(piece_type: PieceType, color: Color) -> Piece {
        Piece(piece_type, color)
    }

    /// The kind of the piece.
    pub open(crate) spec fn spec_type(&self) -> PieceType {
        self.0
    }

    /// The colour of the piece.
    pub open(crate) spec fn spec_color(&self) -> Color {
        self.1
    }

    /// Whether the kind of the piece lets it go from `from` to `to`. A pawn
    /// captures diagonally, and moves onto an empty square diagonally only if
    /// that square is the en-passant target.
    pub open spec fn spec_can_move(
        self,
        from: Tile,
        to: Tile,
        is_attack: bool,
        en_passant: Option<Tile>,
    ) -> bool {
        match self.spec_type() {
            PieceType::Pawn => from.spec_is_pawn_move_away(
                to,
                self.spec_color(),
                is_attack,
                en_passant,
            ),
            PieceType::Knight => from.spec_is_knight_move_away(to),
            PieceType::Bishop => from.spec_is_diagonal_to(to),
            PieceType::Rook => from.spec_is_rook_move_away(to),
            PieceType::Queen => from.spec_is_rook_move_away(to) || from.spec_is_diagonal_to(to),
            PieceType::King => from.spec_is_king_move_away(to),
        }
    }

    /// Create a new piece with the given type and color.
    pub fn new(piece_type: PieceType, color: Color) -> (r: Piece)
        ensures
            r == Piece::of(piece_type, color),
    {
        Piece(piece_type, color)
    }

    /// Get the type of the piece.
    #[verifier::when_used_as_spec(spec_type)]
    pub fn get_type(&self) -> (r: PieceType)
        ensures
            r == self.spec_type(),
    {
        self.0
    }

    /// Get the color of the piece.
    #[verifier::when_used_as_spec(spec_color)]
    pub fn get_color(&self) -> (r: Color)
        ensures
            r == self.spec_color(),
    {
        self.1
    }

    /// Create a pawn with the given color.
    pub fn pawn(color: Color) -> (r: Piece)
        ensures
            r == Piece::of(PieceType::Pawn, color),
    {
        Piece::new(PieceType::Pawn, color)
    }

    /// Create a knight with the given color.
    pub fn knight(color: Color) -> (r: Piece)
        ensures
            r == Piece::of(PieceType::Knight, color),
    {
        Piece::new(PieceType::Knight, color)
    }

    /// Create a bishop with the given color.
    pub fn bishop(color: Color) -> (r: Piece)
        ensures
            r == Piece::of(PieceType::Bishop, color),
    {
        Piece::new(PieceType::Bishop, color)
    }

    /// Create a rook with the given color.
    pub fn rook(color: Color) -> (r: Piece)
        ensures
            r == Piece::of(PieceType::Rook, color),
    {
        Piece::new(PieceType::Rook, color)
    }

    /// Create a queen with the given color.
    pub fn queen(color: Color) -> (r: Piece)
        ensures
            r == Piece::of(PieceType::Queen, color),
    {
        Piece::new(PieceType::Queen, color)
    }

    /// Create a king with the given color.
    pub fn king(color: Color) -> (r: Piece)
        ensures
            r == Piece::of(PieceType::King, color),
    {
        Piece::new(PieceType::King, color)
    }

    /// The base value of the piece in hundredths of a pawn.
    pub fn value_hundredths(&self) -> (r: u32)
        ensures
            r == self.spec_type().spec_value_hundredths(),
    {
        self.0.value_hundredths()
    }

    /// Can this piece type move from one tile to another?
    pub fn can_move(
        &self,
        from: Tile,
        to: Tile,
        is_attack: bool,
        en_passant_tile: Option<Tile>,
    ) -> (r: bool)
        ensures
            r == self.spec_can_move(from, to, is_attack, en_passant_tile),
    {
        match self.get_type() {
            PieceType::Pawn => from.is_pawn_move_away(
                to,
                self.get_color(),
                is_attack,
                en_passant_tile,
            ),
            PieceType::Knight => from.is_knight_move_away(to),
            PieceType::Bishop => from.is_bishop_move_away(to),
            PieceType::Rook => from.is_rook_move_away(to),
            PieceType::Queen => from.is_queen_move_away(to),
            PieceType::King => from.is_king_move_away(to),
        }
    }
}

} // verus!
