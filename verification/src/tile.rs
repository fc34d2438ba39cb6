//! Tiles: the squares of the board, and the geometry of moves between them.
use crate::bits::{bit, lemma_lowest, member};
use crate::file::File;
use crate::piece::{CastlingSide, Color, PieceType};
use crate::rank::{distance, Rank};
use crate::sector::Sector;
use vstd::prelude::*;
use vstd::std_specs::bits::u64_trailing_zeros;

verus! {

/// Whether a rank number and a file number name a square of the board.
pub open spec fn in_board(rank: int, file: int) -> bool {
    0 <= rank < 8 && 0 <= file < 8
}

/// The number that lies `k` steps from `a` towards `b`, and is `b` once `b`
/// has been reached.
pub open spec fn approach(a: int, b: int, k: int) -> int {
    if a < b {
        if a + k < b {
            a + k
        } else {
            b
        }
    } else {
        if a - k > b {
            a - k
        } else {
            b
        }
    }
}

/// A tile is a square of the board, given by a rank and a file.
#[derive(Copy, Clone, Debug, PartialEq, Eq, Hash, Structural)]
pub struct Tile(pub(crate) Rank, pub(crate) File);

impl Tile {
    /// Every tile that exists at run time lies on the board.
    #[verifier::type_invariant]
    pub open(crate) spec fn wf(self) -> bool {
        self.0.wf() && self.1.wf()
    }

    /// The tile on the given rank and file.
    pub open(crate) spec fn at(rank: int, file: int) -> Tile {
        Tile(Rank::at(rank), File::at(file))
    }

    /// The tile with the given number; tiles are numbered rank by rank from
    /// the bottom left.
    pub open spec fn nth(n: int) -> Tile {
        Tile::at(n / 8, n % 8)
    }

    /// The number of the rank of the tile.
    pub open(crate) spec fn spec_rank(self) -> int {
        self.0@
    }

    /// The number of the file of the tile.
    pub open(crate) spec fn spec_file(self) -> int {
        self.1@
    }

    /// The number of the tile, from 0 to 63.
    pub open spec fn spec_index(self) -> int {
        self.spec_rank() * 8 + self.spec_file()
    }

    /// The number of the tile as a bit position.
    pub open spec fn spec_pos(self) -> u64 {
        self.spec_index() as u64
    }

    /// The mask that holds this tile alone.
    pub open spec fn spec_bit(self) -> u64 {
        bit(self.spec_pos())
    }

    /// The tile that lies `rank` ranks up and `file` files right of this one.
    pub open spec fn spec_offset(self, rank: int, file: int) -> Tile {
        Tile::at(self.spec_rank() + rank, self.spec_file() + file)
    }

    /// Whether the tile at the given offset lies on the board.
    pub open spec fn spec_offset_in_board(self, rank: int, file: int) -> bool {
        in_board(self.spec_rank() + rank, self.spec_file() + file)
    }

    /// The number of king steps between two tiles.
    pub open spec fn spec_distance(self, other: Tile) -> int {
        let dr = distance(self.spec_rank(), other.spec_rank());
        let df = distance(self.spec_file(), other.spec_file());
        if dr >= df {
            dr
        } else {
            df
        }
    }

    /// The tile reached from this one by `k` steps towards `target`: each step
    /// moves one rank and one file closer, as far as either still differs.
    pub open spec fn spec_path(self, target: Tile, k: int) -> Tile {
        Tile::at(
            approach(self.spec_rank(), target.spec_rank(), k),
            approach(self.spec_file(), target.spec_file(), k),
        )
    }

    /// The side of the board that the tile lies on.
    pub open spec fn spec_player_side(self) -> Color {
        Rank::side_of(self.spec_rank())
    }

    /// The castling side that the tile lies on.
    pub open spec fn spec_castling_side(self) -> CastlingSide {
        File::castling_side_of(self.spec_file())
    }

    /// The square that the king of a colour starts on.
    pub open spec fn spec_king_start(color: Color) -> Tile {
        match color {
            Color::White => Tile::at(0, 4),
            Color::Black => Tile::at(7, 4),
        }
    }

    /// The square that a rook of a colour starts on.
    pub open spec fn spec_rook_start(color: Color, side: CastlingSide) -> Tile {
        Tile::at(
            if color == Color::White {
                0
            } else {
                7
            },
            if side == CastlingSide::King {
                7
            } else {
                0
            },
        )
    }

    /// The square that the king of a colour castles to.
    pub open spec fn spec_king_castled(color: Color, side: CastlingSide) -> Tile {
        Tile::at(
            if color == Color::White {
                0
            } else {
                7
            },
            if side == CastlingSide::King {
                6
            } else {
                2
            },
        )
    }

    /// The square that a rook of a colour castles to.
    pub open spec fn spec_rook_castled(color: Color, side: CastlingSide) -> Tile {
        Tile::at(
            if color == Color::White {
                0
            } else {
                7
            },
            if side == CastlingSide::King {
                5
            } else {
                3
            },
        )
    }

    /// Whether `other` is a knight's jump away: one rank and two files, or
    /// two ranks and one file.
    pub open spec fn spec_is_knight_move_away(self, other: Tile) -> bool {
        let dr = distance(self.spec_rank(), other.spec_rank());
        let df = distance(self.spec_file(), other.spec_file());
        (dr == 1 && df == 2) || (dr == 2 && df == 1)
    }

    /// Whether `other` lies on a diagonal through this tile. A tile is
    /// diagonal to itself.
    pub open spec fn spec_is_diagonal_to(self, other: Tile) -> bool {
        distance(self.spec_rank(), other.spec_rank()) == distance(
            self.spec_file(),
            other.spec_file(),
        )
    }

    /// Whether `other` lies within one rank and one file.
    pub open spec fn spec_is_king_move_away(self, other: Tile) -> bool {
        distance(self.spec_rank(), other.spec_rank()) <= 1 && distance(
            self.spec_file(),
            other.spec_file(),
        ) <= 1
    }

    /// Whether `other` lies on the same rank or file.
    pub open spec fn spec_is_rook_move_away(self, other: Tile) -> bool {
        self.spec_rank() == other.spec_rank() || self.spec_file() == other.spec_file()
    }

    /// Whether `other` lies one rank ahead for the colour, on a neighbouring
    /// file.
    pub open spec fn spec_is_pawn_capture(self, other: Tile, color: Color) -> bool {
        other.spec_rank() == self.spec_rank() + color.spec_direction() && distance(
            self.spec_file(),
            other.spec_file(),
        ) == 1
    }

    /// Whether a pawn of the colour may go from this tile to `other`: onto an
    /// occupied square only diagonally forward; onto an empty one straight
    /// ahead, two ranks ahead from its starting rank, or diagonally forward
    /// onto the en-passant target.
    pub open spec fn spec_is_pawn_move_away(
        self,
        other: Tile,
        color: Color,
        is_attack: bool,
        en_passant: Option<Tile>,
    ) -> bool {
        if is_attack {
            self.spec_is_pawn_capture(other, color)
        } else {
            ||| (en_passant == Some(other) && self.spec_is_pawn_capture(other, color))
            ||| (color == Color::White && self.spec_rank() == 1 && other.spec_rank() == 3
                && self.spec_file() == other.spec_file())
            ||| (color == Color::Black && self.spec_rank() == 6 && other.spec_rank() == 4
                && self.spec_file() == other.spec_file())
            ||| (other.spec_rank() == self.spec_rank() + color.spec_direction()
                && self.spec_file() == other.spec_file())
        }
    }

    /// Whether the tile is a corner of the colour's back rank, where its rooks
    /// start.
    pub open spec fn spec_is_rook_square(self, color: Color) -> bool {
        self.spec_rank() == (if color == Color::White {
            0int
        } else {
            7int
        }) && (self.spec_file() == 7 || self.spec_file() == 0)
    }

    /// Whether the tile is one of the two squares that the colour's king
    /// castles to.
    pub open spec fn spec_is_castling_destination_for_king(self, color: Color) -> bool {
        self == Tile::spec_king_castled(color, CastlingSide::King) || self
            == Tile::spec_king_castled(color, CastlingSide::Queen)
    }

    /// Whether a piece of the given kind and colour on this tile bears on
    /// `target`, whatever stands between them. Bishops, rooks and queens bear
    /// on their own square too.
    pub open spec fn spec_attacks(self, piece_type: PieceType, color: Color, target: Tile) -> bool {
        let dr = distance(self.spec_rank(), target.spec_rank());
        let df = distance(self.spec_file(), target.spec_file());
        match piece_type {
            PieceType::Pawn => self.spec_is_pawn_capture(target, color),
            PieceType::Knight => (dr == 2 && df == 1) || (dr == 1 && df == 2),
            PieceType::Bishop => dr == df,
            PieceType::Rook => dr == 0 || df == 0,
            PieceType::Queen => dr == 0 || df == 0 || dr == df,
            PieceType::King => dr <= 1 && df <= 1 && self != target,
        }
    }

    /// Whether `mask` holds exactly the tiles that a piece of the given kind
    /// and colour on this tile bears on.
    pub open spec fn spec_is_attack_mask(
        self,
        mask: u64,
        piece_type: PieceType,
        color: Color,
    ) -> bool {
        forall|i: u64|
            i < 64 ==> #[trigger] member(mask, i) == self.spec_attacks(
                piece_type,
                color,
                Tile::nth(i as int),
            )
    }

    /// Numbering the tiles and reading the numbers back are inverse to each
    /// other.
    pub proof fn lemma_nth(n: int)
        requires
            0 <= n < 64,
        ensures
            Tile::nth(n).wf(),
            Tile::nth(n).spec_index() == n,
            Tile::nth(n).spec_rank() == n / 8,
            Tile::nth(n).spec_file() == n % 8,
    {
    }

    /// A tile is the tile of its number.
    pub proof fn lemma_index(self)
        requires
            self.wf(),
        ensures
            0 <= self.spec_index() < 64,
            Tile::nth(self.spec_index()) == self,
            self.spec_pos() < 64,
            self.spec_pos() == self.spec_index(),
            self == Tile::at(self.spec_rank(), self.spec_file()),
            in_board(self.spec_rank(), self.spec_file()),
    {
    }

    /// A tile is known by its rank and file.
    pub proof fn lemma_at(rank: int, file: int)
        requires
            in_board(rank, file),
        ensures
            Tile::at(rank, file).wf(),
            Tile::at(rank, file).spec_rank() == rank,
            Tile::at(rank, file).spec_file() == file,
            Tile::at(rank, file).spec_index() == rank * 8 + file,
    {
    }

    /// Two tiles on the same rank and file are the same tile.
    pub proof fn lemma_same(self, other: Tile)
        requires
            self.wf(),
            other.wf(),
        ensures
            self == other <==> (self.spec_rank() == other.spec_rank() && self.spec_file()
                == other.spec_file()),
            self == other <==> self.spec_index() == other.spec_index(),
    {
    }

    /// The square that the king of the colour starts on.
    pub fn king_start_position(color: Color) -> (r: Tile)
        ensures
            r == Tile::spec_king_start(color),
    {
        match color {
            Color::White => Tile(Rank(0), File(4)),
            Color::Black => Tile(Rank(7), File(4)),
        }
    }

    /// The square that the rook of the colour and side starts on.
    pub fn rook_start_position(color: Color, side: CastlingSide) -> (r: Tile)
        ensures
            r == Tile::spec_rook_start(color, side),
    {
        Tile(Rank::back_rank(color), File::rook(side))
    }

    /// Step this tile diagonally or orthogonally towards the target tile.
    pub fn step_towards(&mut self, target: Tile)
        ensures
            *final(self) == old(self).spec_path(target, 1),
    {
        proof {
            use_type_invariant(&*self);
            use_type_invariant(&target);
        }
        let my_rank = self.0.get_index();
        let my_file = self.1.get_index();
        let target_rank = target.0.get_index();
        let target_file = target.1.get_index();
        let new_rank: u8 = if my_rank < target_rank {
            my_rank + 1
        } else if my_rank > target_rank {
            my_rank - 1
        } else {
            my_rank
        };
        let new_file: u8 = if my_file < target_file {
            my_file + 1
        } else if my_file > target_file {
            my_file - 1
        } else {
            my_file
        };
        *self = Tile(Rank(new_rank), File(new_file));
    }

    /// All the tiles, in the order of their numbers.
    pub fn all() -> (r: Vec<Tile>)
        ensures
            r@.len() == 64,
            forall|i: int| 0 <= i < 64 ==> r@[i] == Tile::nth(i),
    {
        let mut r: Vec<Tile> = Vec::new();
        let mut n: u8 = 0;
        while n < 64
            invariant
                n <= 64,
                r@.len() == n,
                forall|i: int| 0 <= i < n ==> r@[i] == Tile::nth(i),
            decreases 64 - n,
        {
            r.push(Tile::from_nth(n));
            n = n + 1;
        }
        r
    }

    /// Advance the tile a pawn's move for a given color and count of tiles.
    pub fn advance(&self, color: Color, count: i8) -> (r: Tile)
        requires
            0 <= self.spec_rank() + color.spec_forward(count as int) <= 7,
        ensures
            r == self.spec_offset(color.spec_forward(count as int), 0),
    {
        proof {
            use_type_invariant(self);
        }
        Tile(self.0.advance(color, count), self.1)
    }

    /// Move the tile by a number of ranks and files; `None` where that leaves
    /// the board.
    pub fn move_by(&self, rank: i8, file: i8) -> (r: Option<Tile>)
        ensures
            r == if self.spec_offset_in_board(rank as int, file as int) {
                Some(self.spec_offset(rank as int, file as int))
            } else {
                None
            },
    {
        proof {
            use_type_invariant(self);
        }
        let new_rank: i16 = self.0.get_index() as i16 + rank as i16;
        let new_file: i16 = self.1.get_index() as i16 + file as i16;
        if new_rank < 8 && new_file < 8 && new_rank >= 0 && new_file >= 0 {
            Some(Tile(Rank(new_rank as u8), File(new_file as u8)))
        } else {
            None
        }
    }

    /// Returns the square where the king ends up after castling.
    pub fn castling_destination_for_king(color: Color, side: CastlingSide) -> (r: Tile)
        ensures
            r == Tile::spec_king_castled(color, side),
    {
        Tile(Rank::back_rank(color), File::castle_destination(side))
    }

    /// Returns the square where the rook ends up after castling.
    pub fn castling_destination_for_rook(color: Color, side: CastlingSide) -> (r: Tile)
        ensures
            r == Tile::spec_rook_castled(color, side),
    {
        match side {
            CastlingSide::King => Tile(Rank::back_rank(color), File(5)),
            CastlingSide::Queen => Tile(Rank::back_rank(color), File(3)),
        }
    }

    /// The tile of the lowest square of a mask, which must not be empty.
    pub fn from_bit(bit: u64) -> (r: Tile)
        requires
            bit != 0,
        ensures
            r == Tile::nth(u64_trailing_zeros(bit) as int),
            r.spec_pos() == u64_trailing_zeros(bit),
            member(bit, r.spec_pos()),
            forall|j: u64| j < r.spec_pos() ==> !member(bit, j),
    {
        proof {
            lemma_lowest(bit);
        }
        let index = bit.trailing_zeros() as u8;
        Tile::from_nth(index)
    }

    /// The tile with the given number, which must be under 64.
    pub fn from_nth(n: u8) -> (r: Tile)
        requires
            n < 64,
        ensures
            r == Tile::nth(n as int),
            r.spec_index() == n,
    {
        Tile(Rank(n / 8), File(n % 8))
    }

    /// Create a new tile from a rank and a file.
    pub fn new(rank: Rank, file: File) -> (r: Tile)
        ensures
            r == Tile::at(rank@, file@),
            r.spec_rank() == rank@,
            r.spec_file() == file@,
    {
        proof {
            use_type_invariant(&rank);
            use_type_invariant(&file);
        }
        Tile(rank, file)
    }

    /// The en passant square is the square that a pawn can move to when it
    /// performs an en passant capture. This function takes that tile, and
    /// returns the tile that the attacked pawn is on: one rank further from
    /// the edge of the board. The square may not lie on an edge rank.
    pub fn pawn_from_en_passant_square(en_passant_square: Tile) -> (r: Tile)
        requires
            1 <= en_passant_square.spec_rank() <= 6,
        ensures
            r == en_passant_square.spec_offset(
                if en_passant_square.spec_rank() <= 3 {
                    -1
                } else {
                    1
                },
                0,
            ),
    {
        proof {
            use_type_invariant(&en_passant_square);
        }
        let rank = en_passant_square.0.get_index();
        let new_rank: u8 = if rank <= 3 {
            rank - 1
        } else {
            rank + 1
        };
        Tile(Rank(new_rank), en_passant_square.1)
    }

    /// Get the rank of the tile.
    pub fn get_rank(&self) -> (r: Rank)
        ensures
            r@ == self.spec_rank(),
    {
        self.0
    }

    /// Get the file of the tile.
    pub fn get_file(&self) -> (r: File)
        ensures
            r@ == self.spec_file(),
    {
        self.1
    }

    /// Get the player side of the tile.
    pub fn get_player_side(&self) -> (r: Color)
        ensures
            r == self.spec_player_side(),
    {
        self.0.get_player_side()
    }

    /// Get the castling side of the tile: the king side is the right half of
    /// the board, the queen side the left half.
    pub fn get_castling_side(&self) -> (r: CastlingSide)
        ensures
            r == self.spec_castling_side(),
    {
        self.1.get_castling_side()
    }

    /// Get the sector of the tile: the 2x2 block that it lies in. Sectors are
    /// numbered 0 to 15 from the bottom left.
    pub fn get_sector(&self) -> (r: Sector)
        ensures
            r@ == (self.spec_rank() / 2) * 4 + self.spec_file() / 2,
    {
        Sector::from_index(self.get_sector_number() as usize)
    }

    /// The number of the sector of the tile, from 0 to 15.
    pub fn get_sector_number(&self) -> (r: u8)
        ensures
            r == (self.spec_rank() / 2) * 4 + self.spec_file() / 2,
            r < 16,
    {
        proof {
            use_type_invariant(self);
        }
        (self.0.get_index() / 2) * 4 + self.1.get_index() / 2
    }

    /// The number of the tile, from 0 to 63.
    pub fn get_nth(&self) -> (r: u8)
        ensures
            r == self.spec_index(),
            r < 64,
    {
        proof {
            use_type_invariant(self);
        }
        self.0.get_index() * 8 + self.1.get_index()
    }

    /// Convert this tile to a bit representation on a bitboard.
    pub fn to_bit(&self) -> (r: u64)
        ensures
            r == self.spec_bit(),
            r != 0,
    {
        proof {
            use_type_invariant(self);
            crate::bits::lemma_bit_nonzero(self.spec_pos());
        }
        1u64 << (self.0.get_index() * 8 + self.1.get_index())
    }

    /// Is the other tile a knight's jump away from this tile: one rank and
    /// two files, or two ranks and one file?
    pub fn is_knight_move_away(&self, other: Tile) -> (r: bool)
        ensures
            r == self.spec_is_knight_move_away(other),
    {
        let my_rank = self.get_rank();
        let my_file = self.get_file();
        let other_rank = other.get_rank();
        let other_file = other.get_file();
        let one_rank = my_rank.is_within(other_rank, 1) && !my_rank.is_within(other_rank, 0);
        let two_ranks = my_rank.is_within(other_rank, 2) && !my_rank.is_within(other_rank, 1);
        let one_file = my_file.is_within(other_file, 1) && !my_file.is_within(other_file, 0);
        let two_files = my_file.is_within(other_file, 2) && !my_file.is_within(other_file, 1);
        one_rank && two_files || two_ranks && one_file
    }

    /// Is diagonal to the other tile?
    pub fn is_diagonal_to(&self, other: Tile) -> (r: bool)
        ensures
            r == self.spec_is_diagonal_to(other),
    {
        proof {
            use_type_invariant(self);
            use_type_invariant(&other);
        }
        let my_rank: i32 = self.0.get_index() as i32;
        let my_file: i32 = self.1.get_index() as i32;
        let other_rank: i32 = other.0.get_index() as i32;
        let other_file: i32 = other.1.get_index() as i32;
        let dr: i32 = if my_rank <= other_rank {
            other_rank - my_rank
        } else {
            my_rank - other_rank
        };
        let df: i32 = if my_file <= other_file {
            other_file - my_file
        } else {
            my_file - other_file
        };
        dr == df
    }

    /// Is this tile a king move away from the other tile?
    pub fn is_king_move_away(&self, other: Tile) -> (r: bool)
        ensures
            r == self.spec_is_king_move_away(other),
    {
        let my_rank = self.get_rank();
        let my_file = self.get_file();
        let other_rank = other.get_rank();
        let other_file = other.get_file();
        my_rank.is_within(other_rank, 1) && my_file.is_within(other_file, 1)
    }

    /// Is this tile a rook move away from the other tile?
    pub fn is_rook_move_away(&self, other: Tile) -> (r: bool)
        ensures
            r == self.spec_is_rook_move_away(other),
    {
        self.0.get_index() == other.0.get_index() || self.1.get_index() == other.1.get_index()
    }

    /// Is this tile a bishop move away from the other tile?
    pub fn is_bishop_move_away(&self, other: Tile) -> (r: bool)
        ensures
            r == self.spec_is_diagonal_to(other),
    {
        self.is_diagonal_to(other)
    }

    /// Is this tile a queen move away from the other tile? A queen move is
    /// either a rook move or a bishop move.
    pub fn is_queen_move_away(&self, other: Tile) -> (r: bool)
        ensures
            r == (self.spec_is_rook_move_away(other) || self.spec_is_diagonal_to(other)),
    {
        self.is_rook_move_away(other) || self.is_bishop_move_away(other)
    }

    /// Is this tile a pawn move away from the other tile?
    pub fn is_pawn_move_away(
        &self,
        other: Tile,
        color: Color,
        is_attack: bool,
        en_passant_square: Option<Tile>,
    ) -> (r: bool)
        ensures
            r == self.spec_is_pawn_move_away(other, color, is_attack, en_passant_square),
    {
        proof {
            use_type_invariant(self);
            use_type_invariant(&other);
        }
        let my_rank: i8 = self.0.get_index() as i8;
        let my_file = self.get_file();
        let other_rank: i8 = other.0.get_index() as i8;
        let other_file = other.get_file();
        let same_file = my_file.get_index() == other_file.get_index();
        let one_ahead = my_rank + color.direction() == other_rank;
        let capture = one_ahead && my_file.is_within(other_file, 1) && !same_file;
        if is_attack {
            return capture;
        }
        if let Some(en_passant) = en_passant_square {
            proof {
                use_type_invariant(&en_passant);
            }
            if en_passant == other && capture {
                return true;
            }
        }
        if color == Color::White && my_rank == 1 && other_rank == 3 && same_file {
            return true;
        }
        if color == Color::Black && my_rank == 6 && other_rank == 4 && same_file {
            return true;
        }
        one_ahead && same_file
    }

    /// Is this tile a castling rook's square: a corner of the colour's back
    /// rank?
    pub fn is_rook_square(&self, color: Color) -> (r: bool)
        ensures
            r == self.spec_is_rook_square(color),
    {
        self.0.get_index() == Rank::back_rank(color).get_index() && (self.1.get_index() == 7
            || self.1.get_index() == 0)
    }

    /// Is this tile a castling destination: a tile that the colour's king
    /// moves to when castling?
    pub fn is_castling_destination_for_king(&self, color: Color) -> (r: bool)
        ensures
            r == self.spec_is_castling_destination_for_king(color),
    {
        proof {
            use_type_invariant(self);
        }
        self.0.get_index() == Rank::back_rank(color).get_index() && (self.1.get_index() == 6
            || self.1.get_index() == 2)
    }
}

} // verus!
