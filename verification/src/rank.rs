//! Ranks: the horizontal rows of the board.
use crate::piece::Color;
use vstd::prelude::*;

verus! {

/// A rank is a horizontal row of squares, numbered 0 to 7 from the bottom up.
#[derive(Copy, Clone, Debug, PartialEq, Eq, PartialOrd, Ord, Hash, Structural)]
pub struct Rank(pub(crate) u8);

impl View for Rank {
    type V = int;

    /// The number of the rank, 0 for the bottom rank.
    open(crate) spec fn view(&self) -> int {
        self.0 as int
    }
}

/// The distance that `n` stands for when it is read as a signed byte, as the
/// neighbourhood tests read it.
pub open spec fn signed_byte(n: u8) -> int {
    if n < 128 {
        n as int
    } else {
        n as int - 256
    }
}

/// The distance between two numbers.
pub open spec fn distance(a: int, b: int) -> int {
    if a <= b {
        b - a
    } else {
        a - b
    }
}

impl Rank {
    /// Direction of white pawns.
    pub const WHITE_DIRECTION: i8 = 1;

    /// Direction of black pawns.
    pub const BLACK_DIRECTION: i8 = -1;

    /// Every rank that exists at run time is one of the eight ranks.
    #[verifier::type_invariant]
    pub open(crate) spec fn wf(self) -> bool {
        self.0 < 8
    }

    /// The rank with the given number.
    pub open(crate) spec fn at(n: int) -> Rank {
        Rank(n as u8)
    }

    /// The side of the board that a rank number lies on: the lower four ranks
    /// are white's.
    pub open spec fn side_of(n: int) -> Color {
        if n <= 3 {
            Color::White
        } else {
            Color::Black
        }
    }

    /// The bottom rank, number 0.
    pub fn bottom() -> (r: Rank)
        ensures
            r@ == 0,
    {
        Rank(0)
    }

    /// The top rank, number 7.
    pub fn top() -> (r: Rank)
        ensures
            r@ == 7,
    {
        Rank(7)
    }

    /// The rank that the colour's pieces start on.
    pub fn back_rank(color: Color) -> (r: Rank)
        ensures
            r@ == (if color == Color::White { 0int } else { 7int }),
    {
        match color {
            Color::White => Rank(0),
            Color::Black => Rank(7),
        }
    }

    /// The rank that the colour's pawns start on.
    pub fn pawn_starter(color: Color) -> (r: Rank)
        ensures
            r@ == (if color == Color::White { 1int } else { 6int }),
    {
        match color {
            Color::White => Rank(1),
            Color::Black => Rank(6),
        }
    }

    /// Advance the rank according to the pawn color.
    pub fn advance(&self, color: Color, count: i8) -> (r: Rank)
        requires
            0 <= self@ + color.spec_forward(count as int) <= 7,
        ensures
            r@ == self@ + color.spec_forward(count as int),
    {
        proof {
            use_type_invariant(self);
        }
        let index: i8 = self.0 as i8;
        let result: i8 = match color {
            Color::White => index + count,
            Color::Black => index - count,
        };
        Rank(result as u8)
    }

    /// Get the index of the rank: its number, from 0 to 7.
    pub fn get_index(&self) -> (r: u8)
        ensures
            r == self@,
            r < 8,
    {
        proof {
            use_type_invariant(self);
        }
        self.0
    }

    /// Is this rank within N ranks of the other rank?
    pub fn is_within(&self, other: Rank, n: u8) -> (r: bool)
        ensures
            r == (distance(self@, other@) <= signed_byte(n)),
    {
        proof {
            use_type_invariant(self);
            use_type_invariant(&other);
        }
        let a: i16 = self.0 as i16;
        let b: i16 = other.0 as i16;
        let d: i16 = if a <= b {
            b - a
        } else {
            a - b
        };
        n < 128 && d <= n as i16
    }

    /// Get the player side of the rank: the side of the board that it is on.
    pub fn get_player_side(&self) -> (r: Color)
        ensures
            r == Rank::side_of(self@),
    {
        if self.0 <= 3 {
            Color::White
        } else {
            Color::Black
        }
    }

    /// Create a new rank from a character, which must be a digit from 1 to 8.
    pub fn from_char(c: char) -> (r: Rank)
        requires
            '1' <= c <= '8',
        ensures
            r@ == c as int - '1' as int,
    {
        Rank((c as u32 - '1' as u32) as u8)
    }

    /// Reads a rank from its digit; `None` for any character but `1` to `8`.
    pub fn parse_char(c: char) -> (r: Option<Rank>)
        ensures
            r is Some <==> '1' <= c <= '8',
            r matches Some(rank) ==> rank@ == c as int - '1' as int,
    {
        if '1' <= c && c <= '8' {
            Some(Rank::from_char(c))
        } else {
            None
        }
    }

    /// The digit that names the rank.
    pub fn to_char(&self) -> (c: char)
        ensures
            c as int == self@ + '1' as int,
    {
        proof {
            use_type_invariant(self);
        }
        match self.0 {
            0 => '1',
            1 => '2',
            2 => '3',
            3 => '4',
            4 => '5',
            5 => '6',
            6 => '7',
            _ => '8',
        }
    }

    /// Create a new rank from a number, which must be from 0 to 7.
    pub fn from_index(n: u8) -> (r: Rank)
        requires
            n < 8,
        ensures
            r@ == n,
            r == Rank::at(n as int),
    {
        Rank(n)
    }
}

} // verus!
