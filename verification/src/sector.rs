//! Sectors: the sixteen 2x2 blocks that partition the board.
use crate::piece::Color;
use crate::tile::Tile;
use vstd::prelude::*;

verus! {

/// A sector is a 2x2 block of squares. The board is divided into 16 sectors,
/// numbered 0 to 15 from the bottom left to the top right.
#[derive(Copy, Clone, Debug, PartialEq, Eq, Structural)]
pub struct Sector(pub(crate) u8);

impl View for Sector {
    type V = int;

    /// The number of the sector.
    open(crate) spec fn view(&self) -> int {
        self.0 as int
    }
}

impl Sector {
    /// This is the largest number that a sector can be.
    pub const MAX_SECTOR_NUMBER: u8 = 0xF;

    /// This is the smallest number that a sector can be.
    pub const MIN_SECTOR_NUMBER: u8 = 0x0;

    /// The number of sectors.
    pub const NUM_SECTORS: usize = 16;

    /// Every sector that exists at run time is one of the sixteen.
    #[verifier::type_invariant]
    pub open(crate) spec fn wf(self) -> bool {
        self.0 < 16
    }

    /// The sector with the given number.
    pub open(crate) spec fn at(n: int) -> Sector {
        Sector(n as u8)
    }

    /// The number of the sector that a tile lies in.
    pub open spec fn of_tile(tile: Tile) -> int {
        (tile.spec_rank() / 2) * 4 + tile.spec_file() / 2
    }

    /// Whether a sector number names one of the four sectors in the middle of
    /// the board.
    pub open spec fn spec_is_center(n: int) -> bool {
        n == 5 || n == 6 || n == 9 || n == 10
    }

    /// Whether a sector number names one of the four sectors on the colour's
    /// own edge of the board.
    pub open spec fn spec_is_home_for(n: int, color: Color) -> bool {
        match color {
            Color::White => n <= 3,
            Color::Black => n >= 12,
        }
    }

    /// Get a sector from its index. Only the low byte of the index is read,
    /// and it must be a sector's number.
    pub fn from_index(index: usize) -> (r: Sector)
        requires
            index % 256 <= 15,
        ensures
            r@ == index % 256,
            r == Sector::at((index % 256) as int),
    {
        Sector((index % 256) as u8)
    }

    /// Get the index of the sector.
    pub fn get_index(&self) -> (r: usize)
        ensures
            r == self@,
            r < 16,
    {
        proof {
            use_type_invariant(self);
        }
        self.0 as usize
    }

    /// Get the sector that a tile lies in.
    pub fn new(tile: Tile) -> (r: Sector)
        ensures
            r@ == Sector::of_tile(tile),
    {
        tile.get_sector()
    }

    /// Is this sector one of the 4 center sectors?
    pub fn is_center(&self) -> (r: bool)
        ensures
            r == Sector::spec_is_center(self@),
    {
        self.0 == 5 || self.0 == 6 || self.0 == 9 || self.0 == 10
    }

    /// Is this sector one of the 12 outer sectors?
    pub fn is_outer(&self) -> (r: bool)
        ensures
            r == !Sector::spec_is_center(self@),
    {
        !self.is_center()
    }

    /// All the sectors, in the order of their numbers.
    pub fn all() -> (r: Vec<Sector>)
        ensures
            r@.len() == 16,
            forall|i: int| 0 <= i < 16 ==> r@[i]@ == i,
    {
        let mut r: Vec<Sector> = Vec::new();
        let mut n: usize = 0;
        while n < 16
            invariant
                n <= 16,
                r@.len() == n,
                forall|i: int| 0 <= i < n ==> r@[i]@ == i,
            decreases 16 - n,
        {
            r.push(Sector::from_index(n));
            n = n + 1;
        }
        r
    }

    /// Is this sector one of the home sectors for the given color?
    pub fn is_home_for(&self, color: Color) -> (r: bool)
        ensures
            r == Sector::spec_is_home_for(self@, color),
    {
        match color {
            Color::White => self.0 <= 3,
            Color::Black => self.0 >= 12,
        }
    }
}

} // verus!
