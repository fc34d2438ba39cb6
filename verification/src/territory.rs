//! Control of the sectors of the board.
//!
//! A colour controls a sector if the pieces it has there are worth more, in
//! whole pawns, than the other colour's. On equal worth nobody controls the
//! sector.
use crate::bits::{group_bits, member};
use crate::board::Board;
use crate::currency::Currency;
use crate::piece::{Color, PieceType};
use crate::sector::Sector;
use crate::tile::Tile;
use vstd::prelude::*;

verus! {

broadcast use group_bits;

/// The `k`-th tile of a sector, for `k` from 0 to 3: bottom left, bottom
/// right, top left, top right.
pub open spec fn spec_sector_tile(sector: int, k: int) -> Tile {
    Tile::at((sector / 4) * 2 + k / 2, (sector % 4) * 2 + k % 2)
}

/// The `k`-th tile of a sector.
pub fn sector_tile(sector: Sector, k: u8) -> (r: Tile)
    requires
        k < 4,
    ensures
        r == spec_sector_tile(sector@, k as int),
        Sector::of_tile(r) == sector@,
{
    let index = sector.get_index() as u8;
    let rank = (index / 4) * 2 + k / 2;
    let file = (index % 4) * 2 + k % 2;
    Tile::new(crate::rank::Rank::from_index(rank), crate::file::File::from_index(file))
}

/// Return a bitboard with the bits of `board` that lie in the given sector.
pub fn sector_bits(board: u64, sector: Sector) -> (r: u64)
    ensures
        forall|i: u64|
            i < 64 ==> #[trigger] member(r, i) == (member(board, i) && Sector::of_tile(
                Tile::nth(i as int),
            ) == sector@),
{
    let mut result: u64 = 0;
    let mut k: u8 = 0;
    while k < 4
        invariant
            k <= 4,
            forall|i: u64|
                i < 64 ==> #[trigger] member(result, i) == (exists|j: int|
                    0 <= j < k && Tile::nth(i as int) == #[trigger] spec_sector_tile(sector@, j)),
        decreases 4 - k,
    {
        let tile = sector_tile(sector, k);
        let ghost before = result;
        proof {
            use_type_invariant(&tile);
            tile.lemma_index();
        }
        result = result | tile.to_bit();
        proof {
            assert forall|i: u64| i < 64 implies #[trigger] member(result, i) == (exists|j: int|
                0 <= j < k + 1 && Tile::nth(i as int) == #[trigger] spec_sector_tile(sector@, j)) by {
                Tile::lemma_nth(i as int);
                if member(before, i) {
                    let j = choose|j: int|
                        0 <= j < k && Tile::nth(i as int) == #[trigger] spec_sector_tile(
                            sector@,
                            j,
                        );
                    assert(Tile::nth(i as int) == spec_sector_tile(sector@, j));
                }
                if i == tile.spec_pos() {
                    assert(Tile::nth(i as int) == spec_sector_tile(sector@, k as int));
                }
            }
        }
        k = k + 1;
    }
    proof {
        use_type_invariant(&sector);
        assert forall|i: u64| i < 64 implies #[trigger] member(result & board, i) == (member(
            board,
            i,
        ) && Sector::of_tile(Tile::nth(i as int)) == sector@) by {
            Tile::lemma_nth(i as int);
            let tile = Tile::nth(i as int);
            if Sector::of_tile(tile) == sector@ {
                let j = (tile.spec_rank() % 2) * 2 + tile.spec_file() % 2;
                assert(tile == spec_sector_tile(sector@, j));
            }
            if member(result, i) {
                let j = choose|j: int|
                    0 <= j < 4 && Tile::nth(i as int) == #[trigger] spec_sector_tile(sector@, j);
                assert(Sector::of_tile(spec_sector_tile(sector@, j)) == sector@);
            }
        }
    }
    result & board
}

impl PieceType {
    /// The base value of a kind in whole pawns, rounded down.
    pub open spec fn spec_whole_value(self) -> int {
        (self.spec_value_hundredths() / 100) as int
    }

    /// The base value of the kind in whole pawns, rounded down.
    pub fn whole_value(&self) -> (r: i32)
        ensures
            r == self.spec_whole_value(),
            0 <= r <= 100,
    {
        (self.value_hundredths() / 100) as i32
    }
}

impl Board {
    /// The worth, in whole pawns, of what a colour has on a tile.
    pub open spec fn spec_tile_value(self, color: Color, tile: Tile) -> int {
        match self.spec_piece(tile) {
            Some(piece) => if piece.spec_color() == color {
                piece.spec_type().spec_whole_value()
            } else {
                0
            },
            None => 0,
        }
    }

    /// The worth of what a colour has on the first `n` tiles of a sector.
    pub open spec fn spec_sector_sum(self, sector: int, color: Color, n: nat) -> int
        decreases n,
    {
        if n == 0 {
            0
        } else {
            self.spec_sector_sum(sector, color, (n - 1) as nat) + self.spec_tile_value(
                color,
                spec_sector_tile(sector, n - 1),
            )
        }
    }

    /// The worth of what a colour has in a sector.
    pub open spec fn spec_sector_value(self, sector: int, color: Color) -> int {
        self.spec_sector_sum(sector, color, 4)
    }

    /// The colour that controls a sector: the one whose pieces there are
    /// worth more; none on equal worth.
    pub open spec fn spec_who_controls_sector(self, sector: int) -> Option<Color> {
        let white = self.spec_sector_value(sector, Color::White);
        let black = self.spec_sector_value(sector, Color::Black);
        if white > black {
            Some(Color::White)
        } else if black > white {
            Some(Color::Black)
        } else {
            None
        }
    }

    /// For all the sectors on the board, return true if the given color
    /// controls the sector.
    pub fn get_controlled_sectors(&self, color: Color) -> (r: [bool; 16])
        ensures
            forall|sector: int|
                0 <= sector < 16 ==> #[trigger] r@[sector] == (self.spec_who_controls_sector(sector)
                    == Some(color)),
    {
        let mut result = [false;16];
        let mut sector: usize = 0;
        while sector < 16
            invariant
                sector <= 16,
                forall|s: int|
                    0 <= s < sector ==> #[trigger] result@[s] == (self.spec_who_controls_sector(s)
                        == Some(color)),
            decreases 16 - sector,
        {
            let controls = self.controls_sector(Sector::from_index(sector), color);
            result[sector] = controls;
            sector = sector + 1;
        }
        result
    }

    /// Does the given color control the given sector?
    pub fn controls_sector(&self, sector: Sector, color: Color) -> (r: bool)
        ensures
            r == (self.spec_who_controls_sector(sector@) == Some(color)),
    {
        match self.who_controls_sector(sector) {
            Some(owner) => owner == color,
            None => false,
        }
    }

    /// Which color controls the given sector?
    pub fn who_controls_sector(&self, sector: Sector) -> (r: Option<Color>)
        ensures
            r == self.spec_who_controls_sector(sector@),
    {
        let (white_sector_value, black_sector_value) = self.get_sector_values(sector);
        if white_sector_value.get_amount() > black_sector_value.get_amount() {
            Some(Color::White)
        } else if black_sector_value.get_amount() > white_sector_value.get_amount() {
            Some(Color::Black)
        } else {
            None
        }
    }

    /// Get the worth of each player's pieces in a sector: white's first.
    pub fn get_sector_values(&self, sector: Sector) -> (r: (Currency, Currency))
        ensures
            r.0@ == self.spec_sector_value(sector@, Color::White),
            r.1@ == self.spec_sector_value(sector@, Color::Black),
    {
        let mut white_value: i32 = 0;
        let mut black_value: i32 = 0;
        let mut k: u8 = 0;
        while k < 4
            invariant
                k <= 4,
                white_value == self.spec_sector_sum(sector@, Color::White, k as nat),
                black_value == self.spec_sector_sum(sector@, Color::Black, k as nat),
                0 <= white_value <= 100 * k,
                0 <= black_value <= 100 * k,
            decreases 4 - k,
        {
            let tile = sector_tile(sector, k);
            if let Some(piece) = self.get_piece(tile) {
                let value = piece.get_type().whole_value();
                match piece.get_color() {
                    Color::White => {
                        white_value = white_value + value;
                    },
                    Color::Black => {
                        black_value = black_value + value;
                    },
                }
            }
            k = k + 1;
        }
        (Currency::new(white_value), Currency::new(black_value))
    }
}

} // verus!
