//! Sets of tiles, kept as one bit per tile.
use crate::bits::{
    count, count_ones, group_bits, lemma_count_is_len, lemma_zero_iff_empty, member, squares,
};
use crate::tile::Tile;
use vstd::prelude::*;
use vstd::relations::injective_on;
use vstd::set_lib::lemma_map_size;

verus! {

broadcast use group_bits;

/// A tile set is a set of tiles. This is used to do bitwise operations on
/// tiles.
#[derive(Copy, Clone, Debug, PartialEq, Eq)]
pub struct TileSet(pub(crate) u64);

impl View for TileSet {
    type V = Set<Tile>;

    /// The tiles of the set.
    open spec fn view(&self) -> Set<Tile> {
        Set::new(|tile: Tile| tile.wf() && member(self.spec_bits(), tile.spec_pos()))
    }
}

impl TileSet {
    /// The mask of the set: bit `i` is set if tile `i` is in the set.
    pub open(crate) spec fn spec_bits(self) -> u64 {
        self.0
    }

    /// The tiles of the set numbered under `n`, in the order of their
    /// numbers.
    pub open spec fn spec_tiles(self, n: nat) -> Seq<Tile>
        decreases n,
    {
        if n == 0 {
            Seq::empty()
        } else {
            let rest = self.spec_tiles((n - 1) as nat);
            if member(self.spec_bits(), (n - 1) as u64) {
                rest.push(Tile::nth(n - 1))
            } else {
                rest
            }
        }
    }

    /// The empty set.
    pub fn new() -> (r: TileSet)
        ensures
            r@ == Set::<Tile>::empty(),
            r.spec_bits() == 0,
    {
        let r = TileSet(0);
        assert(r@ =~= Set::<Tile>::empty()) by {
            assert forall|tile: Tile| !r@.contains(tile) by {
                if tile.wf() {
                    tile.lemma_index();
                }
            }
        }
        r
    }

    /// Puts a tile into the set.
    pub fn insert(&mut self, tile: Tile)
        ensures
            final(self)@ == old(self)@.insert(tile),
    {
        proof {
            use_type_invariant(&tile);
            tile.lemma_index();
        }
        self.0 = self.0 | tile.to_bit();
        proof {
            assert forall|other: Tile| self@.contains(other) == old(self)@.insert(tile).contains(
                other,
            ) by {
                if other.wf() {
                    other.lemma_index();
                    tile.lemma_same(other);
                }
            }
            assert(self@ =~= old(self)@.insert(tile));
        }
    }

    /// Takes a tile out of the set.
    pub fn remove(&mut self, tile: Tile)
        ensures
            final(self)@ == old(self)@.remove(tile),
    {
        proof {
            use_type_invariant(&tile);
            tile.lemma_index();
        }
        self.0 = self.0 & !tile.to_bit();
        proof {
            assert forall|other: Tile| self@.contains(other) == old(self)@.remove(tile).contains(
                other,
            ) by {
                if other.wf() {
                    other.lemma_index();
                    tile.lemma_same(other);
                }
            }
            assert(self@ =~= old(self)@.remove(tile));
        }
    }

    /// Whether the set holds a tile.
    pub fn contains(&self, tile: Tile) -> (r: bool)
        ensures
            r == self@.contains(tile),
    {
        proof {
            use_type_invariant(&tile);
            tile.lemma_index();
        }
        self.0 & tile.to_bit() != 0
    }

    /// Whether the set holds no tile.
    pub fn is_empty(&self) -> (r: bool)
        ensures
            r == (self@ == Set::<Tile>::empty()),
    {
        proof {
            lemma_zero_iff_empty(self.0);
            if self.0 == 0 {
                assert forall|tile: Tile| !self@.contains(tile) by {
                    if tile.wf() {
                        tile.lemma_index();
                    }
                }
                assert(self@ =~= Set::<Tile>::empty());
            } else {
                let i = choose|i: u64| i < 64 && member(self.0, i);
                Tile::lemma_nth(i as int);
                assert(self@.contains(Tile::nth(i as int)));
            }
        }
        self.0 == 0
    }

    /// The tiles of a set are as many as the bits that are set in its mask.
    pub proof fn lemma_len(self)
        ensures
            self@.finite(),
            self@.len() == count(self.spec_bits()),
    {
        let numbers = squares(self.spec_bits());
        let tile_of = |i: int| Tile::nth(i);
        lemma_count_is_len(self.spec_bits());
        assert(injective_on(tile_of, numbers)) by {
            assert forall|a: int, b: int|
                numbers.contains(a) && numbers.contains(b) && #[trigger] tile_of(a)
                    == #[trigger] tile_of(b) implies a == b by {
                Tile::lemma_nth(a);
                Tile::lemma_nth(b);
            }
        }
        assert(numbers.map(tile_of) =~= self@) by {
            assert forall|tile: Tile| numbers.map(tile_of).contains(tile) == self@.contains(
                tile,
            ) by {
                if self@.contains(tile) {
                    tile.lemma_index();
                    assert(numbers.contains(tile.spec_index()));
                    assert(tile_of(tile.spec_index()) == tile);
                }
                if numbers.map(tile_of).contains(tile) {
                    let i = choose|i: int| numbers.contains(i) && tile == tile_of(i);
                    Tile::lemma_nth(i);
                }
            }
        }
        lemma_map_size(numbers, self@, tile_of);
    }

    /// The number of tiles in the set.
    pub fn len(&self) -> (r: usize)
        ensures
            self@.finite(),
            r == self@.len(),
            r <= 64,
    {
        proof {
            self.lemma_len();
        }
        count_ones(self.0) as usize
    }

    /// The tiles of the set, in the order of their numbers.
    pub fn into_iter(self) -> (r: Vec<Tile>)
        ensures
            r@ == self.spec_tiles(64),
    {
        let mut tiles: Vec<Tile> = Vec::new();
        let mut n: u8 = 0;
        while n < 64
            invariant
                n <= 64,
                tiles@ == self.spec_tiles(n as nat),
            decreases 64 - n,
        {
            if self.0 & (1u64 << n) != 0 {
                tiles.push(Tile::from_nth(n));
            }
            n = n + 1;
        }
        tiles
    }
}

} // verus!
