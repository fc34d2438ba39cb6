//! The tiles that a piece might try to move to, before any rule is applied.
//!
//! The order of each list is part of its meaning: move generation walks the
//! lists front to back, and the order of the moves it returns follows.
use crate::file::File;
use crate::piece::{Color, Piece, PieceType};
use crate::rank::Rank;
use crate::tile::Tile;
use vstd::prelude::*;

verus! {

/// Appends to `list` the tile at the given offset from `from`, if there is
/// one.
fn push_step(list: &mut Vec<Tile>, from: Tile, rank: i8, file: i8)
    ensures
        final(list)@ == old(list)@ + from.spec_step(rank as int, file as int),
{
    match from.move_by(rank, file) {
        Some(tile) => {
            list.push(tile);
            assert(list@ =~= old(list)@ + from.spec_step(rank as int, file as int));
        },
        None => {
            assert(list@ =~= old(list)@ + from.spec_step(rank as int, file as int));
        },
    }
}

/// Appends `more` to `list`.
fn push_all(list: &mut Vec<Tile>, more: &Vec<Tile>)
    ensures
        final(list)@ == old(list)@ + more@,
{
    let mut i: usize = 0;
    while i < more.len()
        invariant
            i <= more@.len(),
            list@ == old(list)@ + more@.subrange(0, i as int),
        decreases more@.len() - i,
    {
        list.push(more[i]);
        i = i + 1;
        assert(list@ =~= old(list)@ + more@.subrange(0, i as int));
    }
    assert(more@.subrange(0, i as int) =~= more@);
}

/// A value is in two lists put together exactly when it is in one of them.
pub proof fn lemma_contains_add<A>(a: Seq<A>, b: Seq<A>, x: A)
    ensures
        (a + b).contains(x) == (a.contains(x) || b.contains(x)),
{
    if a.contains(x) {
        let i = choose|i: int| 0 <= i < a.len() && a[i] == x;
        assert((a + b)[i] == x);
    }
    if b.contains(x) {
        let i = choose|i: int| 0 <= i < b.len() && b[i] == x;
        assert((a + b)[a.len() + i] == x);
    }
    if (a + b).contains(x) {
        let i = choose|i: int| 0 <= i < (a + b).len() && (a + b)[i] == x;
        if i < a.len() {
            assert(a[i] == x);
        } else {
            assert(b[i - a.len()] == x);
        }
    }
}

impl Tile {
    /// The tile at an offset from this one, as a list of one, or the empty
    /// list where the offset leaves the board.
    pub open spec fn spec_step(self, rank: int, file: int) -> Seq<Tile> {
        if self.spec_offset_in_board(rank, file) {
            seq![self.spec_offset(rank, file)]
        } else {
            Seq::empty()
        }
    }

    /// The tiles a pawn might try: the two diagonally ahead, the one straight
    /// ahead and, from either pawn starting rank, the one two ranks ahead.
    pub open spec fn spec_pawn_moves(self, color: Color) -> Seq<Tile> {
        let d = color.spec_direction();
        self.spec_step(d, 1) + self.spec_step(d, -1) + self.spec_step(d, 0) + (if self.spec_rank()
            == 1 || self.spec_rank() == 6 {
            self.spec_step(2 * d, 0)
        } else {
            Seq::empty()
        })
    }

    /// The eight tiles a knight's jump away, as far as they are on the board.
    pub open spec fn spec_knight_moves(self) -> Seq<Tile> {
        self.spec_step(2, 1) + self.spec_step(2, -1) + self.spec_step(-2, 1) + self.spec_step(
            -2,
            -1,
        ) + self.spec_step(1, 2) + self.spec_step(1, -2) + self.spec_step(-1, 2) + self.spec_step(
            -1,
            -2,
        )
    }

    /// The eight tiles next to this one, as far as they are on the board.
    pub open spec fn spec_king_moves(self) -> Seq<Tile> {
        self.spec_step(1, 1) + self.spec_step(1, -1) + self.spec_step(-1, 1) + self.spec_step(
            -1,
            -1,
        ) + self.spec_step(1, 0) + self.spec_step(-1, 0) + self.spec_step(0, 1) + self.spec_step(
            0,
            -1,
        )
    }

    /// The eight tiles of this tile's file, from the bottom rank up.
    pub open spec fn spec_rank_tiles(self) -> Seq<Tile> {
        Seq::new(8, |r: int| Tile::at(r, self.spec_file()))
    }

    /// The eight tiles of this tile's rank, from the left file on.
    pub open spec fn spec_file_tiles(self) -> Seq<Tile> {
        Seq::new(8, |f: int| Tile::at(self.spec_rank(), f))
    }

    /// The tiles numbered under `n` that are diagonal to this one, in the
    /// order of their numbers.
    pub open spec fn spec_diagonal_prefix(self, n: nat) -> Seq<Tile>
        decreases n,
    {
        if n == 0 {
            Seq::empty()
        } else {
            let rest = self.spec_diagonal_prefix((n - 1) as nat);
            if self.spec_is_diagonal_to(Tile::nth(n - 1)) {
                rest.push(Tile::nth(n - 1))
            } else {
                rest
            }
        }
    }

    /// All the tiles diagonal to this one, itself among them, in the order of
    /// their numbers.
    pub open spec fn spec_diagonal_tiles(self) -> Seq<Tile> {
        self.spec_diagonal_prefix(64)
    }

    /// The tiles that a piece on this tile might try to move to.
    pub open spec fn spec_moves(self, piece: Piece) -> Seq<Tile> {
        match piece.spec_type() {
            PieceType::Pawn => self.spec_pawn_moves(piece.spec_color()),
            PieceType::Knight => self.spec_knight_moves(),
            PieceType::Bishop => self.spec_diagonal_tiles(),
            PieceType::Rook => self.spec_rank_tiles() + self.spec_file_tiles(),
            PieceType::Queen => self.spec_rank_tiles() + self.spec_file_tiles()
                + self.spec_diagonal_tiles(),
            PieceType::King => self.spec_king_moves(),
        }
    }

    /// A step that stays on the board is the list of the one tile it leads
    /// to.
    pub proof fn lemma_step(self, to: Tile)
        requires
            self.wf(),
            to.wf(),
        ensures
            self.spec_step(
                to.spec_rank() - self.spec_rank(),
                to.spec_file() - self.spec_file(),
            ).contains(to),
    {
        to.lemma_index();
        let step = self.spec_step(
            to.spec_rank() - self.spec_rank(),
            to.spec_file() - self.spec_file(),
        );
        assert(step[0] == to);
    }

    /// Every tile that is diagonal to this one is among the tiles numbered
    /// under `n` that are, once `n` exceeds its number.
    pub proof fn lemma_diagonal_prefix(self, to: Tile, n: nat)
        requires
            to.wf(),
            self.spec_is_diagonal_to(to),
            to.spec_index() < n <= 64,
        ensures
            self.spec_diagonal_prefix(n).contains(to),
        decreases n,
    {
        to.lemma_index();
        let rest = self.spec_diagonal_prefix((n - 1) as nat);
        if to.spec_index() == n - 1 {
            assert(rest.push(to)[rest.len() as int] == to);
        } else {
            self.lemma_diagonal_prefix(to, (n - 1) as nat);
            let i = choose|i: int| 0 <= i < rest.len() && rest[i] == to;
            if self.spec_is_diagonal_to(Tile::nth(n - 1)) {
                assert(rest.push(Tile::nth(n - 1))[i] == to);
            }
        }
    }

    /// Every tile but its own that the kind of a piece lets it go to from
    /// this tile is among the tiles that the piece might try.
    pub proof fn lemma_moves_hold(
        self,
        piece: Piece,
        to: Tile,
        is_attack: bool,
        en_passant: Option<Tile>,
    )
        requires
            self.wf(),
            to.wf(),
            to != self,
            piece.spec_can_move(self, to, is_attack, en_passant),
        ensures
            self.spec_moves(piece).contains(to),
    {
        self.lemma_index();
        to.lemma_index();
        self.lemma_same(to);
        self.lemma_step(to);
        let rank = to.spec_rank() - self.spec_rank();
        let file = to.spec_file() - self.spec_file();
        let step = self.spec_step(rank, file);
        match piece.spec_type() {
            PieceType::Pawn => {
                let d = piece.spec_color().spec_direction();
                let a = self.spec_step(d, 1);
                let b = a + self.spec_step(d, -1);
                let c = b + self.spec_step(d, 0);
                let last = if self.spec_rank() == 1 || self.spec_rank() == 6 {
                    self.spec_step(2 * d, 0)
                } else {
                    Seq::empty()
                };
                lemma_contains_add(a, self.spec_step(d, -1), to);
                lemma_contains_add(b, self.spec_step(d, 0), to);
                lemma_contains_add(c, last, to);
            },
            PieceType::Knight => {
                let a = self.spec_step(2, 1);
                let b = a + self.spec_step(2, -1);
                let c = b + self.spec_step(-2, 1);
                let d = c + self.spec_step(-2, -1);
                let e = d + self.spec_step(1, 2);
                let f = e + self.spec_step(1, -2);
                let g = f + self.spec_step(-1, 2);
                lemma_contains_add(a, self.spec_step(2, -1), to);
                lemma_contains_add(b, self.spec_step(-2, 1), to);
                lemma_contains_add(c, self.spec_step(-2, -1), to);
                lemma_contains_add(d, self.spec_step(1, 2), to);
                lemma_contains_add(e, self.spec_step(1, -2), to);
                lemma_contains_add(f, self.spec_step(-1, 2), to);
                lemma_contains_add(g, self.spec_step(-1, -2), to);
            },
            PieceType::King => {
                let a = self.spec_step(1, 1);
                let b = a + self.spec_step(1, -1);
                let c = b + self.spec_step(-1, 1);
                let d = c + self.spec_step(-1, -1);
                let e = d + self.spec_step(1, 0);
                let f = e + self.spec_step(-1, 0);
                let g = f + self.spec_step(0, 1);
                lemma_contains_add(a, self.spec_step(1, -1), to);
                lemma_contains_add(b, self.spec_step(-1, 1), to);
                lemma_contains_add(c, self.spec_step(-1, -1), to);
                lemma_contains_add(d, self.spec_step(1, 0), to);
                lemma_contains_add(e, self.spec_step(-1, 0), to);
                lemma_contains_add(f, self.spec_step(0, 1), to);
                lemma_contains_add(g, self.spec_step(0, -1), to);
            },
            PieceType::Bishop => {
                self.lemma_diagonal_prefix(to, 64);
            },
            PieceType::Rook => {
                self.lemma_lines_hold(to);
            },
            PieceType::Queen => {
                if self.spec_is_rook_move_away(to) {
                    self.lemma_lines_hold(to);
                } else {
                    self.lemma_diagonal_prefix(to, 64);
                }
                lemma_contains_add(
                    self.spec_rank_tiles() + self.spec_file_tiles(),
                    self.spec_diagonal_tiles(),
                    to,
                );
            },
        }
    }

    /// Every tile on the rank or the file of this tile is among the tiles of
    /// its file and of its rank.
    pub proof fn lemma_lines_hold(self, to: Tile)
        requires
            self.wf(),
            to.wf(),
            self.spec_is_rook_move_away(to),
        ensures
            (self.spec_rank_tiles() + self.spec_file_tiles()).contains(to),
    {
        self.lemma_index();
        to.lemma_index();
        if self.spec_file() == to.spec_file() {
            assert(self.spec_rank_tiles()[to.spec_rank()] == to);
        } else {
            assert(self.spec_file_tiles()[to.spec_file()] == to);
        }
        lemma_contains_add(self.spec_rank_tiles(), self.spec_file_tiles(), to);
    }

    /// All the tiles along the diagonals from this tile.
    pub fn diagonal_tiles(&self) -> (r: Vec<Tile>)
        ensures
            r@ == self.spec_diagonal_tiles(),
    {
        let mut list: Vec<Tile> = Vec::new();
        let mut n: u8 = 0;
        while n < 64
            invariant
                n <= 64,
                list@ == self.spec_diagonal_prefix(n as nat),
            decreases 64 - n,
        {
            let tile = Tile::from_nth(n);
            if self.is_diagonal_to(tile) {
                list.push(tile);
            }
            n = n + 1;
        }
        list
    }

    /// All the tiles on the same file as this tile, from the bottom rank up.
    pub fn rank_tiles(&self) -> (r: Vec<Tile>)
        ensures
            r@ == self.spec_rank_tiles(),
    {
        let file = self.get_file();
        let mut list: Vec<Tile> = Vec::new();
        let mut n: u8 = 0;
        while n < 8
            invariant
                n <= 8,
                file@ == self.spec_file(),
                list@.len() == n,
                forall|i: int| 0 <= i < n ==> list@[i] == Tile::at(i, self.spec_file()),
            decreases 8 - n,
        {
            list.push(Tile::new(Rank::from_index(n), file));
            n = n + 1;
        }
        assert(list@ =~= self.spec_rank_tiles());
        list
    }

    /// All the tiles on the same rank as this tile, from the left file on.
    pub fn file_tiles(&self) -> (r: Vec<Tile>)
        ensures
            r@ == self.spec_file_tiles(),
    {
        let rank = self.get_rank();
        let mut list: Vec<Tile> = Vec::new();
        let mut n: u8 = 0;
        while n < 8
            invariant
                n <= 8,
                rank@ == self.spec_rank(),
                list@.len() == n,
                forall|i: int| 0 <= i < n ==> list@[i] == Tile::at(self.spec_rank(), i),
            decreases 8 - n,
        {
            list.push(Tile::new(rank, File::from_index(n)));
            n = n + 1;
        }
        assert(list@ =~= self.spec_file_tiles());
        list
    }

    /// The possible tiles a piece might try to move to from this tile.
    pub fn get_moves(&self, piece: Piece) -> (r: Vec<Tile>)
        ensures
            r@ == self.spec_moves(piece),
    {
        match piece.get_type() {
            PieceType::Pawn => self.pawn_moves(piece.get_color()),
            PieceType::Knight => self.knight_moves(),
            PieceType::Bishop => self.bishop_moves(),
            PieceType::Rook => self.rook_moves(),
            PieceType::Queen => self.queen_moves(),
            PieceType::King => self.king_moves(),
        }
    }

    /// The possible tiles a pawn might try to move to from this tile.
    pub fn pawn_moves(&self, color: Color) -> (r: Vec<Tile>)
        ensures
            r@ == self.spec_pawn_moves(color),
    {
        proof {
            use_type_invariant(self);
        }
        let direction = color.direction();
        let rank = self.get_rank().get_index();
        let mut list: Vec<Tile> = Vec::new();
        assert(list@ =~= Seq::empty());
        push_step(&mut list, *self, direction, 1);
        push_step(&mut list, *self, direction, -1);
        push_step(&mut list, *self, direction, 0);
        if rank == 1 || rank == 6 {
            push_step(&mut list, *self, direction * 2, 0);
        }
        assert(list@ =~= self.spec_pawn_moves(color));
        list
    }

    /// The possible tiles a knight might try to move to from this tile.
    pub fn knight_moves(&self) -> (r: Vec<Tile>)
        ensures
            r@ == self.spec_knight_moves(),
    {
        let mut list: Vec<Tile> = Vec::new();
        assert(list@ =~= Seq::empty());
        push_step(&mut list, *self, 2, 1);
        push_step(&mut list, *self, 2, -1);
        push_step(&mut list, *self, -2, 1);
        push_step(&mut list, *self, -2, -1);
        push_step(&mut list, *self, 1, 2);
        push_step(&mut list, *self, 1, -2);
        push_step(&mut list, *self, -1, 2);
        push_step(&mut list, *self, -1, -2);
        assert(list@ =~= self.spec_knight_moves());
        list
    }

    /// The possible tiles a bishop might try to move to from this tile.
    pub fn bishop_moves(&self) -> (r: Vec<Tile>)
        ensures
            r@ == self.spec_diagonal_tiles(),
    {
        self.diagonal_tiles()
    }

    /// The possible tiles a rook might try to move to from this tile.
    pub fn rook_moves(&self) -> (r: Vec<Tile>)
        ensures
            r@ == self.spec_rank_tiles() + self.spec_file_tiles(),
    {
        let mut list = self.rank_tiles();
        let files = self.file_tiles();
        push_all(&mut list, &files);
        list
    }

    /// The possible tiles a queen might try to move to from this tile.
    pub fn queen_moves(&self) -> (r: Vec<Tile>)
        ensures
            r@ == self.spec_rank_tiles() + self.spec_file_tiles() + self.spec_diagonal_tiles(),
    {
        let mut list = self.rook_moves();
        let diagonals = self.diagonal_tiles();
        push_all(&mut list, &diagonals);
        list
    }

    /// The possible tiles a king might try to move to from this tile.
    pub fn king_moves(&self) -> (r: Vec<Tile>)
        ensures
            r@ == self.spec_king_moves(),
    {
        let mut list: Vec<Tile> = Vec::new();
        assert(list@ =~= Seq::empty());
        push_step(&mut list, *self, 1, 1);
        push_step(&mut list, *self, 1, -1);
        push_step(&mut list, *self, -1, 1);
        push_step(&mut list, *self, -1, -1);
        push_step(&mut list, *self, 1, 0);
        push_step(&mut list, *self, -1, 0);
        push_step(&mut list, *self, 0, 1);
        push_step(&mut list, *self, 0, -1);
        assert(list@ =~= self.spec_king_moves());
        list
    }
}

} // verus!
