//! Lines of sight, attack sets and check.
use crate::bits::{group_bits, lemma_clear_lowers, lemma_meet, member};
use crate::board::Board;
use crate::piece::{Color, Piece, PieceType};
use crate::tile::Tile;
use vstd::prelude::*;

verus! {

broadcast use group_bits;

/// Whether a piece stands strictly between `from` and `to`, on the path that
/// steps from `from` towards `to` one rank and one file at a time.
pub open spec fn spec_is_blocked(board: u64, from: Tile, to: Tile) -> bool {
    exists|k: int|
        1 <= k < from.spec_distance(to) && #[trigger] member(
            board,
            from.spec_path(to, k).spec_pos(),
        )
}

/// Whether a piece of the given kind and colour on `from` attacks `to` when
/// the squares of `occupied` are taken: `to` must be in the kind's reach, and
/// for every kind but the knight the path to it must be free.
pub open spec fn spec_reaches(
    piece_type: PieceType,
    color: Color,
    from: Tile,
    to: Tile,
    occupied: u64,
) -> bool {
    from.spec_attacks(piece_type, color, to) && (piece_type == PieceType::Knight
        || !spec_is_blocked(occupied, from, to))
}

/// Whether some piece of the given kind and colour among `pieces` attacks
/// `to`.
pub open spec fn spec_reached_from(
    pieces: u64,
    piece_type: PieceType,
    color: Color,
    to: Tile,
    occupied: u64,
) -> bool {
    exists|j: u64|
        j < 64 && #[trigger] member(pieces, j) && spec_reaches(
            piece_type,
            color,
            Tile::nth(j as int),
            to,
            occupied,
        )
}

/// The path between two tiles stays on the board, advances by single steps,
/// and arrives after as many steps as the tiles are apart.
pub proof fn lemma_path(from: Tile, to: Tile, k: int)
    requires
        from.wf(),
        to.wf(),
        0 <= k,
    ensures
        from.spec_path(to, k).wf(),
        from.spec_path(to, 0) == from,
        from.spec_path(to, k).spec_path(to, 1) == from.spec_path(to, k + 1),
        from.spec_path(to, k) == to <==> k >= from.spec_distance(to),
        0 <= from.spec_distance(to) <= 7,
        k >= 1 && from.spec_path(to, k) == from ==> from == to,
{
}

/// Is the path from a source tile to a target tile blocked?
pub fn is_blocked(board: u64, from: Tile, to: Tile) -> (r: bool)
    ensures
        r == spec_is_blocked(board, from, to),
{
    proof {
        use_type_invariant(&from);
        use_type_invariant(&to);
        lemma_path(from, to, 0);
    }
    let mut tile = from;
    let mut steps: u8 = 0;
    while steps < 8
        invariant
            steps <= 8,
            from.wf(),
            to.wf(),
            tile == from.spec_path(to, steps as int),
            steps > 0 ==> steps < from.spec_distance(to),
            forall|k: int|
                1 <= k <= steps ==> !#[trigger] member(board, from.spec_path(to, k).spec_pos()),
        decreases 8 - steps,
    {
        proof {
            lemma_path(from, to, steps as int);
            lemma_path(from, to, steps as int + 1);
        }
        tile.step_towards(to);
        steps = steps + 1;
        if tile == from {
            assert(from == to);
            assert(!spec_is_blocked(board, from, to));
            return false;
        }
        if tile == to {
            assert(!spec_is_blocked(board, from, to));
            return false;
        }
        proof {
            tile.lemma_index();
        }
        if board & tile.to_bit() != 0 {
            assert(member(board, from.spec_path(to, steps as int).spec_pos()));
            return true;
        }
    }
    false
}

/// Restrict an attack to visible squares only: of the squares of `vision`,
/// those whose path from `origin` is free of the pieces of `all_pieces`.
pub fn visible_pieces(all_pieces: u64, origin: Tile, vision: u64) -> (r: u64)
    ensures
        forall|i: u64|
            i < 64 ==> #[trigger] member(r, i) == (member(vision, i) && !spec_is_blocked(
                all_pieces,
                origin,
                Tile::nth(i as int),
            )),
{
    let mut result: u64 = 0;
    let mut rest: u64 = vision;
    while rest != 0
        invariant
            forall|i: u64| i < 64 && #[trigger] member(rest, i) ==> member(vision, i),
            forall|i: u64|
                i < 64 ==> #[trigger] member(result, i) == (member(vision, i) && !member(rest, i)
                    && !spec_is_blocked(all_pieces, origin, Tile::nth(i as int))),
        decreases rest,
    {
        let tile = Tile::from_bit(rest);
        proof {
            use_type_invariant(&tile);
            tile.lemma_index();
            lemma_clear_lowers(rest, tile.spec_pos());
        }
        rest = rest & !tile.to_bit();
        if !is_blocked(all_pieces, origin, tile) {
            result = result | tile.to_bit();
        }
    }
    proof {
        crate::bits::lemma_zero_iff_empty(rest);
    }
    result
}

/// The squares that the pieces of `pieces`, all of one kind and colour,
/// attack when the squares of `occupied` are taken.
pub fn attacks_of(pieces: u64, piece_type: PieceType, color: Color, occupied: u64) -> (r: u64)
    ensures
        forall|i: u64|
            i < 64 ==> #[trigger] member(r, i) == spec_reached_from(
                pieces,
                piece_type,
                color,
                Tile::nth(i as int),
                occupied,
            ),
{
    let mut result: u64 = 0;
    let mut rest: u64 = pieces;
    while rest != 0
        invariant
            forall|j: u64| j < 64 && #[trigger] member(rest, j) ==> member(pieces, j),
            forall|i: u64|
                i < 64 ==> #[trigger] member(result, i) == (exists|j: u64|
                    j < 64 && #[trigger] member(pieces, j) && !member(rest, j) && spec_reaches(
                        piece_type,
                        color,
                        Tile::nth(j as int),
                        Tile::nth(i as int),
                        occupied,
                    )),
        decreases rest,
    {
        let tile = Tile::from_bit(rest);
        let ghost before = rest;
        let ghost so_far = result;
        proof {
            use_type_invariant(&tile);
            tile.lemma_index();
            lemma_clear_lowers(rest, tile.spec_pos());
        }
        let raw = tile.attacking_bits(piece_type, color);
        let seen = match piece_type {
            PieceType::Knight => raw,
            _ => visible_pieces(occupied, tile, raw),
        };
        rest = rest & !tile.to_bit();
        result = result | seen;
        proof {
            let k = tile.spec_pos();
            assert forall|i: u64| i < 64 implies #[trigger] member(result, i) == (exists|j: u64|
                j < 64 && #[trigger] member(pieces, j) && !member(rest, j) && spec_reaches(
                    piece_type,
                    color,
                    Tile::nth(j as int),
                    Tile::nth(i as int),
                    occupied,
                )) by {
                let target = Tile::nth(i as int);
                assert(member(seen, i) == spec_reaches(piece_type, color, tile, target, occupied));
                if member(so_far, i) {
                    let j = choose|j: u64|
                        j < 64 && #[trigger] member(pieces, j) && !member(before, j)
                            && spec_reaches(
                            piece_type,
                            color,
                            Tile::nth(j as int),
                            target,
                            occupied,
                        );
                    assert(member(pieces, j) && !member(rest, j));
                }
                if member(seen, i) {
                    assert(member(pieces, k) && !member(rest, k));
                }
                if exists|j: u64|
                    j < 64 && #[trigger] member(pieces, j) && !member(rest, j) && spec_reaches(
                        piece_type,
                        color,
                        Tile::nth(j as int),
                        target,
                        occupied,
                    ) {
                    let j = choose|j: u64|
                        j < 64 && #[trigger] member(pieces, j) && !member(rest, j) && spec_reaches(
                            piece_type,
                            color,
                            Tile::nth(j as int),
                            target,
                            occupied,
                        );
                    if j != k {
                        assert(member(pieces, j) && !member(before, j));
                    }
                }
            }
        }
    }
    proof {
        crate::bits::lemma_zero_iff_empty(rest);
        assert forall|i: u64| i < 64 implies #[trigger] member(result, i) == spec_reached_from(
            pieces,
            piece_type,
            color,
            Tile::nth(i as int),
            occupied,
        ) by {
            let target = Tile::nth(i as int);
            if member(result, i) {
                let j = choose|j: u64|
                    j < 64 && #[trigger] member(pieces, j) && !member(rest, j) && spec_reaches(
                        piece_type,
                        color,
                        Tile::nth(j as int),
                        target,
                        occupied,
                    );
                assert(member(pieces, j));
            }
            if spec_reached_from(pieces, piece_type, color, target, occupied) {
                let j = choose|j: u64|
                    j < 64 && #[trigger] member(pieces, j) && spec_reaches(
                        piece_type,
                        color,
                        Tile::nth(j as int),
                        target,
                        occupied,
                    );
                assert(member(pieces, j) && !member(rest, j));
            }
        }
    }
    result
}

impl Board {
    /// Whether some piece of the colour, of the given kind, attacks `target`.
    pub open spec fn spec_kind_attacks(
        self,
        piece_type: PieceType,
        color: Color,
        target: Tile,
    ) -> bool {
        spec_reached_from(
            self.spec_mask(Piece::of(piece_type, color)),
            piece_type,
            color,
            target,
            self.spec_all_bits(),
        )
    }

    /// Whether some piece of the colour attacks `target`: the tile is in the
    /// piece's reach and, unless the piece is a knight, no piece of either
    /// colour stands on the path between them.
    pub open spec fn spec_attacks(self, color: Color, target: Tile) -> bool {
        ||| self.spec_kind_attacks(PieceType::Pawn, color, target)
        ||| self.spec_kind_attacks(PieceType::Knight, color, target)
        ||| self.spec_kind_attacks(PieceType::Bishop, color, target)
        ||| self.spec_kind_attacks(PieceType::Rook, color, target)
        ||| self.spec_kind_attacks(PieceType::Queen, color, target)
        ||| self.spec_kind_attacks(PieceType::King, color, target)
    }

    /// Whether `mask` holds exactly the squares that the colour attacks.
    pub open spec fn spec_is_attack_set(self, mask: u64, color: Color) -> bool {
        forall|i: u64|
            i < 64 ==> #[trigger] member(mask, i) == self.spec_attacks(color, Tile::nth(i as int))
    }

    /// Whether the colour is in check: some square of its king mask is
    /// attacked by the other colour.
    pub open spec fn spec_in_check(self, color: Color) -> bool {
        exists|i: u64|
            i < 64 && #[trigger] member(self.spec_mask(Piece::of(PieceType::King, color)), i)
                && self.spec_attacks(color.spec_enemy(), Tile::nth(i as int))
    }

    /// Whether a piece stands strictly between the two tiles.
    pub open spec fn spec_path_blocked(self, from: Tile, to: Tile) -> bool {
        spec_is_blocked(self.spec_all_bits(), from, to)
    }

    /// A square is attacked exactly when a piece of the colour stands on some
    /// tile from which its kind reaches the square.
    pub proof fn lemma_attacks(self, color: Color, target: Tile)
        ensures
            self.spec_attacks(color, target) <==> exists|piece_type: PieceType, origin: Tile|
                origin.wf() && #[trigger] self.spec_holds(Piece::of(piece_type, color), origin)
                    && spec_reaches(piece_type, color, origin, target, self.spec_all_bits()),
    {
        let occupied = self.spec_all_bits();
        if self.spec_attacks(color, target) {
            let piece_type = if self.spec_kind_attacks(PieceType::Pawn, color, target) {
                PieceType::Pawn
            } else if self.spec_kind_attacks(PieceType::Knight, color, target) {
                PieceType::Knight
            } else if self.spec_kind_attacks(PieceType::Bishop, color, target) {
                PieceType::Bishop
            } else if self.spec_kind_attacks(PieceType::Rook, color, target) {
                PieceType::Rook
            } else if self.spec_kind_attacks(PieceType::Queen, color, target) {
                PieceType::Queen
            } else {
                PieceType::King
            };
            let pieces = self.spec_mask(Piece::of(piece_type, color));
            let j = choose|j: u64|
                j < 64 && #[trigger] member(pieces, j) && spec_reaches(
                    piece_type,
                    color,
                    Tile::nth(j as int),
                    target,
                    occupied,
                );
            let origin = Tile::nth(j as int);
            Tile::lemma_nth(j as int);
            assert(self.spec_holds(Piece::of(piece_type, color), origin));
        }
        if exists|piece_type: PieceType, origin: Tile|
            origin.wf() && #[trigger] self.spec_holds(Piece::of(piece_type, color), origin)
                && spec_reaches(piece_type, color, origin, target, occupied) {
            let (piece_type, origin) = choose|piece_type: PieceType, origin: Tile|
                origin.wf() && #[trigger] self.spec_holds(Piece::of(piece_type, color), origin)
                    && spec_reaches(piece_type, color, origin, target, occupied);
            origin.lemma_index();
            assert(member(self.spec_mask(Piece::of(piece_type, color)), origin.spec_pos()));
            assert(self.spec_kind_attacks(piece_type, color, target));
        }
    }

    /// Return 1 for all the bits of the board that white is attacking.
    pub fn white_attacking_bits(&self) -> (r: u64)
        ensures
            self.spec_is_attack_set(r, Color::White),
    {
        let all_pieces_as_bits = self.all_pieces_as_bits();
        let pawns = attacks_of(
            self.white_pawns,
            PieceType::Pawn,
            Color::White,
            all_pieces_as_bits,
        );
        let knights = attacks_of(
            self.white_knights,
            PieceType::Knight,
            Color::White,
            all_pieces_as_bits,
        );
        let bishops = attacks_of(
            self.white_bishops,
            PieceType::Bishop,
            Color::White,
            all_pieces_as_bits,
        );
        let rooks = attacks_of(
            self.white_rooks,
            PieceType::Rook,
            Color::White,
            all_pieces_as_bits,
        );
        let queens = attacks_of(
            self.white_queens,
            PieceType::Queen,
            Color::White,
            all_pieces_as_bits,
        );
        let king = attacks_of(self.white_king, PieceType::King, Color::White, all_pieces_as_bits);
        pawns | knights | bishops | rooks | queens | king
    }

    /// Return 1 for all the bits of the board that black is attacking.
    pub fn black_attacking_bits(&self) -> (r: u64)
        ensures
            self.spec_is_attack_set(r, Color::Black),
    {
        let all_pieces_as_bits = self.all_pieces_as_bits();
        let pawns = attacks_of(
            self.black_pawns,
            PieceType::Pawn,
            Color::Black,
            all_pieces_as_bits,
        );
        let knights = attacks_of(
            self.black_knights,
            PieceType::Knight,
            Color::Black,
            all_pieces_as_bits,
        );
        let bishops = attacks_of(
            self.black_bishops,
            PieceType::Bishop,
            Color::Black,
            all_pieces_as_bits,
        );
        let rooks = attacks_of(
            self.black_rooks,
            PieceType::Rook,
            Color::Black,
            all_pieces_as_bits,
        );
        let queens = attacks_of(
            self.black_queens,
            PieceType::Queen,
            Color::Black,
            all_pieces_as_bits,
        );
        let king = attacks_of(self.black_king, PieceType::King, Color::Black, all_pieces_as_bits);
        pawns | knights | bishops | rooks | queens | king
    }

    /// The squares that the colour attacks.
    pub fn get_attacking_bits(&self, color: Color) -> (r: u64)
        ensures
            self.spec_is_attack_set(r, color),
    {
        match color {
            Color::White => self.white_attacking_bits(),
            Color::Black => self.black_attacking_bits(),
        }
    }

    /// Are any of the player's kings in check?
    pub fn is_in_check(&self, color: Color) -> (r: bool)
        ensures
            r == self.spec_in_check(color),
    {
        let king_bits = self.get_king_bits(color);
        let enemy_attacking_bits = self.get_attacking_bits(color.enemy());
        proof {
            lemma_meet(king_bits, enemy_attacking_bits);
            if (king_bits & enemy_attacking_bits) != 0 {
                let i = choose|i: u64|
                    i < 64 && member(king_bits, i) && member(enemy_attacking_bits, i);
                assert(member(king_bits, i) && self.spec_attacks(
                    color.spec_enemy(),
                    Tile::nth(i as int),
                ));
            }
            if self.spec_in_check(color) {
                let i = choose|i: u64|
                    i < 64 && #[trigger] member(king_bits, i) && self.spec_attacks(
                        color.spec_enemy(),
                        Tile::nth(i as int),
                    );
                assert(member(king_bits, i) && member(enemy_attacking_bits, i));
            }
        }
        (king_bits & enemy_attacking_bits) != 0
    }

    /// Is the path from one tile to another blocked?
    pub fn is_blocked(&self, from: Tile, to: Tile) -> (r: bool)
        ensures
            r == self.spec_path_blocked(from, to),
    {
        is_blocked(self.all_pieces_as_bits(), from, to)
    }
}

} // verus!
