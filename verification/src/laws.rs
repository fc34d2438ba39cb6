//! Laws of the board: what holds of every board and every move.
use crate::bits::{group_bits, lemma_mask_ext, lemma_meet, member};
use crate::board::Board;
use crate::candidates::lemma_contains_add;
use crate::moves::MoveView;
use crate::piece::{CastlingSide, Color, Piece, PieceType};
use crate::rank::distance;
use crate::tile::Tile;
use crate::vision::{lemma_path, spec_is_blocked, spec_reaches};
use vstd::prelude::*;

verus! {

broadcast use group_bits;

/// A piece that is spawned on a tile is the piece that stands there
/// afterwards, whatever stood there before and whichever colour is to move.
pub proof fn law_spawn_then_get(board: Board, color: Color, piece_type: PieceType, tile: Tile)
    requires
        tile.wf(),
    ensures
        board.spec_with_turn(color).spec_spawn(piece_type, tile).spec_piece(tile) == Some(
            Piece::of(piece_type, color),
        ),
{
    board.spec_with_turn(color).lemma_spawn(piece_type, tile);
}

/// A piece that is put on an empty tile is the piece that stands there
/// afterwards.
pub proof fn law_put_then_get(board: Board, piece: Piece, tile: Tile)
    requires
        tile.wf(),
        board.spec_piece(tile) is None,
    ensures
        board.spec_put(piece, tile).spec_piece(tile) == Some(piece),
{
    tile.lemma_index();
    board.lemma_put(piece, tile);
    let after = board.spec_put(piece, tile);
    assert forall|p: Piece| #[trigger] after.spec_holds(p, tile) == (p == piece) by {
        if p != piece {
            assert(after.spec_mask(p) == board.spec_mask(p));
        }
    }
}

/// After a tile has been cleared, nothing stands on it.
pub proof fn law_remove_then_get(board: Board, tile: Tile)
    requires
        tile.wf(),
    ensures
        board.spec_remove(tile).spec_piece(tile) is None,
{
    board.lemma_remove(tile);
}

/// A colour is in check exactly when the mask of its king and the mask of
/// the squares that the other colour attacks have a square in common.
pub proof fn law_check_is_intersection(board: Board, color: Color, attacked: u64)
    requires
        board.spec_is_attack_set(attacked, color.spec_enemy()),
    ensures
        board.spec_in_check(color) <==> board.spec_mask(Piece::of(PieceType::King, color))
            & attacked != 0,
{
    let king = board.spec_mask(Piece::of(PieceType::King, color));
    lemma_meet(king, attacked);
    if king & attacked != 0 {
        let i = choose|i: u64| i < 64 && member(king, i) && member(attacked, i);
        assert(member(king, i) && board.spec_attacks(color.spec_enemy(), Tile::nth(i as int)));
    }
    if board.spec_in_check(color) {
        let i = choose|i: u64|
            i < 64 && #[trigger] member(king, i) && board.spec_attacks(
                color.spec_enemy(),
                Tile::nth(i as int),
            );
        assert(member(king, i) && member(attacked, i));
    }
}

/// Where no piece of the side to move has a legal move among the tiles it
/// might try, move generation finds no piece move.
pub proof fn lemma_no_piece_moves(board: Board, n: nat)
    requires
        n <= 64,
        !board.spec_can_move_any(board.spec_turn()),
    ensures
        board.spec_piece_moves(n) == Seq::<MoveView>::empty(),
    decreases n,
{
    if n > 0 {
        lemma_no_piece_moves(board, (n - 1) as nat);
        let from = Tile::nth(n - 1);
        Tile::lemma_nth(n - 1);
        match board.spec_piece(from) {
            Some(piece) => {
                if piece.spec_color() == board.spec_turn() {
                    let targets = from.spec_moves(piece);
                    lemma_no_moves_among(board, from, piece, targets.len());
                }
            },
            None => {},
        }
        assert(board.spec_moves_from(from) =~= Seq::<MoveView>::empty());
        assert(board.spec_piece_moves(n) =~= Seq::<MoveView>::empty());
    }
}

/// Where no piece of the side to move has a legal move among the tiles it
/// might try, the tiles that one piece might try add no move to the list.
pub proof fn lemma_no_moves_among(board: Board, from: Tile, piece: Piece, n: nat)
    requires
        from.wf(),
        board.spec_piece(from) == Some(piece),
        piece.spec_color() == board.spec_turn(),
        n <= from.spec_moves(piece).len(),
        !board.spec_can_move_any(board.spec_turn()),
    ensures
        board.spec_moves_among(from, from.spec_moves(piece), n) == Seq::<MoveView>::empty(),
    decreases n,
{
    if n > 0 {
        lemma_no_moves_among(board, from, piece, (n - 1) as nat);
        let targets = from.spec_moves(piece);
        let to = targets[n - 1];
        assert(targets.contains(to));
        assert(board.spec_is_candidate(board.spec_turn(), from, to));
        assert(!board.spec_is_legal_piece_move(from, to));
        assert(board.spec_moves_to(from, to) =~= Seq::<MoveView>::empty());
        assert(board.spec_moves_among(from, targets, n) =~= Seq::<MoveView>::empty());
    }
}

/// A legal move of a piece that is no castling goes to one of the tiles that
/// the piece might try, and the piece belongs to the side to move.
pub proof fn law_legal_moves_are_candidates(board: Board, from: Tile, to: Tile)
    requires
        from.wf(),
        to.wf(),
        board.spec_is_legal_piece_move(from, to),
        !board.spec_is_castling_move(from, to),
    ensures
        board.spec_is_candidate(board.spec_turn(), from, to),
{
    let mover = board.spec_piece(from)->0;
    from.lemma_moves_hold(mover, to, board.spec_piece(to) is Some, board.spec_en_passant());
}

/// On a board on which no two masks share a square and the castling rights
/// fit the kings and rooks, a move that encodes a castling starts from the
/// home square of the king that stands there.
pub proof fn lemma_castling_king(board: Board, from: Tile, to: Tile)
    requires
        from.wf(),
        board.spec_disjoint(),
        board.spec_rights_consistent(),
        board.spec_is_castling_move(from, to),
    ensures
        from == Tile::spec_king_start(from.spec_player_side()),
        board.spec_piece(from) == Some(Piece::of(PieceType::King, from.spec_player_side())),
        board.spec_castling_rights().spec_allows(from.spec_player_side(), to.spec_castling_side()),
{
    let color = from.spec_player_side();
    let own = Piece::of(PieceType::King, color);
    from.lemma_index();
    assert(board.spec_castling_rights().spec_allows(color, to.spec_castling_side()));
    assert(board.spec_mask(own) == from.spec_bit());
    assert(member(board.spec_mask(own), from.spec_pos()));
    assert forall|p: Piece| p != own implies !#[trigger] board.spec_holds(p, from) by {
        if board.spec_holds(p, from) {
            assert(member(board.spec_mask(own), from.spec_pos()));
        }
    }
}

/// A colour that is checkmated is in check, and none of its pieces has a
/// legal move that is no castling, to whatever tile. On a board on which no
/// two masks share a square and the castling rights fit the kings and rooks,
/// none of its pieces has a legal move at all. If the colour is the side to
/// move, the list of its legal moves is empty.
pub proof fn law_checkmate(board: Board, color: Color)
    requires
        board.spec_in_checkmate(color),
    ensures
        board.spec_in_check(color),
        forall|from: Tile, to: Tile| #[trigger]
            board.spec_is_candidate(color, from, to) ==> !board.spec_is_legal_piece_move(from, to),
        forall|from: Tile, to: Tile|
            from.wf() && to.wf() && board.spec_stands(color, from) && !board.spec_is_castling_move(
                from,
                to,
            ) ==> !#[trigger] board.spec_is_legal_piece_move(from, to),
        board.spec_disjoint() && board.spec_rights_consistent() ==> forall|from: Tile, to: Tile|
            from.wf() && to.wf() && board.spec_stands(color, from)
                ==> !#[trigger] board.spec_is_legal_piece_move(from, to),
        color == board.spec_turn() ==> board.spec_legal_moves() == Seq::<MoveView>::empty(),
{
    assert forall|from: Tile, to: Tile|
        from.wf() && to.wf() && board.spec_stands(color, from) && !board.spec_is_castling_move(
            from,
            to,
        ) implies !#[trigger] board.spec_is_legal_piece_move(from, to) by {
        if board.spec_is_legal_piece_move(from, to) {
            law_legal_moves_are_candidates(board, from, to);
        }
    }
    if board.spec_disjoint() && board.spec_rights_consistent() {
        assert forall|from: Tile, to: Tile|
            from.wf() && to.wf() && board.spec_stands(color, from) implies !#[trigger] board.spec_is_legal_piece_move(
            from,
            to,
        ) by {
            if board.spec_is_castling_move(from, to) {
                lemma_castling_king(board, from, to);
            }
        }
    }
    if color == board.spec_turn() {
        lemma_no_piece_moves(board, 64);
        assert(Tile::spec_king_start(color).spec_player_side() == color);
        assert(board.spec_castling_moves() =~= Seq::<MoveView>::empty());
        assert(board.spec_legal_moves() =~= Seq::<MoveView>::empty());
    }
}

/// A pawn that goes two ranks ahead opens the tile that it passes over as the
/// en-passant target, unless the tile it lands on was itself the en-passant
/// target.
pub proof fn law_double_push_opens(
    board: Board,
    from: Tile,
    to: Tile,
    promotion: Option<PieceType>,
)
    requires
        from.wf(),
        to.wf(),
        board.spec_is_legal_piece_move(from, to),
        board.spec_piece(from) is Some,
        board.spec_piece(from)->0.spec_type() == PieceType::Pawn,
        distance(from.spec_rank(), to.spec_rank()) == 2,
        board.spec_en_passant() != Some(to),
    ensures
        board.spec_perform(from, to, promotion).1,
        board.spec_perform(from, to, promotion).0.spec_en_passant() == Some(
            Tile::at((from.spec_rank() + to.spec_rank()) / 2, from.spec_file()),
        ),
{
    let mover = board.spec_piece(from)->0;
    let left = board.spec_with_castling_rights(board.spec_rights_after(from, to));
    let cleared = left.spec_remove(to);
    left.lemma_remove(to);
    assert(from != to);
    assert(cleared.spec_piece(from) == Some(mover));
    let opened = cleared.spec_with_en_passant(cleared.spec_opened_en_passant(from, to));
    opened.lemma_move_piece(from, to);
}

/// Any legal move of a piece from one tile to another that is not a pawn
/// going two ranks ahead leaves no en-passant target.
pub proof fn law_other_moves_close(
    board: Board,
    from: Tile,
    to: Tile,
    promotion: Option<PieceType>,
)
    requires
        from.wf(),
        to.wf(),
        board.spec_is_legal_piece_move(from, to),
        !(board.spec_piece(from)->0.spec_type() == PieceType::Pawn && distance(
            from.spec_rank(),
            to.spec_rank(),
        ) == 2),
    ensures
        board.spec_perform(from, to, promotion).1,
        board.spec_perform(from, to, promotion).0.spec_en_passant() is None,
{
    let mover = board.spec_piece(from)->0;
    let mine = board.spec_with_turn(mover.spec_color());
    if mine.spec_is_castling_move(from, to) {
    } else {
        let left = mine.spec_with_castling_rights(mine.spec_rights_after(from, to));
        if left.spec_is_en_passant_capture(from, to) {
        } else {
            let cleared = left.spec_remove(to);
            left.lemma_remove(to);
            if cleared.spec_is_valid_promotion(from, to) {
            } else {
                assert(from != to) by {
                    if from == to {
                        assert(board.spec_piece(to) == Some(mover));
                    }
                }
                assert(cleared.spec_piece(from) == Some(mover));
                let opened = cleared.spec_with_en_passant(
                    cleared.spec_opened_en_passant(from, to),
                );
                opened.lemma_move_piece(from, to);
                assert(cleared.spec_opened_en_passant(from, to) is None);
            }
        }
    }
}

/// A pass and a resignation leave no en-passant target.
pub proof fn law_pass_and_resign_close(board: Board)
    ensures
        board.spec_apply(MoveView::Pass).0.spec_en_passant() is None,
        board.spec_apply(MoveView::Resign).0.spec_en_passant() is None,
{
}

/// Once the en-passant target is gone or lies elsewhere, a pawn may not go
/// diagonally onto an empty tile: a capture in passing that comes too late is
/// refused.
pub proof fn law_closed_window_refuses(board: Board, from: Tile, to: Tile)
    requires
        from.wf(),
        to.wf(),
        board.spec_piece(from) is Some,
        board.spec_piece(from)->0.spec_type() == PieceType::Pawn,
        board.spec_piece(to) is None,
        from.spec_file() != to.spec_file(),
        board.spec_en_passant() != Some(to),
    ensures
        !board.spec_is_legal_piece_move(from, to),
        !board.spec_apply(MoveView::FromTo { from, to, promotion: None }).1,
{
}

/// What a sideways step of a lone king does to the masks of a board on which
/// no two masks share a square, when the tile it steps onto is empty: the
/// king's mask holds the new tile alone, every other mask is as it was, and
/// the taken squares lose the old tile and gain the new one.
proof fn lemma_king_step_masks(board: Board, king: Tile, step: Tile)
    requires
        king.wf(),
        step.wf(),
        king != step,
        board.spec_disjoint(),
        board.spec_mask(Piece::of(PieceType::King, board.spec_turn())) == king.spec_bit(),
        !member(board.spec_all_bits(), step.spec_pos()),
    ensures
        board.spec_move_piece(king, step).spec_same_state(board),
        forall|i: u64|
            i < 64 ==> #[trigger] member(
                board.spec_move_piece(king, step).spec_mask(
                    Piece::of(PieceType::King, board.spec_turn()),
                ),
                i,
            ) == (i == step.spec_pos()),
        forall|p: Piece|
            p != Piece::of(PieceType::King, board.spec_turn()) ==> #[trigger] board.spec_move_piece(
                king,
                step,
            ).spec_mask(p) == board.spec_mask(p),
        forall|i: u64|
            i < 64 ==> #[trigger] member(board.spec_move_piece(king, step).spec_all_bits(), i) == ((
            member(board.spec_all_bits(), i) && i != king.spec_pos()) || i == step.spec_pos()),
{
    king.lemma_index();
    step.lemma_index();
    king.lemma_same(step);
    let own = Piece::of(PieceType::King, board.spec_turn());
    let after = board.spec_move_piece(king, step);
    board.lemma_move_piece(king, step);
    assert(member(board.spec_mask(own), king.spec_pos()));
    assert forall|p: Piece| p != own implies #[trigger] after.spec_mask(p) == board.spec_mask(
        p,
    ) by {
        assert forall|i: u64| i < 64 implies member(after.spec_mask(p), i) == member(
            board.spec_mask(p),
            i,
        ) by {
            if member(board.spec_mask(p), king.spec_pos()) {
                assert(member(board.spec_mask(own), king.spec_pos()));
            }
            if member(board.spec_mask(p), i) && i == step.spec_pos() {
                assert(member(board.spec_all_bits(), i));
            }
        }
        lemma_mask_ext(after.spec_mask(p), board.spec_mask(p));
    }
    assert forall|i: u64| i < 64 implies #[trigger] member(after.spec_all_bits(), i) == ((member(
        board.spec_all_bits(),
        i,
    ) && i != king.spec_pos()) || i == step.spec_pos()) by {
        assert(member(after.spec_mask(own), i) == (i == step.spec_pos()));
        assert(member(board.spec_mask(own), i) == (i == king.spec_pos()));
        assert forall|p: Piece| p != own && member(board.spec_mask(p), i) implies i
            != king.spec_pos() by {
            if i == king.spec_pos() {
                assert(member(board.spec_mask(own), i));
            }
        }
        lemma_all_bits(board, i);
        lemma_all_bits(after, i);
    }
}

/// A square is taken exactly when it is in the mask of some piece.
proof fn lemma_all_bits(board: Board, i: u64)
    requires
        i < 64,
    ensures
        member(board.spec_all_bits(), i) <==> exists|p: Piece| #[trigger]
            member(board.spec_mask(p), i),
{
    if member(board.spec_all_bits(), i) {
        let color = if member(board.spec_color_bits(Color::White), i) {
            Color::White
        } else {
            Color::Black
        };
        let piece_type = if member(board.spec_mask(Piece::of(PieceType::Pawn, color)), i) {
            PieceType::Pawn
        } else if member(board.spec_mask(Piece::of(PieceType::Knight, color)), i) {
            PieceType::Knight
        } else if member(board.spec_mask(Piece::of(PieceType::Bishop, color)), i) {
            PieceType::Bishop
        } else if member(board.spec_mask(Piece::of(PieceType::Rook, color)), i) {
            PieceType::Rook
        } else if member(board.spec_mask(Piece::of(PieceType::Queen, color)), i) {
            PieceType::Queen
        } else {
            PieceType::King
        };
        assert(member(board.spec_mask(Piece::of(piece_type, color)), i));
    }
    if exists|p: Piece| #[trigger] member(board.spec_mask(p), i) {
        let p = choose|p: Piece| #[trigger] member(board.spec_mask(p), i);
        assert(p == Piece::of(p.spec_type(), p.spec_color()));
    }
}

/// A piece that bears on a tile along a line through the tile beside it, on
/// the same rank, stands on that rank, is a rook or a queen, and bears on the
/// tile beside it too; and the two paths start with the same tiles.
proof fn lemma_line_through(
    origin: Tile,
    king: Tile,
    step: Tile,
    k: int,
    piece_type: PieceType,
    color: Color,
)
    requires
        origin.wf(),
        king.wf(),
        step.wf(),
        king.spec_rank() == step.spec_rank(),
        distance(king.spec_file(), step.spec_file()) == 1,
        origin.spec_attacks(piece_type, color, step),
        piece_type != PieceType::Knight,
        1 <= k < origin.spec_distance(step),
        origin.spec_path(step, k) == king,
    ensures
        piece_type == PieceType::Rook || piece_type == PieceType::Queen,
        origin.spec_attacks(piece_type, color, king),
        origin.spec_distance(king) == k,
        forall|j: int|
            1 <= j < k ==> #[trigger] origin.spec_path(king, j) == origin.spec_path(step, j),
{
    lemma_path(origin, step, k);
    assert forall|j: int| 1 <= j < k implies #[trigger] origin.spec_path(king, j)
        == origin.spec_path(step, j) by {
        lemma_path(origin, step, j);
        lemma_path(origin, king, j);
    }
}

/// A lone king that is not in check may step sideways onto an empty tile
/// that is not attacked without walking into check: whatever bore on the new
/// tile through the old one bore on the old one before.
proof fn lemma_king_step_is_safe(board: Board, king: Tile, step: Tile)
    requires
        king.wf(),
        step.wf(),
        king.spec_rank() == step.spec_rank(),
        distance(king.spec_file(), step.spec_file()) == 1,
        board.spec_disjoint(),
        board.spec_mask(Piece::of(PieceType::King, board.spec_turn())) == king.spec_bit(),
        !board.spec_in_check(board.spec_turn()),
        !member(board.spec_all_bits(), step.spec_pos()),
        !board.spec_attacks(board.spec_turn().spec_enemy(), step),
    ensures
        !board.spec_in_check_after_move(board.spec_turn(), king, step),
{
    let turn = board.spec_turn();
    let enemy = turn.spec_enemy();
    let own = Piece::of(PieceType::King, turn);
    let after = board.spec_move_piece(king, step);
    king.lemma_index();
    step.lemma_index();
    king.lemma_same(step);
    lemma_king_step_masks(board, king, step);
    if after.spec_in_check(turn) {
        let i = choose|i: u64|
            i < 64 && #[trigger] member(after.spec_mask(own), i) && after.spec_attacks(
                enemy,
                Tile::nth(i as int),
            );
        assert(i == step.spec_pos());
        assert(Tile::nth(i as int) == step);
        after.lemma_attacks(enemy, step);
        let (piece_type, origin) = choose|piece_type: PieceType, origin: Tile|
            origin.wf() && #[trigger] after.spec_holds(Piece::of(piece_type, enemy), origin)
                && spec_reaches(piece_type, enemy, origin, step, after.spec_all_bits());
        let attacker = Piece::of(piece_type, enemy);
        assert(attacker != own);
        assert(after.spec_mask(attacker) == board.spec_mask(attacker));
        assert(board.spec_holds(attacker, origin));
        board.lemma_attacks(enemy, step);
        assert(!spec_reaches(piece_type, enemy, origin, step, board.spec_all_bits()));
        assert(piece_type != PieceType::Knight);
        assert(spec_is_blocked(board.spec_all_bits(), origin, step));
        let k = choose|k: int|
            1 <= k < origin.spec_distance(step) && #[trigger] member(
                board.spec_all_bits(),
                origin.spec_path(step, k).spec_pos(),
            );
        let mid = origin.spec_path(step, k);
        lemma_path(origin, step, k);
        mid.lemma_index();
        assert(!member(after.spec_all_bits(), origin.spec_path(step, k).spec_pos()));
        assert(mid.spec_pos() == king.spec_pos());
        mid.lemma_same(king);
        assert(mid == king);
        lemma_line_through(origin, king, step, k, piece_type, enemy);
        assert(!spec_is_blocked(board.spec_all_bits(), origin, king)) by {
            if spec_is_blocked(board.spec_all_bits(), origin, king) {
                let j = choose|j: int|
                    1 <= j < origin.spec_distance(king) && #[trigger] member(
                        board.spec_all_bits(),
                        origin.spec_path(king, j).spec_pos(),
                    );
                let between = origin.spec_path(king, j);
                assert(between == origin.spec_path(step, j));
                lemma_path(origin, king, j);
                lemma_path(origin, step, j);
                between.lemma_index();
                between.lemma_same(king);
                assert(between != king);
                assert(member(after.spec_all_bits(), between.spec_pos()));
                assert(member(after.spec_all_bits(), origin.spec_path(step, j).spec_pos()));
            }
        }
        assert(spec_reaches(piece_type, enemy, origin, king, board.spec_all_bits()));
        board.lemma_attacks(enemy, king);
        assert(board.spec_attacks(enemy, king));
        assert(member(board.spec_mask(own), king.spec_pos()));
        assert(Tile::nth(king.spec_pos() as int) == king);
        assert(board.spec_in_check(turn));
    }
}

/// On a board on which no two masks share a square and the castling rights
/// fit the kings and rooks, a side that has no legal piece move may not
/// castle either, whichever tile stands for the rook: if it might, its king
/// could step towards the rook.
proof fn lemma_no_castling(board: Board, rook: Tile)
    requires
        rook.wf(),
        board.spec_disjoint(),
        board.spec_rights_consistent(),
        !board.spec_can_move_any(board.spec_turn()),
    ensures
        !board.spec_can_castle(Tile::spec_king_start(board.spec_turn()), rook),
{
    let turn = board.spec_turn();
    let king = Tile::spec_king_start(turn);
    let side = rook.spec_castling_side();
    if board.spec_can_castle(king, rook) {
        rook.lemma_index();
        assert(king.spec_player_side() == turn);
        let step = Tile::at(
            king.spec_rank(),
            if side == CastlingSide::King {
                5
            } else {
                3
            },
        );
        let own = Piece::of(PieceType::King, turn);
        king.lemma_index();
        step.lemma_index();
        king.lemma_same(step);
        lemma_path(king, rook, 1);
        assert(king.spec_path(rook, 1) == step);
        assert(board.spec_castling_rights().spec_allows(turn, side));
        assert(board.spec_mask(own) == king.spec_bit());
        assert(member(board.spec_mask(own), king.spec_pos()));
        assert(board.spec_piece(king) == Some(own)) by {
            assert forall|p: Piece| p != own implies !#[trigger] board.spec_holds(p, king) by {
                if board.spec_holds(p, king) {
                    assert(member(board.spec_mask(own), king.spec_pos()));
                }
            }
        }
        assert(!board.spec_castle_path_blocked(turn, king, rook));
        assert(!board.spec_taken_or_attacked(turn.spec_enemy(), king.spec_path(rook, 1)));
        assert(!member(board.spec_all_bits(), step.spec_pos()));
        assert(board.spec_piece(step) is None) by {
            lemma_all_bits(board, step.spec_pos());
            assert forall|p: Piece| !#[trigger] board.spec_holds(p, step) by {
                if board.spec_holds(p, step) {
                    assert(member(board.spec_mask(p), step.spec_pos()));
                }
            }
        }
        lemma_king_step_is_safe(board, king, step);
        assert(!board.spec_is_castling_move(king, step));
        assert(!board.spec_path_blocked(king, step));
        assert(board.spec_is_legal_piece_move(king, step));
        let moves = king.spec_king_moves();
        assert(moves.contains(step)) by {
            if side == CastlingSide::King {
                let before = king.spec_step(1, 1) + king.spec_step(1, -1) + king.spec_step(-1, 1)
                    + king.spec_step(-1, -1) + king.spec_step(1, 0) + king.spec_step(-1, 0);
                assert(king.spec_step(0, 1) =~= seq![step]);
                assert(moves =~= before + seq![step] + king.spec_step(0, -1));
                assert(moves[before.len() as int] == step);
            } else {
                let before = king.spec_step(1, 1) + king.spec_step(1, -1) + king.spec_step(-1, 1)
                    + king.spec_step(-1, -1) + king.spec_step(1, 0) + king.spec_step(-1, 0)
                    + king.spec_step(0, 1);
                assert(king.spec_step(0, -1) =~= seq![step]);
                assert(moves =~= before + seq![step]);
                assert(moves[before.len() as int] == step);
            }
        }
        assert(board.spec_is_candidate(turn, king, step));
        assert(board.spec_can_move_any(turn));
    }
}

/// A side that is stalemated is not in check, and none of its pieces has a
/// legal move that is no castling, to whatever tile. On a board on which no
/// two masks share a square and the castling rights fit the kings and rooks,
/// none of its pieces has a legal move at all, and the list of its legal
/// moves is empty.
pub proof fn law_stalemate(board: Board)
    requires
        board.spec_stalemate(),
    ensures
        !board.spec_in_check(board.spec_turn()),
        forall|from: Tile, to: Tile| #[trigger]
            board.spec_is_candidate(board.spec_turn(), from, to)
                ==> !board.spec_is_legal_piece_move(from, to),
        board.spec_piece_moves(64) == Seq::<MoveView>::empty(),
        forall|from: Tile, to: Tile|
            from.wf() && to.wf() && board.spec_stands(board.spec_turn(), from)
                && !board.spec_is_castling_move(from, to) ==> !#[trigger] board.spec_is_legal_piece_move(
                from,
                to,
            ),
        board.spec_disjoint() && board.spec_rights_consistent() ==> board.spec_legal_moves()
            == Seq::<MoveView>::empty(),
        board.spec_disjoint() && board.spec_rights_consistent() ==> forall|from: Tile, to: Tile|
            from.wf() && to.wf() && board.spec_stands(board.spec_turn(), from)
                ==> !#[trigger] board.spec_is_legal_piece_move(from, to),
{
    let turn = board.spec_turn();
    lemma_no_piece_moves(board, 64);
    assert forall|from: Tile, to: Tile|
        from.wf() && to.wf() && board.spec_stands(turn, from) && !board.spec_is_castling_move(
            from,
            to,
        ) implies !#[trigger] board.spec_is_legal_piece_move(from, to) by {
        if board.spec_is_legal_piece_move(from, to) {
            law_legal_moves_are_candidates(board, from, to);
        }
    }
    if board.spec_disjoint() && board.spec_rights_consistent() {
        Tile::lemma_at(0, 7);
        Tile::lemma_at(0, 0);
        Tile::lemma_at(7, 7);
        Tile::lemma_at(7, 0);
        lemma_no_castling(board, Tile::spec_rook_start(turn, CastlingSide::King));
        lemma_no_castling(board, Tile::spec_rook_start(turn, CastlingSide::Queen));
        assert(board.spec_castling_moves() =~= Seq::<MoveView>::empty());
        assert(board.spec_legal_moves() =~= Seq::<MoveView>::empty());
        assert forall|from: Tile, to: Tile|
            from.wf() && to.wf() && board.spec_stands(turn, from) implies !#[trigger] board.spec_is_legal_piece_move(
            from,
            to,
        ) by {
            if board.spec_is_castling_move(from, to) {
                lemma_castling_king(board, from, to);
                lemma_no_castling(board, to);
            }
        }
    }
}

/// A move from tile to tile, a move that names a kind and a destination and
/// a castling are legal exactly when they can be played.
pub proof fn law_legal_moves_are_played(board: Board, player_move: MoveView)
    requires
        player_move is FromTo || player_move is PieceTo || player_move is Castling,
    ensures
        board.spec_is_legal_move(player_move) == board.spec_apply(player_move).1,
{
}

/// The moves that a tile a piece might try adds to the list are in the list
/// of the moves that the first `n` tiles add, once `n` exceeds the place of
/// that tile.
proof fn lemma_among_holds(
    board: Board,
    from: Tile,
    targets: Seq<Tile>,
    n: nat,
    j: int,
    listed: MoveView,
)
    requires
        0 <= j < n <= targets.len(),
        board.spec_moves_to(from, targets[j]).contains(listed),
    ensures
        board.spec_moves_among(from, targets, n).contains(listed),
    decreases n,
{
    let before = board.spec_moves_among(from, targets, (n - 1) as nat);
    let last = board.spec_moves_to(from, targets[n - 1]);
    if j < n - 1 {
        lemma_among_holds(board, from, targets, (n - 1) as nat, j, listed);
    }
    lemma_contains_add(before, last, listed);
}

/// The legal moves of the piece on a tile are among the legal moves of the
/// pieces on the tiles numbered under `n`, once `n` exceeds the number of
/// that tile.
proof fn lemma_piece_moves_hold(board: Board, from: Tile, n: nat, listed: MoveView)
    requires
        from.wf(),
        from.spec_index() < n <= 64,
        board.spec_moves_from(from).contains(listed),
    ensures
        board.spec_piece_moves(n).contains(listed),
    decreases n,
{
    from.lemma_index();
    let before = board.spec_piece_moves((n - 1) as nat);
    let last = board.spec_moves_from(Tile::nth(n - 1));
    if from.spec_index() < n - 1 {
        lemma_piece_moves_hold(board, from, (n - 1) as nat, listed);
    }
    lemma_contains_add(before, last, listed);
}

/// Every legal move is generated: a legal move of a piece that is no
/// castling is in the list of the legal moves, once for each of the four
/// promotion kinds if it is a promotion and once without a kind if it is
/// not; and a castling that may be played is in the list.
pub proof fn law_legal_moves_are_generated(board: Board, from: Tile, to: Tile, side: CastlingSide)
    requires
        from.wf(),
        to.wf(),
    ensures
        board.spec_is_legal_piece_move(from, to) && !board.spec_is_castling_move(from, to)
            ==> board.spec_moves_to(from, to).len() > 0 && forall|i: int|
            0 <= i < board.spec_moves_to(from, to).len() ==> board.spec_legal_moves().contains(
                #[trigger] board.spec_moves_to(from, to)[i],
            ),
        board.spec_can_castle(
            Tile::spec_king_start(board.spec_turn()),
            Tile::spec_rook_start(board.spec_turn(), side),
        ) ==> board.spec_legal_moves().contains(MoveView::Castling(side)),
{
    let pieces = board.spec_piece_moves(64);
    let castlings = board.spec_castling_moves();
    if board.spec_is_legal_piece_move(from, to) && !board.spec_is_castling_move(from, to) {
        law_legal_moves_are_candidates(board, from, to);
        let piece = board.spec_piece(from)->0;
        let targets = from.spec_moves(piece);
        let j = choose|j: int| 0 <= j < targets.len() && targets[j] == to;
        assert forall|i: int| 0 <= i < board.spec_moves_to(from, to).len() implies board.spec_legal_moves().contains(
        #[trigger] board.spec_moves_to(from, to)[i]) by {
            let listed = board.spec_moves_to(from, to)[i];
            assert(board.spec_moves_to(from, targets[j]).contains(listed));
            lemma_among_holds(board, from, targets, targets.len(), j, listed);
            from.lemma_index();
            lemma_piece_moves_hold(board, from, 64, listed);
            lemma_contains_add(pieces, castlings, listed);
        }
    }
    let king = Tile::spec_king_start(board.spec_turn());
    if board.spec_can_castle(king, Tile::spec_rook_start(board.spec_turn(), side)) {
        let listed = MoveView::Castling(side);
        let first = if board.spec_can_castle(
            king,
            Tile::spec_rook_start(board.spec_turn(), CastlingSide::King),
        ) {
            seq![MoveView::Castling(CastlingSide::King)]
        } else {
            Seq::empty()
        };
        let second = if board.spec_can_castle(
            king,
            Tile::spec_rook_start(board.spec_turn(), CastlingSide::Queen),
        ) {
            seq![MoveView::Castling(CastlingSide::Queen)]
        } else {
            Seq::empty()
        };
        if side == CastlingSide::King {
            assert(first[0] == listed);
        } else {
            assert(second[0] == listed);
        }
        lemma_contains_add(first, second, listed);
        lemma_contains_add(pieces, castlings, listed);
    }
}

/// Whether a move is one that move generation may list: a legal move of a
/// piece of the side to move from tile to tile, which names a promotion kind
/// other than the king exactly if it is a promotion, or a castling that the
/// side to move may play.
pub open spec fn spec_is_listable(board: Board, listed: MoveView) -> bool {
    match listed {
        MoveView::FromTo { from, to, promotion } => {
            &&& from.wf()
            &&& board.spec_stands(board.spec_turn(), from)
            &&& board.spec_is_legal_piece_move(from, to)
            &&& promotion is Some == board.spec_is_valid_promotion(from, to)
            &&& promotion != Some(PieceType::King)
            &&& promotion != Some(PieceType::Pawn)
        },
        MoveView::Castling(side) => board.spec_can_castle(
            Tile::spec_king_start(board.spec_turn()),
            Tile::spec_rook_start(board.spec_turn(), side),
        ),
        _ => false,
    }
}

/// Every move that the first `n` tiles a piece might try add to the list is
/// one that move generation may list.
proof fn lemma_among_listable(board: Board, from: Tile, targets: Seq<Tile>, n: nat, i: int)
    requires
        from.wf(),
        board.spec_stands(board.spec_turn(), from),
        0 <= i < board.spec_moves_among(from, targets, n).len(),
    ensures
        spec_is_listable(board, board.spec_moves_among(from, targets, n)[i]),
    decreases n,
{
    if n == 0 || n > targets.len() {
    } else {
        let before = board.spec_moves_among(from, targets, (n - 1) as nat);
        if i < before.len() {
            lemma_among_listable(board, from, targets, (n - 1) as nat, i);
        }
    }
}

/// Every legal move of the pieces on the tiles numbered under `n` is one
/// that move generation may list.
proof fn lemma_piece_moves_listable(board: Board, n: nat, i: int)
    requires
        n <= 64,
        0 <= i < board.spec_piece_moves(n).len(),
    ensures
        spec_is_listable(board, board.spec_piece_moves(n)[i]),
    decreases n,
{
    if n > 0 {
        let before = board.spec_piece_moves((n - 1) as nat);
        let from = Tile::nth(n - 1);
        Tile::lemma_nth(n - 1);
        if i < before.len() {
            lemma_piece_moves_listable(board, (n - 1) as nat, i);
        } else {
            let piece = board.spec_piece(from)->0;
            let targets = from.spec_moves(piece);
            lemma_among_listable(board, from, targets, targets.len(), i - before.len());
        }
    }
}

/// Every generated move is legal: each move in the list of the legal moves
/// is a legal move of a piece of the side to move from tile to tile, with a
/// promotion kind exactly if it is a promotion, or a castling that the side
/// to move may play.
pub proof fn law_generated_moves_are_legal(board: Board, i: int)
    requires
        0 <= i < board.spec_legal_moves().len(),
    ensures
        spec_is_listable(board, board.spec_legal_moves()[i]),
{
    let pieces = board.spec_piece_moves(64);
    if i < pieces.len() {
        lemma_piece_moves_listable(board, 64, i);
    }
}

/// A move that is refused leaves the board as it was, unless it is a
/// sequence of moves.
pub proof fn law_refused_move_changes_nothing(board: Board, player_move: MoveView)
    requires
        !(player_move is Many),
        !board.spec_apply(player_move).1,
    ensures
        board.spec_apply(player_move).0 == board,
{
}

} // verus!
