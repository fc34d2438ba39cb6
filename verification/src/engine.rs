//! Move search: a fixed-depth, full-width negamax over the legal moves.
//!
//! The search asks an engine for the worth of the positions at its horizon
//! and picks, at every ply above it, the move whose branch came back best.
//! Nothing is pruned, so every legal move of every position down to the
//! horizon is tried, and the sibling branches of a position are searched in
//! parallel, each on a copy of the position.
use crate::board::Board;
use crate::generate::spec_list_view;
use crate::moves::{Move, MoveView};
use crate::piece::Color;
use rayon::iter::{IntoParallelRefIterator, ParallelIterator};
use vstd::prelude::*;

verus! {

/// How good a position is for a colour: a number, or one of the two ends of
/// the scale.
#[derive(Copy, Clone, Debug, PartialEq, Eq, Structural)]
pub enum Score {
    /// Worse than any number.
    Worst,
    /// A number; higher is better.
    Value(i64),
    /// Better than any number.
    Best,
}

impl Score {
    /// The place of a score on the scale.
    pub open spec fn spec_rank(self) -> int {
        match self {
            Score::Worst => i64::MIN - 1,
            Score::Value(v) => v as int,
            Score::Best => i64::MAX + 1,
        }
    }

    /// The score seen from the other side. The lowest number has no opposite
    /// among the numbers; its opposite is taken to be the highest number.
    pub open spec fn spec_negate(self) -> Score {
        match self {
            Score::Worst => Score::Best,
            Score::Value(v) => if v == i64::MIN {
                Score::Value(i64::MAX)
            } else {
                Score::Value((-v) as i64)
            },
            Score::Best => Score::Worst,
        }
    }

    /// The score seen from the other side.
    pub fn negate(self) -> (r: Score)
        ensures
            r == self.spec_negate(),
    {
        match self {
            Score::Worst => Score::Best,
            Score::Value(v) => if v == i64::MIN {
                Score::Value(i64::MAX)
            } else {
                Score::Value(-v)
            },
            Score::Best => Score::Worst,
        }
    }

    /// Whether this score is better than the other.
    pub fn exceeds(self, other: Score) -> (r: bool)
        ensures
            r == (self.spec_rank() > other.spec_rank()),
    {
        match (self, other) {
            (Score::Worst, _) => false,
            (_, Score::Worst) => true,
            (Score::Best, Score::Best) => false,
            (Score::Best, _) => true,
            (_, Score::Best) => false,
            (Score::Value(a), Score::Value(b)) => a > b,
        }
    }
}

/// Whether `i` is the place of the first of the best scores of a list.
pub open spec fn spec_is_first_best(scored: Seq<(Score, Move)>, i: int) -> bool {
    &&& 0 <= i < scored.len()
    &&& forall|j: int|
        0 <= j < scored.len() ==> #[trigger] scored[j].0.spec_rank() <= scored[i].0.spec_rank()
    &&& forall|j: int| 0 <= j < i ==> #[trigger] scored[j].0.spec_rank() < scored[i].0.spec_rank()
}

/// Whether a score and a move are the choice among scored moves: the first
/// of those with the best score, or a pass with the worst score where there
/// is no move to choose from.
pub open spec fn spec_is_choice(
    score: Score,
    chosen: MoveView,
    scored: Seq<(Score, Move)>,
) -> bool {
    if scored.len() == 0 {
        score == Score::Worst && chosen == MoveView::Pass
    } else {
        exists|i: int|
            spec_is_first_best(scored, i) && score == scored[i].0 && chosen == scored[i].1@
    }
}

/// The choice among scored moves: the first of those with the best score, or
/// a pass with the worst score where there is no move to choose from.
pub fn select_best(scored: &Vec<(Score, Move)>) -> (r: (Score, Move))
    ensures
        spec_is_choice(r.0, r.1@, scored@),
{
    if scored.len() == 0 {
        return (Score::Worst, Move::Pass);
    }
    let mut best: usize = 0;
    let mut n: usize = 1;
    while n < scored.len()
        invariant
            0 <= best < n <= scored@.len(),
            forall|j: int|
                0 <= j < n ==> #[trigger] scored@[j].0.spec_rank()
                    <= scored@[best as int].0.spec_rank(),
            forall|j: int|
                0 <= j < best ==> #[trigger] scored@[j].0.spec_rank()
                    < scored@[best as int].0.spec_rank(),
        decreases scored@.len() - n,
    {
        if scored[n].0.exceeds(scored[best].0) {
            best = n;
        }
        n = n + 1;
    }
    assert(spec_is_first_best(scored@, best as int));
    (scored[best].0, scored[best].1.duplicate())
}

/// A game state that a search can explore.
pub trait Position: Copy + Send + Sync {
    /// The legal moves of the side to move, in the order in which the search
    /// tries them.
    fn legal_moves(&self) -> Vec<Move>;

    /// The position after a move has been played on a copy of this one, or
    /// nothing where the move is refused.
    fn play(&self, player_move: &Move) -> Option<Self>;

    /// The colour whose turn it is.
    fn whose_turn(&self) -> Color;
}

impl Position for Board {
    fn legal_moves(&self) -> (r: Vec<Move>)
        ensures
            spec_list_view(r@) == self.spec_legal_moves(),
    {
        Move::legal_moves(self)
    }

    fn play(&self, player_move: &Move) -> (r: Option<Board>)
        ensures
            r == if self.spec_apply(player_move@).1 {
                Some(self.spec_apply(player_move@).0)
            } else {
                None
            },
    {
        let mut copy = *self;
        match copy.apply_ref(player_move) {
            Ok(()) => Some(copy),
            Err(()) => None,
        }
    }

    fn whose_turn(&self) -> (r: Color)
        ensures
            r == self.spec_turn(),
    {
        Board::whose_turn(self)
    }
}

/// An engine evaluates a position and returns a score.
pub trait Engine<P: Position>: Send + Sync {
    /// Whether a text is the name of the engine. An engine that leaves this
    /// as it is says nothing of its name.
    open spec fn spec_is_name(&self, text: Seq<char>) -> bool {
        true
    }

    /// Get the name of the engine.
    fn name(&self) -> (r: String)
        ensures
            self.spec_is_name(r@),
    ;

    /// Evaluate the given position for the given colour: the higher the
    /// score, the better the position is for that colour.
    fn evaluate(&self, position: &P, color: Color) -> Score;
}

/// The depth to which [`best_move`] searches.
pub const SEARCH_DEPTH: u32 = 4;

/// Whether a score and a move are what a search of the position to the given
/// depth may return.
///
/// At depth 0 the score is one that the engine gave the position for the
/// colour, and the move is the move that began the branch. At any other
/// depth there is a list of moves that the position gave as its legal moves
/// and a score for the branch of each, and the score and the move are the
/// choice among them.
pub open spec fn spec_is_search<P: Position, E: Engine<P>>(
    engine: &E,
    position: &P,
    depth: nat,
    color: Color,
    original_move: Option<MoveView>,
    score: Score,
    chosen: MoveView,
) -> bool
    decreases depth, 1nat,
{
    if depth == 0 {
        call_ensures(E::evaluate, (engine, position, color), score) && original_move == Some(
            chosen,
        )
    } else {
        exists|moves: Vec<Move>, scored: Seq<(Score, Move)>|
            #![trigger call_ensures(P::legal_moves, (position,), moves), spec_is_choice(score, chosen, scored)]
            call_ensures(P::legal_moves, (position,), moves) && spec_are_branches(
                engine,
                position,
                moves@,
                depth,
                color,
                original_move,
                scored,
            ) && spec_is_choice(score, chosen, scored)
    }
}

/// Whether a list of scored moves holds, for each of the given moves in
/// order, what the search of its branch may return.
pub open spec fn spec_are_branches<P: Position, E: Engine<P>>(
    engine: &E,
    position: &P,
    moves: Seq<Move>,
    depth: nat,
    color: Color,
    original_move: Option<MoveView>,
    scored: Seq<(Score, Move)>,
) -> bool
    decreases depth, 0nat, 1nat,
{
    scored.len() == moves.len() && forall|i: int|
        0 <= i < scored.len() ==> spec_is_branch(
            engine,
            position,
            moves[i]@,
            depth,
            color,
            original_move,
            #[trigger] scored[i],
        )
}

/// The move that began the branch that a move continues: the move itself if
/// it is the first of the branch.
pub open spec fn spec_first(original_move: Option<MoveView>, played: MoveView) -> MoveView {
    match original_move {
        Some(first) => first,
        None => played,
    }
}

/// Whether the score of a branch is the opposite of the score that the
/// search below it returned with a move.
pub open spec fn spec_is_opposite(branch: Score, score: Score, chosen: MoveView) -> bool {
    branch == score.spec_negate()
}

/// Whether a scored move is what the search of the branch of a move may
/// return: the move itself, with the worst score if the position refuses it,
/// and else with the opposite of a score that a search one ply less deep may
/// return for the position after the move. The move that began the branch is
/// handed down; the branches of the first ply begin with their own move.
pub open spec fn spec_is_branch<P: Position, E: Engine<P>>(
    engine: &E,
    position: &P,
    played: MoveView,
    depth: nat,
    color: Color,
    original_move: Option<MoveView>,
    scored: (Score, Move),
) -> bool
    decreases depth, 0nat, 0nat,
{
    &&& depth > 0
    &&& scored.1@ == played
    &&& exists|copy: Move, next: Option<P>| #[trigger]
        call_ensures(P::play, (position, &copy), next) && copy@ == played && match next {
            None => scored.0 == Score::Worst,
            Some(after) => exists|score: Score, chosen: MoveView| #[trigger]
                spec_is_opposite(scored.0, score, chosen) && spec_is_search(
                    engine,
                    &after,
                    (depth - 1) as nat,
                    color,
                    Some(spec_first(original_move, played)),
                    score,
                    chosen,
                ),
        }
}

/// Whether a move was chosen from a list of moves as the search chooses: a
/// pass from the empty list, and one of the moves of any other list.
pub open spec fn spec_chosen_from(chosen: MoveView, moves: Seq<Move>) -> bool {
    if moves.len() == 0 {
        chosen == MoveView::Pass
    } else {
        exists|i: int| 0 <= i < moves.len() && chosen == #[trigger] moves[i]@
    }
}

/// A search to a depth other than 0 returns a pass with the worst score if
/// the position gave no legal move, and else one of the moves it gave.
pub proof fn lemma_search_chooses<P: Position, E: Engine<P>>(
    engine: &E,
    position: &P,
    depth: nat,
    color: Color,
    original_move: Option<MoveView>,
    score: Score,
    chosen: MoveView,
)
    requires
        depth > 0,
        spec_is_search(engine, position, depth, color, original_move, score, chosen),
    ensures
        exists|moves: Vec<Move>| #[trigger]
            call_ensures(P::legal_moves, (position,), moves) && spec_chosen_from(chosen, moves@)
                && (moves@.len() == 0 ==> score == Score::Worst),
{
    let (moves, scored) = choose|moves: Vec<Move>, scored: Seq<(Score, Move)>|
        #![trigger call_ensures(P::legal_moves, (position,), moves), spec_is_choice(score, chosen, scored)]
        call_ensures(P::legal_moves, (position,), moves) && spec_are_branches(
            engine,
            position,
            moves@,
            depth,
            color,
            original_move,
            scored,
        ) && spec_is_choice(score, chosen, scored);
    if scored.len() > 0 {
        let i = choose|i: int|
            spec_is_first_best(scored, i) && score == scored[i].0 && chosen == scored[i].1@;
        assert(spec_is_branch(
            engine,
            position,
            moves@[i]@,
            depth,
            color,
            original_move,
            scored[i],
        ));
        assert(chosen == moves@[i]@);
    }
    assert(call_ensures(P::legal_moves, (position,), moves) && spec_chosen_from(chosen, moves@));
}

/// On a board, a move that the search has chosen from the moves that move
/// generation returned is a pass if the side to move has no legal move, and
/// one of its legal moves otherwise.
pub proof fn lemma_chosen_on_board(board: Board, moves: Vec<Move>, chosen: MoveView)
    requires
        call_ensures(<Board as Position>::legal_moves, (&board,), moves),
        spec_chosen_from(chosen, moves@),
    ensures
        board.spec_legal_moves().len() == 0 ==> chosen == MoveView::Pass,
        board.spec_legal_moves().len() > 0 ==> exists|i: int|
            0 <= i < board.spec_legal_moves().len() && chosen == board.spec_legal_moves()[i],
{
    crate::moves::lemma_views(moves@, moves@.len());
    if moves@.len() > 0 {
        let i = choose|i: int| 0 <= i < moves@.len() && chosen == #[trigger] moves@[i]@;
        assert(board.spec_legal_moves()[i] == moves@[i]@);
    }
}

/// The model of the move that began a branch, if the branch has begun.
pub open spec fn spec_begun(original_move: Option<Move>) -> Option<MoveView> {
    match original_move {
        Some(first) => Some(first@),
        None => None,
    }
}

/// Get the legal moves for the given position.
pub fn legal_moves<P: Position, E: Engine<P>>(engine: &E, position: &P) -> (r: Vec<Move>)
    ensures
        call_ensures(P::legal_moves, (position,), r),
{
    position.legal_moves()
}

/// Return the best move for the given position: the move that a search to
/// depth four finds for the side to move.
pub fn best_move<P: Position, E: Engine<P>>(engine: &E, position: &P) -> (r: Option<Move>)
    ensures
        r is Some,
        exists|color: Color, score: Score| #[trigger]
            spec_is_search(engine, position, SEARCH_DEPTH as nat, color, None, score, r->0@)
                && call_ensures(P::whose_turn, (position,), color),
{
    let color = position.whose_turn();
    let (score, best) = minimax(engine, position, SEARCH_DEPTH, color, None);
    let r = Some(best);
    assert(spec_is_search(engine, position, SEARCH_DEPTH as nat, color, None, score, r->0@)
        && call_ensures(P::whose_turn, (position,), color));
    r
}

/// Perform a negamax search on the given position, and return a score and a
/// move.
///
/// At depth 0 the score is the engine's evaluation of the position for
/// `color`, and the move is `original_move`, which must be there. At any
/// other depth each legal move is played on a copy of the position and
/// searched one ply less deep; the branch's score is the opposite of what
/// that search returns, or the worst score where the move is refused. The
/// result is the first of the legal moves with the best score, with that
/// score. Without a legal move it is a pass with the worst score.
pub fn minimax<P: Position, E: Engine<P>>(
    engine: &E,
    position: &P,
    depth: u32,
    color: Color,
    original_move: Option<Move>,
) -> (r: (Score, Move))
    requires
        depth == 0 ==> original_move is Some,
    ensures
        spec_is_search(engine, position, depth as nat, color, spec_begun(original_move), r.0, r.1@),
{
    if depth == 0 {
        let score = engine.evaluate(position, color);
        return match original_move {
            Some(player_move) => (score, player_move),
            None => (score, Move::Pass),
        };
    }
    let moves = position.legal_moves();
    let scored = score_branches(engine, position, &moves, depth, color, &original_move);
    let best = select_best(&scored);
    assert(call_ensures(P::legal_moves, (position,), moves) && spec_are_branches(
        engine,
        position,
        moves@,
        depth as nat,
        color,
        spec_begun(original_move),
        scored@,
    ) && spec_is_choice(best.0, best.1@, scored@));
    best
}

/// Searches one branch: plays the move on a copy of the position and returns
/// the opposite of the score that the search finds there one ply less deep,
/// together with the move. A move that is refused gets the worst score.
pub fn score_branch<P: Position, E: Engine<P>>(
    engine: &E,
    position: &P,
    legal_move: &Move,
    depth: u32,
    color: Color,
    original_move: &Option<Move>,
) -> (r: (Score, Move))
    requires
        depth > 0,
    ensures
        spec_is_branch(
            engine,
            position,
            legal_move@,
            depth as nat,
            color,
            spec_begun(*original_move),
            r,
        ),
{
    let copy = legal_move.duplicate();
    let next = position.play(&copy);
    let after = match next {
        Some(after) => after,
        None => {
            let r = (Score::Worst, legal_move.duplicate());
            assert(call_ensures(P::play, (position, &copy), next) && copy@ == legal_move@);
            return r;
        },
    };
    let first = match original_move {
        Some(player_move) => player_move.duplicate(),
        None => legal_move.duplicate(),
    };
    let (score, chosen) = minimax(engine, &after, depth - 1, color, Some(first));
    let r = (score.negate(), legal_move.duplicate());
    proof {
        assert(spec_begun(Some(first)) == Some(
            spec_first(spec_begun(*original_move), legal_move@),
        ));
        assert(spec_is_opposite(r.0, score, chosen@));
        assert(call_ensures(P::play, (position, &copy), next) && copy@ == legal_move@);
    }
    r
}

/// An engine that scores every position at random.
pub struct RandomEngine;

impl RandomEngine {
    /// The score that a drawn number of 64 bits stands for: the number made
    /// of its upper 53 bits.
    pub open spec fn spec_score_from_bits(bits: u64) -> Score {
        Score::Value((bits >> 11) as i64)
    }

    /// The score that a drawn number of 64 bits stands for: the number made
    /// of its upper 53 bits, which lies between 0 and 2^53 - 1.
    pub fn score_from_bits(bits: u64) -> (r: Score)
        ensures
            r == RandomEngine::spec_score_from_bits(bits),
            r is Value,
            0 <= r->Value_0 < 0x20_0000_0000_0000,
    {
        let high = bits >> 11;
        assert(high < 0x20_0000_0000_0000) by (bit_vector)
            requires
                high == bits >> 11,
        ;
        Score::Value(high as i64)
    }
}

impl<P: Position> Engine<P> for RandomEngine {
    /// This engine has one name: a text is its name where it is the text
    /// "Random Engine".
    open spec fn spec_is_name(&self, text: Seq<char>) -> bool {
        text == "Random Engine"@
    }

    /// The name of the engine: the text "Random Engine".
    fn name(&self) -> (r: String) {
        "Random Engine".to_string()
    }

    /// A score drawn at random from the numbers 0 to 2^53 - 1.
    fn evaluate(&self, position: &P, color: Color) -> (r: Score)
        ensures
            r is Value,
            0 <= r->Value_0 < 0x20_0000_0000_0000,
    {
        RandomEngine::score_from_bits(random_bits())
    }
}

/// Searches the branches of all the given moves with rayon's
/// `par_iter().map(..).collect()`, which hands the moves out to the threads
/// of its pool and gathers what the function given to `map` returns for each
/// in the order of the moves: the result has one entry for each move, in the
/// same place, and each entry is what [`score_branch`] returned for its
/// move.
#[verifier::external_body]
fn score_branches<P: Position, E: Engine<P>>(
    engine: &E,
    position: &P,
    moves: &Vec<Move>,
    depth: u32,
    color: Color,
    original_move: &Option<Move>,
) -> (r: Vec<(Score, Move)>)
    requires
        depth > 0,
    ensures
        spec_are_branches(
            engine,
            position,
            moves@,
            depth as nat,
            color,
            spec_begun(*original_move),
            r@,
        ),
{
    moves.par_iter().map(
        |legal_move| score_branch(engine, position, legal_move, depth, color, original_move),
    ).collect()
}

/// A random number of 64 bits from rand's thread-local generator, as
/// `thread_rng().gen()` draws it. Nothing is known of the number.
#[verifier::external_body]
fn random_bits() -> (r: u64) {
    rand::Rng::gen::<u64>(&mut rand::thread_rng())
}

} // verus!
