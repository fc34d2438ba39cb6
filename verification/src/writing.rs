//! Writing moves as text, and the proof that what is written is read back.
use crate::invariants::spec_on_board;
use crate::moves::{lemma_views, spec_views, Move, MoveView};
use crate::notation::{
    spec_castling_side, spec_is_space, spec_moves_of, spec_parse, spec_tile, spec_word,
    spec_words, spec_words_from,
};
use crate::piece::{CastlingSide, PieceType};
use crate::tile::Tile;
use vstd::prelude::*;

verus! {

/// The letter of a file, given its number.
pub open spec fn spec_file_letter(file: int) -> char {
    if file == 0 {
        'a'
    } else if file == 1 {
        'b'
    } else if file == 2 {
        'c'
    } else if file == 3 {
        'd'
    } else if file == 4 {
        'e'
    } else if file == 5 {
        'f'
    } else if file == 6 {
        'g'
    } else {
        'h'
    }
}

/// The digit of a rank, given its number.
pub open spec fn spec_rank_digit(rank: int) -> char {
    if rank == 0 {
        '1'
    } else if rank == 1 {
        '2'
    } else if rank == 2 {
        '3'
    } else if rank == 3 {
        '4'
    } else if rank == 4 {
        '5'
    } else if rank == 5 {
        '6'
    } else if rank == 6 {
        '7'
    } else {
        '8'
    }
}

/// What is written after a move for the kind it promotes to.
pub open spec fn spec_suffix(promotion: Option<PieceType>) -> Seq<char> {
    match promotion {
        Some(kind) => seq![kind.spec_letter()],
        None => Seq::empty(),
    }
}

/// The word that is written for a move that is no sequence.
pub open spec fn spec_write_word(player_move: MoveView) -> Seq<char> {
    match player_move {
        MoveView::FromTo { from, to, promotion } => from.spec_name() + to.spec_name()
            + spec_suffix(promotion),
        MoveView::PieceTo { piece, to, promotion } => seq![piece.spec_letter()] + to.spec_name()
            + spec_suffix(promotion),
        MoveView::Purchase { piece, to } => seq!['$', piece.spec_letter()] + to.spec_name(),
        MoveView::Castling(side) => match side {
            CastlingSide::King => seq!['O', '-', 'O'],
            CastlingSide::Queen => seq!['O', '-', 'O', '-', 'O'],
        },
        MoveView::Resign => seq!['r', 'e', 's', 'i', 'g', 'n'],
        MoveView::Pass => seq!['p', 'a', 's', 's'],
        MoveView::Many(moves) => Seq::empty(),
    }
}

/// The line that is written for the first `n` moves of a list: their lines
/// with one blank between neighbours.
pub open spec fn spec_write_all(moves: Seq<MoveView>, n: nat) -> Seq<char>
    decreases moves, n,
{
    if n == 0 || n > moves.len() {
        Seq::empty()
    } else if n == 1 {
        spec_write(moves[0])
    } else {
        spec_write_all(moves, (n - 1) as nat) + seq![' '] + spec_write(moves[n - 1])
    }
}

/// The line that is written for a move: its word, or for a sequence the
/// lines of its moves with one blank between neighbours.
pub open spec fn spec_write(player_move: MoveView) -> Seq<char>
    decreases player_move, 0nat,
{
    match player_move {
        MoveView::Many(moves) => spec_write_all(moves, moves.len()),
        _ => spec_write_word(player_move),
    }
}

/// Whether a move is a sequence of moves none of which is a sequence.
pub open spec fn spec_is_flat(player_move: MoveView) -> bool {
    match player_move {
        MoveView::Many(moves) => forall|i: int|
            0 <= i < moves.len() ==> !(#[trigger] moves[i] is Many),
        _ => true,
    }
}

impl Tile {
    /// The name of a tile: its file letter and its rank digit.
    pub open spec fn spec_name(self) -> Seq<char> {
        seq![spec_file_letter(self.spec_file()), spec_rank_digit(self.spec_rank())]
    }

    /// The name of the tile: its file letter and its rank digit.
    pub fn name(&self) -> (r: Vec<char>)
        ensures
            r@ == self.spec_name(),
    {
        proof {
            use_type_invariant(self);
        }
        let mut text: Vec<char> = Vec::new();
        text.push(self.get_file().to_char());
        text.push(self.get_rank().to_char());
        assert(text@ =~= self.spec_name());
        text
    }

    /// The name of a tile names the tile.
    pub proof fn lemma_name(self)
        requires
            self.wf(),
        ensures
            self.spec_name().len() == 2,
            spec_tile(self.spec_name()[0], self.spec_name()[1]) == Some(self),
            'a' <= self.spec_name()[0] <= 'h',
            '1' <= self.spec_name()[1] <= '8',
    {
    }
}

/// Appends the characters of `more` to `text`.
fn push_chars(text: &mut Vec<char>, more: &Vec<char>)
    ensures
        final(text)@ == old(text)@ + more@,
{
    let mut i: usize = 0;
    while i < more.len()
        invariant
            i <= more@.len(),
            text@ == old(text)@ + more@.subrange(0, i as int),
        decreases more@.len() - i,
    {
        text.push(more[i]);
        i = i + 1;
        assert(text@ =~= old(text)@ + more@.subrange(0, i as int));
    }
    assert(more@.subrange(0, i as int) =~= more@);
}

/// Appends the letter of the kind that a move promotes to, if it names one.
fn push_suffix(text: &mut Vec<char>, promotion: &Option<PieceType>)
    ensures
        final(text)@ == old(text)@ + spec_suffix(*promotion),
{
    match promotion {
        Some(kind) => {
            text.push(kind.letter());
            assert(text@ =~= old(text)@ + spec_suffix(*promotion));
        },
        None => {
            assert(text@ =~= old(text)@ + spec_suffix(*promotion));
        },
    }
}

impl Move {
    /// The word for a move that is no sequence; the empty word for a
    /// sequence.
    pub fn write_word(&self) -> (r: Vec<char>)
        ensures
            r@ == spec_write_word(self@),
    {
        let mut text: Vec<char> = Vec::new();
        match self {
            Move::FromTo { from, to, promotion } => {
                push_chars(&mut text, &from.name());
                push_chars(&mut text, &to.name());
                push_suffix(&mut text, promotion);
                assert(text@ =~= spec_write_word(self@));
            },
            Move::PieceTo { piece, to, promotion } => {
                text.push(piece.letter());
                push_chars(&mut text, &to.name());
                push_suffix(&mut text, promotion);
                assert(text@ =~= spec_write_word(self@));
            },
            Move::Purchase { piece, to } => {
                text.push('$');
                text.push(piece.letter());
                push_chars(&mut text, &to.name());
                assert(text@ =~= spec_write_word(self@));
            },
            Move::Castling(side) => {
                text.push('O');
                text.push('-');
                text.push('O');
                match side {
                    CastlingSide::King => {},
                    CastlingSide::Queen => {
                        text.push('-');
                        text.push('O');
                    },
                }
                assert(text@ =~= spec_write_word(self@));
            },
            Move::Resign => {
                text.push('r');
                text.push('e');
                text.push('s');
                text.push('i');
                text.push('g');
                text.push('n');
                assert(text@ =~= spec_write_word(self@));
            },
            Move::Pass => {
                text.push('p');
                text.push('a');
                text.push('s');
                text.push('s');
                assert(text@ =~= spec_write_word(self@));
            },
            Move::Many(moves) => {
                assert(text@ =~= spec_write_word(self@));
            },
        }
        text
    }

    /// The line for a move: its word, or for a sequence the lines of its
    /// moves with one blank between neighbours.
    pub fn write(&self) -> (r: Vec<char>)
        ensures
            r@ == spec_write(self@),
        decreases self,
    {
        match self {
            Move::Many(moves) => {
                let mut text: Vec<char> = Vec::new();
                let ghost views = spec_views(moves@, moves@.len());
                proof {
                    lemma_views(moves@, moves@.len());
                }
                let mut i: usize = 0;
                assert(text@ =~= spec_write_all(views, 0));
                while i < moves.len()
                    invariant
                        i <= moves@.len(),
                        views == spec_views(moves@, moves@.len()),
                        views.len() == moves@.len(),
                        forall|j: int| 0 <= j < views.len() ==> #[trigger] views[j] == moves@[j]@,
                        *self == Move::Many(*moves),
                        text@ == spec_write_all(views, i as nat),
                    decreases moves@.len() - i,
                {
                    proof {
                        assert(self->Many_0 == *moves);
                        assert(decreases_to!(*self => self->Many_0));
                        assert(decreases_to!(*moves => moves@));
                        assert(decreases_to!(moves@ => moves@[i as int]));
                        assert(decreases_to!(*self => moves@[i as int]));
                    }
                    if i > 0 {
                        text.push(' ');
                    }
                    let word = moves[i].write();
                    let ghost before = text@;
                    push_chars(&mut text, &word);
                    i = i + 1;
                    assert(text@ =~= spec_write_all(views, i as nat)) by {
                        assert(word@ == spec_write(views[i - 1]));
                        if i == 1 {
                            assert(before =~= Seq::<char>::empty());
                        } else {
                            assert(before =~= spec_write_all(views, (i - 1) as nat) + seq![' ']);
                        }
                    }
                }
                text
            },
            _ => self.write_word(),
        }
    }
}

/// The word of a move that is no sequence is not empty and holds no white
/// space.
pub proof fn lemma_word_is_solid(player_move: MoveView)
    requires
        spec_on_board(player_move),
        !(player_move is Many),
    ensures
        spec_write_word(player_move).len() > 0,
        forall|i: int|
            0 <= i < spec_write_word(player_move).len() ==> !spec_is_space(
                #[trigger] spec_write_word(player_move)[i],
            ),
{
    let word = spec_write_word(player_move);
    match player_move {
        MoveView::FromTo { from, to, promotion } => {
            from.lemma_name();
            to.lemma_name();
            let head = from.spec_name() + to.spec_name();
            assert(word =~= head + spec_suffix(promotion));
            assert forall|i: int| 0 <= i < word.len() implies !spec_is_space(
                #[trigger] word[i],
            ) by {
                if i < 2 {
                    assert(word[i] == from.spec_name()[i]);
                } else if i < 4 {
                    assert(word[i] == to.spec_name()[i - 2]);
                } else {
                    assert(word[i] == spec_suffix(promotion)[i - 4]);
                }
            }
        },
        MoveView::PieceTo { piece, to, promotion } => {
            to.lemma_name();
            assert forall|i: int| 0 <= i < word.len() implies !spec_is_space(
                #[trigger] word[i],
            ) by {
                if i < 1 {
                    assert(word[i] == piece.spec_letter());
                } else if i < 3 {
                    assert(word[i] == to.spec_name()[i - 1]);
                } else {
                    assert(word[i] == spec_suffix(promotion)[i - 3]);
                }
            }
        },
        MoveView::Purchase { piece, to } => {
            to.lemma_name();
            assert forall|i: int| 0 <= i < word.len() implies !spec_is_space(
                #[trigger] word[i],
            ) by {
                if i < 2 {
                } else {
                    assert(word[i] == to.spec_name()[i - 2]);
                }
            }
        },
        MoveView::Castling(side) => {},
        MoveView::Resign => {},
        MoveView::Pass => {},
        MoveView::Many(moves) => {},
    }
}

/// What is written for a move that is no sequence is read back as that move.
pub proof fn law_word_is_read_back(player_move: MoveView)
    requires
        spec_on_board(player_move),
        !(player_move is Many),
    ensures
        spec_word(spec_write_word(player_move)) == Some(player_move),
{
    let word = spec_write_word(player_move);
    let king_side = seq!['O', '-', 'O'];
    let queen_side = seq!['O', '-', 'O', '-', 'O'];
    let resign = seq!['r', 'e', 's', 'i', 'g', 'n'];
    let pass = seq!['p', 'a', 's', 's'];
    assert(king_side.len() == 3 && king_side[0] == 'O');
    assert(queen_side.len() == 5 && queen_side[0] == 'O');
    assert(resign.len() == 6 && resign[0] == 'r');
    assert(pass.len() == 4 && pass[0] == 'p');
    match player_move {
        MoveView::FromTo { from, to, promotion } => {
            from.lemma_name();
            to.lemma_name();
            assert(word[0] == from.spec_name()[0]);
            assert(word[1] == from.spec_name()[1]);
            assert(word[2] == to.spec_name()[0]);
            assert(word[3] == to.spec_name()[1]);
            match promotion {
                Some(kind) => {
                    assert(word.len() == 5);
                    assert(word[4] == kind.spec_letter());
                },
                None => {
                    assert(word.len() == 4);
                },
            }
        },
        MoveView::PieceTo { piece, to, promotion } => {
            to.lemma_name();
            assert(word[0] == piece.spec_letter());
            assert(word[1] == to.spec_name()[0]);
            assert(word[2] == to.spec_name()[1]);
            match promotion {
                Some(kind) => {
                    assert(word.len() == 4);
                    assert(word[3] == kind.spec_letter());
                    assert(spec_tile(word[0], word[1]) is None);
                },
                None => {
                    assert(word.len() == 3);
                },
            }
        },
        MoveView::Purchase { piece, to } => {
            to.lemma_name();
            assert(word.len() == 4);
            assert(word[0] == '$');
            assert(word[1] == piece.spec_letter());
            assert(word[2] == to.spec_name()[0]);
            assert(word[3] == to.spec_name()[1]);
        },
        MoveView::Castling(side) => {
            assert(king_side != queen_side);
        },
        MoveView::Resign => {
            assert(spec_castling_side(word) is None);
        },
        MoveView::Pass => {
            assert(spec_castling_side(word) is None);
            assert(word != resign);
        },
        MoveView::Many(moves) => {},
    }
}

/// A text that ends in a word without white space has that word, with the
/// characters that were gathered before it, as its last word.
pub proof fn lemma_words_of_tail(text: Seq<char>, i: int, gathered: Seq<char>)
    requires
        0 <= i <= text.len(),
        gathered.len() + (text.len() - i) > 0,
        forall|j: int| i <= j < text.len() ==> !spec_is_space(#[trigger] text[j]),
    ensures
        spec_words_from(text, i, gathered) == seq![gathered + text.subrange(i, text.len() as int)],
    decreases text.len() - i,
{
    if i == text.len() {
        assert(gathered + text.subrange(i, text.len() as int) =~= gathered);
    } else {
        lemma_words_of_tail(text, i + 1, gathered.push(text[i]));
        assert(gathered.push(text[i]) + text.subrange(i + 1, text.len() as int) =~= gathered
            + text.subrange(i, text.len() as int));
    }
}

/// A text that is followed by a blank and a word without white space has
/// the words it had before, and then that word.
pub proof fn lemma_words_of_more(text: Seq<char>, word: Seq<char>, i: int, gathered: Seq<char>)
    requires
        0 <= i <= text.len(),
        word.len() > 0,
        forall|j: int| 0 <= j < word.len() ==> !spec_is_space(#[trigger] word[j]),
    ensures
        spec_words_from(text + seq![' '] + word, i, gathered) == spec_words_from(
            text,
            i,
            gathered,
        ) + seq![word],
    decreases text.len() - i,
{
    let longer = text + seq![' '] + word;
    if i == text.len() {
        assert(longer[i] == ' ');
        assert(spec_is_space(' '));
        assert forall|j: int| i + 1 <= j < longer.len() implies !spec_is_space(
            #[trigger] longer[j],
        ) by {
            assert(longer[j] == word[j - i - 1]);
        }
        lemma_words_of_tail(longer, i + 1, Seq::empty());
        assert(Seq::<char>::empty() + longer.subrange(i + 1, longer.len() as int) =~= word);
    } else {
        assert(longer[i] == text[i]);
        if spec_is_space(text[i]) {
            lemma_words_of_more(text, word, i + 1, Seq::empty());
            let done = if gathered.len() > 0 {
                seq![gathered]
            } else {
                Seq::empty()
            };
            assert(done + (spec_words_from(text, i + 1, Seq::empty()) + seq![word]) =~= (done
                + spec_words_from(text, i + 1, Seq::empty())) + seq![word]);
        } else {
            lemma_words_of_more(text, word, i + 1, gathered.push(text[i]));
        }
    }
}

/// The line that is written for moves none of which is a sequence has their
/// words as its words, and the words are read back as the moves.
pub proof fn lemma_line_is_read_back(moves: Seq<MoveView>, n: nat)
    requires
        n <= moves.len(),
        forall|i: int| 0 <= i < moves.len() ==> spec_on_board(#[trigger] moves[i]),
        forall|i: int| 0 <= i < moves.len() ==> !(#[trigger] moves[i] is Many),
    ensures
        spec_words(spec_write_all(moves, n)).len() == n,
        forall|i: int|
            0 <= i < n ==> #[trigger] spec_words(spec_write_all(moves, n))[i] == spec_write_word(
                moves[i],
            ),
        spec_moves_of(spec_words(spec_write_all(moves, n)), n) == Some(moves.subrange(0, n as int)),
    decreases n,
{
    let line = spec_write_all(moves, n);
    if n == 0 {
        assert(spec_words(line) =~= Seq::<Seq<char>>::empty());
        assert(moves.subrange(0, 0) =~= Seq::<MoveView>::empty());
    } else {
        let word = spec_write_word(moves[n - 1]);
        assert(!(moves[n - 1] is Many));
        assert(spec_write(moves[n - 1]) == word);
        lemma_word_is_solid(moves[n - 1]);
        law_word_is_read_back(moves[n - 1]);
        if n == 1 {
            lemma_words_of_tail(word, 0, Seq::empty());
            assert(Seq::<char>::empty() + word.subrange(0, word.len() as int) =~= word);
            assert(spec_words(line) == seq![word]);
            assert(spec_moves_of(spec_words(line), 0) == Some(Seq::<MoveView>::empty()));
            assert(Seq::<MoveView>::empty().push(moves[0]) =~= moves.subrange(0, 1));
        } else {
            let before = spec_write_all(moves, (n - 1) as nat);
            lemma_line_is_read_back(moves, (n - 1) as nat);
            lemma_words_of_more(before, word, 0, Seq::empty());
            let words = spec_words(line);
            let fewer = spec_words(before);
            assert(words == fewer + seq![word]);
            lemma_moves_of_prefix(words, fewer, (n - 1) as nat);
            assert(moves.subrange(0, n - 1).push(moves[n - 1]) =~= moves.subrange(0, n as int));
        }
    }
}

/// The moves that the first words of a list name do not depend on the words
/// that follow.
pub proof fn lemma_moves_of_prefix(words: Seq<Seq<char>>, fewer: Seq<Seq<char>>, n: nat)
    requires
        n <= fewer.len() <= words.len(),
        forall|i: int| 0 <= i < fewer.len() ==> #[trigger] words[i] == fewer[i],
    ensures
        spec_moves_of(words, n) == spec_moves_of(fewer, n),
    decreases n,
{
    if n > 0 {
        lemma_moves_of_prefix(words, fewer, (n - 1) as nat);
        assert(words[n - 1] == fewer[n - 1]);
    }
}

/// What is written for a move is read back as that move, if the move is no
/// sequence or is a sequence of none or of several moves none of which is a
/// sequence.
pub proof fn law_written_is_read_back(player_move: MoveView)
    requires
        spec_on_board(player_move),
        spec_is_flat(player_move),
        !(player_move matches MoveView::Many(moves) && moves.len() == 1),
    ensures
        spec_parse(spec_write(player_move)) == Some(player_move),
{
    match player_move {
        MoveView::Many(moves) => {
            lemma_line_is_read_back(moves, moves.len());
            assert(moves.subrange(0, moves.len() as int) =~= moves);
        },
        _ => {
            let word = spec_write_word(player_move);
            lemma_word_is_solid(player_move);
            law_word_is_read_back(player_move);
            lemma_words_of_tail(word, 0, Seq::empty());
            assert(Seq::<char>::empty() + word.subrange(0, word.len() as int) =~= word);
            let words = spec_words(word);
            assert(words == seq![word]);
            assert(spec_moves_of(words, 0) == Some(Seq::<MoveView>::empty()));
            assert(spec_moves_of(words, 1) == Some(Seq::<MoveView>::empty().push(player_move)));
        },
    }
}

} // verus!
