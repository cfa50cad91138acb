//! The shape of an encoding, read off its text alone, and the proof that
//! every board's encoding has it.

use crate::board::{
    board_text, is_piece_letter, placement_text, rank_of, rank_text, rank_text_from, run_digit,
    run_text, valid_board, FEN_SUFFIX, PIECES,
};
use vstd::prelude::*;

verus! {

/// Whether `c` is a decimal digit.
pub open spec fn is_digit(c: char) -> bool {
    '0' as int <= c as int <= '9' as int
}

/// Whether `c` is a letter of the Latin alphabet.
pub open spec fn is_letter(c: char) -> bool {
    ||| 'a' as int <= c as int <= 'z' as int
    ||| 'A' as int <= c as int <= 'Z' as int
}

/// The squares one character of a rank stands for: a digit for as many as
/// its value, a letter for one, anything else for none.
pub open spec fn char_span(c: char) -> int {
    if is_digit(c) {
        c as int - '0' as int
    } else if is_letter(c) {
        1
    } else {
        0
    }
}

/// The squares a text stands for: the sum over its characters.
pub open spec fn span(text: Seq<char>) -> int
    decreases text.len(),
{
    if text.len() == 0 {
        0
    } else {
        span(text.drop_last()) + char_span(text.last())
    }
}

/// The pieces of `text` between its `/` characters, in order. A text
/// without `/` is its own single piece.
pub open spec fn segments(text: Seq<char>) -> Seq<Seq<char>>
    decreases text.len(),
{
    if text.len() == 0 {
        seq![Seq::empty()]
    } else {
        let before = segments(text.drop_last());
        if text.last() == '/' {
            before.push(Seq::empty())
        } else {
            before.drop_last().push(before.last().push(text.last()))
        }
    }
}

/// The part of an encoding before the fixed tail.
pub open spec fn placement_of(text: Seq<char>) -> Seq<char> {
    text.subrange(0, text.len() - FEN_SUFFIX@.len())
}

/// Whether `text` ends with the fixed tail.
pub open spec fn has_suffix(text: Seq<char>) -> bool {
    &&& text.len() >= FEN_SUFFIX@.len()
    &&& text.subrange(text.len() - FEN_SUFFIX@.len(), text.len() as int) == FEN_SUFFIX@
}

/// Whether the placement of `text` is eight pieces between `/`, each
/// standing for eight squares.
pub open spec fn has_eight_full_ranks(text: Seq<char>) -> bool {
    &&& text.len() >= FEN_SUFFIX@.len()
    &&& segments(placement_of(text)).len() == 8
    &&& forall|r: int| 0 <= r < 8 ==> span(#[trigger] segments(placement_of(text))[r]) == 8
}

/// Whether every letter in the placement of `text` is a piece letter.
pub open spec fn has_only_piece_letters(text: Seq<char>) -> bool {
    &&& text.len() >= FEN_SUFFIX@.len()
    &&& forall|i: int|
        0 <= i < placement_of(text).len() && is_letter(#[trigger] placement_of(text)[i])
            ==> is_piece_letter(placement_of(text)[i])
}

/// What may stand in a rank's text: a piece letter or a digit from 1 to 8.
pub open spec fn is_rank_char(c: char) -> bool {
    is_piece_letter(c) || ('1' as int <= c as int <= '8' as int)
}

/// A piece letter is one of the twelve, is a letter, and is no digit and
/// no `/`.
pub proof fn lemma_piece_letter(c: char)
    ensures
        is_piece_letter(c) <==> (c == 'r' || c == 'n' || c == 'b' || c == 'q' || c == 'k' || c
            == 'p' || c == 'R' || c == 'N' || c == 'B' || c == 'Q' || c == 'K' || c == 'P'),
        is_piece_letter(c) ==> is_letter(c) && !is_digit(c) && c != '/' && char_span(c) == 1,
{
    assert(PIECES@[0] == 'r' && PIECES@[1] == 'n' && PIECES@[2] == 'b' && PIECES@[3] == 'q');
    assert(PIECES@[4] == 'k' && PIECES@[5] == 'p' && PIECES@[6] == 'R' && PIECES@[7] == 'N');
    assert(PIECES@[8] == 'B' && PIECES@[9] == 'Q' && PIECES@[10] == 'K' && PIECES@[11] == 'P');
    if is_piece_letter(c) {
        let i = choose|i: int| 0 <= i < PIECES@.len() && PIECES@[i] == c;
        assert(0 <= i < 12);
    }
}

/// The span of two texts in a row is the sum of their spans.
pub proof fn lemma_span_concat(a: Seq<char>, b: Seq<char>)
    ensures
        span(a + b) == span(a) + span(b),
    decreases b.len(),
{
    if b.len() == 0 {
        assert(a + b =~= a);
    } else {
        assert((a + b).drop_last() =~= a + b.drop_last());
        lemma_span_concat(a, b.drop_last());
    }
}

/// A pending run that fits a rank stands for as many squares as it is long,
/// and is written with rank characters only.
proof fn lemma_run_text(run: int)
    requires
        0 <= run <= 8,
    ensures
        span(run_text(run)) == run,
        forall|i: int| 0 <= i < run_text(run).len() ==> is_rank_char(#[trigger] run_text(run)[i]),
{
    if run > 0 {
        let text = run_text(run);
        assert(text.drop_last() =~= Seq::<char>::empty());
        assert(span(text.drop_last()) == 0);
        assert(text.last() == run_digit(run));
    }
}

/// The text of some squares with a run pending stands for the run and the
/// squares, and holds rank characters only.
pub proof fn lemma_rank_text_from(squares: Seq<Option<char>>, run: int)
    requires
        0 <= run,
        run + squares.len() <= 8,
        forall|i: int|
            0 <= i < squares.len() ==> (#[trigger] squares[i] matches Some(letter)
                ==> is_piece_letter(letter)),
    ensures
        span(rank_text_from(squares, run)) == run + squares.len(),
        forall|i: int|
            0 <= i < rank_text_from(squares, run).len() ==> is_rank_char(
                #[trigger] rank_text_from(squares, run)[i],
            ),
    decreases squares.len(),
{
    lemma_run_text(run);
    if squares.len() > 0 {
        let rest = squares.drop_first();
        assert forall|i: int| 0 <= i < rest.len() implies (#[trigger] rest[i] matches Some(letter)
            ==> is_piece_letter(letter)) by {
            assert(rest[i] == squares[i + 1]);
        }
        match squares[0] {
            Some(letter) => {
                lemma_rank_text_from(rest, 0);
                lemma_piece_letter(letter);
                let head = run_text(run) + seq![letter];
                lemma_span_concat(run_text(run), seq![letter]);
                assert(seq![letter].drop_last() =~= Seq::<char>::empty());
                assert(span(seq![letter].drop_last()) == 0);
                assert(seq![letter].last() == letter);
                lemma_span_concat(head, rank_text_from(rest, 0));
            },
            None => {
                lemma_rank_text_from(rest, run + 1);
            },
        }
    }
}

/// Adding a text without `/` to the end of another lengthens the last
/// piece and leaves the others.
pub proof fn lemma_segments_extend(text: Seq<char>, more: Seq<char>)
    requires
        forall|i: int| 0 <= i < more.len() ==> more[i] != '/',
    ensures
        segments(text).len() >= 1,
        segments(text + more) == segments(text).drop_last().push(segments(text).last() + more),
    decreases more.len(),
{
    lemma_segments_nonempty(text);
    if more.len() == 0 {
        assert(text + more =~= text);
        assert(segments(text).last() + more =~= segments(text).last());
        assert(segments(text).drop_last().push(segments(text).last()) =~= segments(text));
    } else {
        let shorter = more.drop_last();
        assert((text + more).drop_last() =~= text + shorter);
        assert((text + more).last() == more.last());
        lemma_segments_extend(text, shorter);
        let before = segments(text + shorter);
        assert(before.last().push(more.last()) =~= segments(text).last() + more);
        assert(before.drop_last() =~= segments(text).drop_last());
    }
}

/// Every text has at least one piece.
pub proof fn lemma_segments_nonempty(text: Seq<char>)
    ensures
        segments(text).len() >= 1,
    decreases text.len(),
{
    if text.len() > 0 {
        lemma_segments_nonempty(text.drop_last());
    }
}

/// The pieces of the first `ranks` ranks' text are the texts of those
/// ranks.
pub proof fn lemma_placement_segments(squares: Seq<Option<char>>, ranks: nat)
    requires
        valid_board(squares),
        1 <= ranks <= 8,
    ensures
        segments(placement_text(squares, ranks)).len() == ranks,
        forall|r: int|
            0 <= r < ranks ==> #[trigger] segments(placement_text(squares, ranks))[r] == rank_text(
                rank_of(squares, r),
            ),
    decreases ranks,
{
    let last = rank_text(rank_of(squares, ranks - 1));
    lemma_rank_of(squares, ranks - 1);
    assert forall|i: int| 0 <= i < last.len() implies last[i] != '/' by {
        lemma_piece_letter(last[i]);
    }
    if ranks == 1 {
        let nothing = Seq::<char>::empty();
        assert(nothing + last =~= last);
        lemma_segments_extend(nothing, last);
        assert(segments(nothing) =~= seq![nothing]);
    } else {
        let earlier = placement_text(squares, (ranks - 1) as nat);
        lemma_placement_segments(squares, (ranks - 1) as nat);
        let cut = earlier.push('/');
        assert(cut.drop_last() =~= earlier);
        assert(segments(cut) == segments(earlier).push(Seq::empty()));
        assert(earlier + seq!['/'] + last =~= cut + last);
        lemma_segments_extend(cut, last);
        assert(Seq::<char>::empty() + last =~= last);
        assert(segments(cut).drop_last() =~= segments(earlier));
    }
}

/// A rank of a valid board stands for eight squares and is written with
/// rank characters only.
pub proof fn lemma_rank_of(squares: Seq<Option<char>>, rank: int)
    requires
        valid_board(squares),
        0 <= rank < 8,
    ensures
        rank_of(squares, rank).len() == 8,
        span(rank_text(rank_of(squares, rank))) == 8,
        forall|i: int|
            0 <= i < rank_text(rank_of(squares, rank)).len() ==> is_rank_char(
                #[trigger] rank_text(rank_of(squares, rank))[i],
            ),
{
    let row = rank_of(squares, rank);
    assert forall|i: int| 0 <= i < row.len() implies (#[trigger] row[i] matches Some(letter)
        ==> is_piece_letter(letter)) by {
        assert(row[i] == squares[8 * rank + i]);
    }
    lemma_rank_text_from(row, 0);
}

/// The placement of a board's encoding is the text of its eight ranks.
pub proof fn lemma_placement_of_board_text(squares: Seq<Option<char>>)
    ensures
        has_suffix(board_text(squares)),
        placement_of(board_text(squares)) == placement_text(squares, 8),
{
    let placement = placement_text(squares, 8);
    let text = board_text(squares);
    assert(text.subrange(0, placement.len() as int) =~= placement);
    assert(text.subrange(placement.len() as int, text.len() as int) =~= FEN_SUFFIX@);
}

/// Every board's encoding has exactly eight ranks between its `/`
/// characters, and in each the digits' values and the number of letters add
/// up to eight.
pub proof fn lemma_eight_full_ranks(squares: Seq<Option<char>>)
    requires
        valid_board(squares),
    ensures
        has_eight_full_ranks(board_text(squares)),
{
    lemma_placement_of_board_text(squares);
    lemma_placement_segments(squares, 8);
    let pieces = segments(placement_of(board_text(squares)));
    assert forall|r: int| 0 <= r < 8 implies span(#[trigger] pieces[r]) == 8 by {
        lemma_rank_of(squares, r);
    }
}

/// The text of the first `ranks` ranks holds only `/` and rank characters.
proof fn lemma_placement_chars(squares: Seq<Option<char>>, ranks: nat)
    requires
        valid_board(squares),
        ranks <= 8,
    ensures
        forall|i: int|
            0 <= i < placement_text(squares, ranks).len() ==> {
                let c = #[trigger] placement_text(squares, ranks)[i];
                c == '/' || is_rank_char(c)
            },
    decreases ranks,
{
    if ranks >= 1 {
        let last = rank_text(rank_of(squares, ranks - 1));
        lemma_rank_of(squares, ranks - 1);
        if ranks > 1 {
            let earlier = placement_text(squares, (ranks - 1) as nat);
            lemma_placement_chars(squares, (ranks - 1) as nat);
            let whole = placement_text(squares, ranks);
            assert(whole == earlier + seq!['/'] + last);
            assert forall|i: int| 0 <= i < whole.len() implies {
                let c = #[trigger] whole[i];
                c == '/' || is_rank_char(c)
            } by {
                if i < earlier.len() {
                    assert(whole[i] == earlier[i]);
                } else if i == earlier.len() {
                    assert(whole[i] == '/');
                } else {
                    assert(whole[i] == last[i - earlier.len() - 1]);
                }
            }
        }
    }
}

/// In every board's encoding each letter before the fixed tail is one of
/// the twelve piece letters, and the encoding ends with the fixed tail.
pub proof fn lemma_only_piece_letters(squares: Seq<Option<char>>)
    requires
        valid_board(squares),
    ensures
        has_only_piece_letters(board_text(squares)),
        has_suffix(board_text(squares)),
{
    lemma_placement_of_board_text(squares);
    lemma_placement_chars(squares, 8);
    let placement = placement_of(board_text(squares));
    assert forall|i: int| 0 <= i < placement.len() && is_letter(#[trigger] placement[i]) implies
        is_piece_letter(placement[i]) by {
        let c = placement[i];
        assert(c == '/' || is_rank_char(c));
    }
}

/// `count` empty squares.
pub open spec fn empty_squares(count: int) -> Seq<Option<char>> {
    Seq::new(count as nat, |i: int| None::<char>)
}

/// The squares a rank's text stands for: a digit for as many empty squares
/// as its value, any other character for a square that holds it.
pub open spec fn expand(text: Seq<char>) -> Seq<Option<char>>
    decreases text.len(),
{
    if text.len() == 0 {
        Seq::empty()
    } else if is_digit(text.last()) {
        expand(text.drop_last()) + empty_squares(char_span(text.last()))
    } else {
        expand(text.drop_last()).push(Some(text.last()))
    }
}

/// Whether no two digits stand side by side in `text`.
pub open spec fn runs_are_merged(text: Seq<char>) -> bool {
    forall|i: int| 0 <= i < text.len() - 1 ==> !(is_digit(#[trigger] text[i]) && is_digit(text[i + 1]))
}

/// Two texts in a row stand for the squares of the first, then those of the
/// second.
pub proof fn lemma_expand_concat(a: Seq<char>, b: Seq<char>)
    ensures
        expand(a + b) == expand(a) + expand(b),
    decreases b.len(),
{
    if b.len() == 0 {
        assert(a + b =~= a);
        assert(expand(a) + expand(b) =~= expand(a));
    } else {
        assert((a + b).drop_last() =~= a + b.drop_last());
        lemma_expand_concat(a, b.drop_last());
        assert(expand(a + b) =~= expand(a) + expand(b));
    }
}

/// The text of some squares with a run pending stands for the run's empty
/// squares followed by those squares, and holds no two digits side by side.
pub proof fn lemma_rank_text_expands(squares: Seq<Option<char>>, run: int)
    requires
        0 <= run,
        run + squares.len() <= 8,
        forall|i: int|
            0 <= i < squares.len() ==> (#[trigger] squares[i] matches Some(letter)
                ==> is_piece_letter(letter)),
    ensures
        expand(rank_text_from(squares, run)) == empty_squares(run) + squares,
        runs_are_merged(rank_text_from(squares, run)),
    decreases squares.len(),
{
    let pending = run_text(run);
    assert(expand(pending) =~= empty_squares(run)) by {
        if run > 0 {
            assert(pending.drop_last() =~= Seq::<char>::empty());
            assert(expand(pending.drop_last()) =~= Seq::<Option<char>>::empty());
            assert(pending.last() == run_digit(run));
        }
    }
    if squares.len() == 0 {
        assert(empty_squares(run) + squares =~= empty_squares(run));
    } else {
        let rest = squares.drop_first();
        assert forall|i: int| 0 <= i < rest.len() implies (#[trigger] rest[i] matches Some(letter)
            ==> is_piece_letter(letter)) by {
            assert(rest[i] == squares[i + 1]);
        }
        match squares[0] {
            Some(letter) => {
                lemma_rank_text_expands(rest, 0);
                lemma_piece_letter(letter);
                let tail = rank_text_from(rest, 0);
                let head = pending + seq![letter];
                assert(head.drop_last() =~= pending);
                assert(expand(head) =~= empty_squares(run).push(Some(letter)));
                lemma_expand_concat(head, tail);
                assert(empty_squares(0) + rest =~= rest);
                assert(expand(head) + rest =~= empty_squares(run) + squares);
                let whole = rank_text_from(squares, run);
                assert(whole == head + tail);
                assert forall|i: int| 0 <= i < whole.len() - 1 implies !(is_digit(
                    #[trigger] whole[i],
                ) && is_digit(whole[i + 1])) by {
                    if i + 1 < head.len() {
                        assert(whole[i + 1] == letter);
                    } else if i < head.len() {
                        assert(whole[i] == letter);
                    } else {
                        assert(whole[i] == tail[i - head.len()]);
                        assert(whole[i + 1] == tail[i - head.len() + 1]);
                    }
                }
            },
            None => {
                lemma_rank_text_expands(rest, run + 1);
                assert(empty_squares(run + 1) + rest =~= empty_squares(run) + squares);
            },
        }
    }
}

/// A board can be read back from its encoding: the text between the `/`
/// characters stands, rank by rank, for the board's own squares, and never
/// writes a run of empty squares in two digits.
pub proof fn lemma_encoding_expands_to_board(squares: Seq<Option<char>>)
    requires
        valid_board(squares),
    ensures
        forall|r: int|
            0 <= r < 8 ==> expand(#[trigger] segments(placement_of(board_text(squares)))[r])
                == rank_of(squares, r),
        forall|r: int|
            0 <= r < 8 ==> runs_are_merged(
                #[trigger] segments(placement_of(board_text(squares)))[r],
            ),
{
    lemma_placement_of_board_text(squares);
    lemma_placement_segments(squares, 8);
    let pieces = segments(placement_of(board_text(squares)));
    assert forall|r: int| 0 <= r < 8 implies expand(#[trigger] pieces[r]) == rank_of(squares, r)
        && runs_are_merged(pieces[r]) by {
        let row = rank_of(squares, r);
        assert forall|i: int| 0 <= i < row.len() implies (#[trigger] row[i] matches Some(letter)
            ==> is_piece_letter(letter)) by {
            assert(row[i] == squares[8 * r + i]);
        }
        lemma_rank_text_expands(row, 0);
        assert(empty_squares(0) + row =~= row);
    }
}

} // verus!
