//! Board positions and their text encoding.
//!
//! A board is 64 squares, rank by rank; a square is empty or holds one of
//! twelve piece letters. Its encoding writes each rank left to right, a run
//! of empty squares as one digit, joins the ranks with `/` and ends with a
//! fixed tail. No rule of chess is checked: a board may hold any pieces.

use crate::chance::{pick, random_ratio, thread_rng};
use crate::shape::{
    has_eight_full_ranks, has_only_piece_letters, has_suffix, lemma_eight_full_ranks,
    lemma_only_piece_letters,
};
use vstd::prelude::*;
use vstd::string::StringExecFns;

verus! {

/// The piece letters; lower case is black, upper case white.
pub const PIECES: [char; 12] = ['r', 'n', 'b', 'q', 'k', 'p', 'R', 'N', 'B', 'Q', 'K', 'P'];

/// Side to move, castling rights, en-passant square and move counters: the
/// same for every encoding.
pub const FEN_SUFFIX: &'static str = " w KQkq - 0 1";

/// Squares in a rank, and ranks on a board.
pub const SIDE: usize = 8;

/// Squares on a board.
pub const SQUARES: usize = 64;

/// Whether `c` is one of the twelve piece letters.
pub open spec fn is_piece_letter(c: char) -> bool {
    PIECES@.contains(c)
}

/// A board's squares: 64 of them, each empty or a piece letter.
pub open spec fn valid_board(squares: Seq<Option<char>>) -> bool {
    &&& squares.len() == 64
    &&& forall|i: int|
        0 <= i < 64 ==> (#[trigger] squares[i] matches Some(letter) ==> is_piece_letter(letter))
}

/// The squares of rank `rank`, counted from the top.
pub open spec fn rank_of(squares: Seq<Option<char>>, rank: int) -> Seq<Option<char>> {
    squares.subrange(8 * rank, 8 * rank + 8)
}

/// The digit that writes a run of `run` empty squares.
pub open spec fn run_digit(run: int) -> char {
    ('0' as int + run) as char
}

/// What a pending run of `run` empty squares adds to the text when it ends:
/// nothing if there is none, else its digit.
pub open spec fn run_text(run: int) -> Seq<char> {
    if run == 0 {
        Seq::empty()
    } else {
        seq![run_digit(run)]
    }
}

/// The text of `squares` when `run` empty squares are already pending to
/// their left.
pub open spec fn rank_text_from(squares: Seq<Option<char>>, run: int) -> Seq<char>
    decreases squares.len(),
{
    if squares.len() == 0 {
        run_text(run)
    } else {
        match squares[0] {
            Some(letter) => run_text(run) + seq![letter] + rank_text_from(squares.drop_first(), 0),
            None => rank_text_from(squares.drop_first(), run + 1),
        }
    }
}

/// The text of one rank.
pub open spec fn rank_text(squares: Seq<Option<char>>) -> Seq<char> {
    rank_text_from(squares, 0)
}

/// The texts of the first `ranks` ranks, joined by `/`.
pub open spec fn placement_text(squares: Seq<Option<char>>, ranks: nat) -> Seq<char>
    decreases ranks,
{
    if ranks == 0 {
        Seq::empty()
    } else if ranks == 1 {
        rank_text(rank_of(squares, 0))
    } else {
        placement_text(squares, (ranks - 1) as nat) + seq!['/'] + rank_text(
            rank_of(squares, ranks - 1),
        )
    }
}

/// The encoding of a board: its eight ranks, then the fixed tail.
pub open spec fn board_text(squares: Seq<Option<char>>) -> Seq<char> {
    placement_text(squares, 8) + FEN_SUFFIX@
}

/// Tells whether `c` is a piece letter.
pub fn piece_letter(c: char) -> (known: bool)
    ensures
        known == is_piece_letter(c),
{
    let mut i: usize = 0;
    while i < 12
        invariant
            i <= 12,
            forall|j: int| 0 <= j < i ==> PIECES@[j] != c,
        decreases 12 - i,
    {
        if PIECES[i] == c {
            return true;
        }
        i += 1;
    }
    false
}

/// The digit for a run of `run` empty squares.
fn run_char(run: u8) -> (digit: char)
    requires
        1 <= run <= 8,
    ensures
        digit == run_digit(run as int),
{
    match run {
        1 => '1',
        2 => '2',
        3 => '3',
        4 => '4',
        5 => '5',
        6 => '6',
        7 => '7',
        _ => '8',
    }
}

/// A board position.
pub struct Board {
    squares: Vec<Option<char>>,
}

impl View for Board {
    type V = Seq<Option<char>>;

    closed spec fn view(&self) -> Seq<Option<char>> {
        self.squares@
    }
}

impl Board {
    #[verifier::type_invariant]
    spec fn well_formed(&self) -> bool {
        valid_board(self.squares@)
    }

    /// Makes a board of the given squares, listed rank by rank from the top
    /// left, if they are 64 and every piece is a known letter.
    pub fn from_squares(squares: Vec<Option<char>>) -> (board: Option<Board>)
        ensures
            board is Some <==> valid_board(squares@),
            board matches Some(b) ==> b@ == squares@,
    {
        if squares.len() != SQUARES {
            return None;
        }
        let mut i: usize = 0;
        while i < SQUARES
            invariant
                i <= 64,
                squares@.len() == 64,
                forall|j: int|
                    0 <= j < i ==> (#[trigger] squares@[j] matches Some(letter)
                        ==> is_piece_letter(letter)),
            decreases 64 - i,
        {
            match squares[i] {
                Some(letter) => {
                    if !piece_letter(letter) {
                        return None;
                    }
                },
                None => {},
            }
            i += 1;
        }
        Some(Board { squares })
    }

    /// Draws a board: each square on its own is filled with probability one
    /// half, and a filled square gets a letter picked evenly among the twelve.
    pub fn random() -> (board: Board)
        ensures
            valid_board(board@),
    {
        let mut rng = thread_rng();
        let mut squares: Vec<Option<char>> = Vec::new();
        while squares.len() < SQUARES
            invariant
                squares@.len() <= 64,
                forall|j: int|
                    0 <= j < squares@.len() ==> (#[trigger] squares@[j] matches Some(letter)
                        ==> is_piece_letter(letter)),
            decreases 64 - squares@.len(),
        {
            let square = if random_ratio(&mut rng, 1, 2) {
                square_of_pick(pick(&PIECES, &mut rng))
            } else {
                None
            };
            squares.push(square);
        }
        Board { squares }
    }

    /// The board's squares, rank by rank from the top left.
    pub fn squares(&self) -> (squares: &Vec<Option<char>>)
        ensures
            valid_board(self@),
            squares@ == self@,
    {
        proof {
            use_type_invariant(self);
        }
        &self.squares
    }

    /// Appends the text of rank `rank` to `text`.
    fn push_rank(&self, rank: usize, text: &mut String)
        requires
            rank < 8,
        ensures
            final(text)@ == old(text)@ + rank_text(rank_of(self@, rank as int)),
    {
        proof {
            use_type_invariant(self);
        }
        let ghost start = text@;
        let ghost squares = rank_of(self@, rank as int);
        let mut run: u8 = 0;
        let mut file: usize = 0;
        assert(squares.subrange(0, 8) =~= squares);
        while file < SIDE
            invariant
                rank < 8,
                file <= 8,
                run <= file,
                valid_board(self@),
                self@ == self.squares@,
                squares == rank_of(self@, rank as int),
                text@ + rank_text_from(squares.subrange(file as int, 8), run as int) == start
                    + rank_text(squares),
            decreases 8 - file,
        {
            let ghost rest = squares.subrange(file as int, 8);
            assert(rest.drop_first() =~= squares.subrange(file + 1, 8));
            assert(rest[0] == self@[8 * rank + file]);
            let ghost before = text@;
            match self.squares[SIDE * rank + file] {
                Some(letter) => {
                    if run > 0 {
                        text.push(run_char(run));
                    }
                    text.push(letter);
                    assert(text@ =~= before + (run_text(run as int) + seq![letter]));
                    assert(text@ + rank_text_from(rest.drop_first(), 0) =~= before
                        + rank_text_from(rest, run as int));
                    run = 0;
                },
                None => {
                    run += 1;
                },
            }
            file += 1;
        }
        assert(squares.subrange(8, 8) =~= Seq::empty());
        if run > 0 {
            text.push(run_char(run));
        }
        assert(text@ =~= start + rank_text(squares));
    }

    /// Writes the board as text.
    pub fn encode(&self) -> (text: String)
        ensures
            valid_board(self@),
            text@ == board_text(self@),
            has_eight_full_ranks(text@),
            has_only_piece_letters(text@),
            has_suffix(text@),
    {
        proof {
            use_type_invariant(self);
            lemma_eight_full_ranks(self@);
            lemma_only_piece_letters(self@);
        }
        let mut text = String::new();
        let mut rank: usize = 0;
        while rank < SIDE
            invariant
                rank <= 8,
                text@ == placement_text(self@, rank as nat),
            decreases 8 - rank,
        {
            if rank > 0 {
                text.push('/');
            }
            self.push_rank(rank, &mut text);
            rank += 1;
        }
        text.append(FEN_SUFFIX);
        text
    }
}

/// The square a draw among the piece letters fills: the letter drawn, or an
/// empty square where nothing could be drawn.
pub fn square_of_pick(picked: Option<&char>) -> (square: Option<char>)
    ensures
        square == match picked {
            Some(letter) => Some(*letter),
            None => None::<char>,
        },
{
    match picked {
        Some(letter) => Some(*letter),
        None => None,
    }
}

/// Draws a board and writes it as text.
pub fn random_fen_generation() -> (fen: String)
    ensures
        exists|squares: Seq<Option<char>>| valid_board(squares) && fen@ == board_text(squares),
        has_eight_full_ranks(fen@),
        has_only_piece_letters(fen@),
        has_suffix(fen@),
{
    let board = Board::random();
    board.encode()
}

} // verus!
