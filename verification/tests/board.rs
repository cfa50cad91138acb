use dynboard_gen::board::{
    piece_letter, random_fen_generation, square_of_pick, Board, FEN_SUFFIX, PIECES,
};

fn empty_squares() -> Vec<Option<char>> {
    vec![None; 64]
}

fn board_with_top_rank(rank: [Option<char>; 8]) -> Board {
    let mut squares = empty_squares();
    for (file, square) in rank.iter().enumerate() {
        squares[file] = *square;
    }
    Board::from_squares(squares).expect("a valid board")
}

fn top_rank_text(rank: [Option<char>; 8]) -> String {
    let text = board_with_top_rank(rank).encode();
    text.split('/').next().expect("a first rank").to_string()
}

#[test]
fn empty_board_is_eight_eights() {
    let board = Board::from_squares(empty_squares()).expect("a valid board");
    assert_eq!(board.encode(), "8/8/8/8/8/8/8/8 w KQkq - 0 1");
}

#[test]
fn full_board_has_no_digits() {
    let board = Board::from_squares(vec![Some('p'); 64]).expect("a valid board");
    assert_eq!(
        board.encode(),
        "pppppppp/pppppppp/pppppppp/pppppppp/pppppppp/pppppppp/pppppppp/pppppppp w KQkq - 0 1"
    );
}

#[test]
fn runs_between_pieces_are_merged() {
    let rank = [Some('r'), None, None, Some('k'), None, None, None, Some('R')];
    assert_eq!(top_rank_text(rank), "r2k3R");
}

#[test]
fn run_at_the_end_of_a_rank_is_written() {
    let rank = [Some('r'), None, None, None, None, None, None, None];
    assert_eq!(top_rank_text(rank), "r7");
}

#[test]
fn run_at_the_start_of_a_rank_is_written() {
    let rank = [None, None, None, None, None, None, None, Some('Q')];
    assert_eq!(top_rank_text(rank), "7Q");
}

#[test]
fn single_empty_squares_are_ones() {
    let rank = [None, Some('n'), None, Some('N'), None, Some('b'), None, Some('B')];
    assert_eq!(top_rank_text(rank), "1n1N1b1B");
}

#[test]
fn runs_do_not_carry_over_to_the_next_rank() {
    let mut squares = empty_squares();
    squares[0] = Some('k');
    squares[63] = Some('K');
    let board = Board::from_squares(squares).expect("a valid board");
    assert_eq!(board.encode(), "k7/8/8/8/8/8/8/7K w KQkq - 0 1");
}

#[test]
fn starting_position_is_written_as_usual() {
    let back = ['r', 'n', 'b', 'q', 'k', 'b', 'n', 'r'];
    let mut squares = empty_squares();
    for file in 0..8 {
        squares[file] = Some(back[file]);
        squares[8 + file] = Some('p');
        squares[48 + file] = Some('P');
        squares[56 + file] = Some(back[file].to_ascii_uppercase());
    }
    let board = Board::from_squares(squares).expect("a valid board");
    assert_eq!(
        board.encode(),
        "rnbqkbnr/pppppppp/8/8/8/8/PPPPPPPP/RNBQKBNR w KQkq - 0 1"
    );
}

#[test]
fn boards_need_not_be_legal_positions() {
    // Nothing of chess is checked: a board with nine white kings and no
    // black one is encoded like any other.
    let mut squares = empty_squares();
    for file in 0..8 {
        squares[file] = Some('K');
    }
    squares[8] = Some('K');
    let board = Board::from_squares(squares).expect("a valid board");
    assert_eq!(board.encode(), "KKKKKKKK/K7/8/8/8/8/8/8 w KQkq - 0 1");
}

#[test]
fn from_squares_wants_sixty_four_squares() {
    assert!(Board::from_squares(vec![None; 63]).is_none());
    assert!(Board::from_squares(vec![None; 65]).is_none());
    assert!(Board::from_squares(Vec::new()).is_none());
    assert!(Board::from_squares(vec![None; 64]).is_some());
}

#[test]
fn from_squares_wants_piece_letters() {
    for stranger in ['x', 'w', '1', '8', '/', ' ', '_', 'a', 'Z'] {
        let mut squares = empty_squares();
        squares[17] = Some(stranger);
        assert!(Board::from_squares(squares).is_none(), "{stranger:?} was accepted");
    }
    for letter in PIECES {
        let mut squares = empty_squares();
        squares[17] = Some(letter);
        assert!(Board::from_squares(squares).is_some(), "{letter:?} was refused");
    }
}

#[test]
fn squares_read_back_what_was_placed() {
    let mut squares = empty_squares();
    squares[8 * 2 + 5] = Some('q');
    let board = Board::from_squares(squares.clone()).expect("a valid board");
    assert_eq!(board.squares(), &squares);
    assert_eq!(board.squares()[21], Some('q'));
    assert_eq!(board.squares().len(), 64);
}

#[test]
fn piece_letters_are_the_twelve() {
    assert_eq!(PIECES.len(), 12);
    for letter in "rnbqkpRNBQKP".chars() {
        assert!(piece_letter(letter));
    }
    for stranger in "acdefghijlmostuvwxyzACDEFGHIJLMOSTUVWXYZ0123456789/ -_".chars() {
        assert!(!piece_letter(stranger), "{stranger:?}");
    }
}

#[test]
fn square_of_pick_copies_the_letter() {
    assert_eq!(square_of_pick(Some(&'n')), Some('n'));
    assert_eq!(square_of_pick(None), None);
}

fn check_shape(fen: &str) {
    assert!(fen.ends_with(" w KQkq - 0 1"), "{fen}");
    assert!(fen.ends_with(FEN_SUFFIX));
    let placement = &fen[..fen.len() - FEN_SUFFIX.len()];
    let ranks: Vec<&str> = placement.split('/').collect();
    assert_eq!(ranks.len(), 8, "{fen}");
    for rank in ranks {
        let mut squares = 0;
        let mut after_digit = false;
        for c in rank.chars() {
            if let Some(run) = c.to_digit(10) {
                assert!((1..=8).contains(&run), "{fen}");
                assert!(!after_digit, "two digits in a row in {fen}");
                after_digit = true;
                squares += run;
            } else {
                assert!(c.is_ascii_alphabetic(), "{fen}");
                assert!(piece_letter(c), "{fen}");
                after_digit = false;
                squares += 1;
            }
        }
        assert_eq!(squares, 8, "{fen}");
    }
}

#[test]
fn generated_encodings_have_eight_ranks_of_eight_squares() {
    // The shape is all that is promised: a generated board may hold any
    // number of kings, pawns on the last rank, and so on.
    for _ in 0..200 {
        check_shape(&random_fen_generation());
    }
}

#[test]
fn random_boards_hold_pieces_and_gaps() {
    let mut filled = 0;
    let mut empty = 0;
    for _ in 0..20 {
        let board = Board::random();
        check_shape(&board.encode());
        assert_eq!(board.squares().len(), 64);
        for square in board.squares() {
            match square {
                Some(letter) => {
                    assert!(piece_letter(*letter));
                    filled += 1;
                }
                None => empty += 1,
            }
        }
    }
    assert_eq!(filled + empty, 20 * 64);
    assert!(filled > 0);
    assert!(empty > 0);
}

#[test]
fn random_boards_differ() {
    let first = random_fen_generation();
    let mut differs = false;
    for _ in 0..20 {
        if random_fen_generation() != first {
            differs = true;
        }
    }
    assert!(differs);
}

fn read_back(fen: &str) -> Vec<Option<char>> {
    let placement = &fen[..fen.len() - FEN_SUFFIX.len()];
    let mut squares = Vec::new();
    for rank in placement.split('/') {
        for c in rank.chars() {
            match c.to_digit(10) {
                Some(run) => {
                    for _ in 0..run {
                        squares.push(None);
                    }
                }
                None => squares.push(Some(c)),
            }
        }
    }
    squares
}

#[test]
fn an_encoding_reads_back_to_its_board() {
    for _ in 0..100 {
        let board = Board::random();
        assert_eq!(&read_back(&board.encode()), board.squares());
    }
    let mut squares = empty_squares();
    squares[9] = Some('b');
    squares[10] = Some('B');
    squares[40] = Some('n');
    let board = Board::from_squares(squares.clone()).expect("a valid board");
    assert_eq!(board.encode(), "8/1bB5/8/8/8/n7/8/8 w KQkq - 0 1");
    assert_eq!(read_back(&board.encode()), squares);
}
