use terminal_portfolio::games::tictactoe::{Cell, TicTacToe};
use terminal_portfolio::games::tictactoe::Cell::{Empty, O, X};
use terminal_portfolio::games::typing_test::TypingTest;
use terminal_portfolio::output::LineStyle;

fn board(cells: [Cell; 9]) -> Vec<Cell> {
    cells.to_vec()
}

fn texts(out: &terminal_portfolio::output::CommandOutput) -> Vec<String> {
    out.lines.iter().map(|l| l.0.clone()).collect()
}

#[test]
fn occupied_cell_leaves_board_unchanged() {
    let mut game = TicTacToe {
        board: board([X, X, Empty, O, O, Empty, Empty, Empty, Empty]),
        player_turn: true,
        game_over: false,
    };
    let before = game.board.clone();
    let out = game.handle_input("1");
    assert_eq!(game.board, before);
    assert!(!game.game_over);
    assert_eq!(out.lines.len(), 1);
    assert_eq!(out.lines[0].0, "  That spot is taken! Try another.");
    assert_eq!(out.lines[0].1, LineStyle::Error);
}

#[test]
fn completing_the_top_row_wins() {
    let mut game = TicTacToe {
        board: board([X, X, Empty, O, O, Empty, Empty, Empty, Empty]),
        player_turn: true,
        game_over: false,
    };
    let out = game.handle_input("3");
    assert!(game.game_over);
    assert_eq!(game.board[2], X);
    assert!(texts(&out).contains(&"  You win! Congratulations!".to_string()));
}

#[test]
fn invalid_move_is_rejected() {
    let mut game = TicTacToe::new();
    let before = game.board.clone();
    for bad in ["", "0", "10", "x", "1x", "-1", "+", "++3"] {
        let out = game.handle_input(bad);
        assert_eq!(game.board, before, "input {bad:?}");
        assert_eq!(out.lines[0].0, "  Invalid move! Enter a number 1-9.");
        assert_eq!(out.lines[0].1, LineStyle::Error);
    }
}

#[test]
fn a_plus_sign_may_front_a_move() {
    let mut game = TicTacToe::new();
    game.handle_input("+3");
    assert_eq!(game.board[2], X);
    let out = game.handle_input("+3");
    assert_eq!(out.lines[0].0, "  That spot is taken! Try another.");
}

#[test]
fn computer_takes_center_first() {
    let mut game = TicTacToe::new();
    let out = game.handle_input("1");
    assert_eq!(game.board[0], Cell::X);
    assert_eq!(game.board[4], Cell::O);
    assert!(texts(&out).contains(&"   X | 2 | 3".to_string()));
    assert!(texts(&out).contains(&"   4 | O | 6".to_string()));
    assert!(texts(&out).contains(&"  Your move (1-9):".to_string()));
}

#[test]
fn computer_blocks_an_immediate_win() {
    let mut game = TicTacToe {
        // X holds 0 and 1; O must block cell 2 after X plays elsewhere
        board: board([X, X, Empty, Empty, O, Empty, Empty, Empty, Empty]),
        player_turn: true,
        game_over: false,
    };
    game.handle_input("6");
    assert_eq!(game.board[2], O, "computer blocks the open top row");
}

#[test]
fn computer_prefers_its_own_win_over_blocking() {
    let mut game = TicTacToe {
        // O can win at 5; X threatens at 2
        board: board([X, X, Empty, O, O, Empty, Empty, Empty, Empty]),
        player_turn: true,
        game_over: false,
    };
    let out = game.handle_input("7");
    assert_eq!(game.board[5], O);
    assert!(game.game_over);
    assert!(texts(&out).contains(&"  Computer wins! Better luck next time.".to_string()));
}

#[test]
fn finished_game_replays_the_greeting() {
    let mut game = TicTacToe {
        board: board([X, X, X, O, O, Empty, Empty, Empty, Empty]),
        player_turn: true,
        game_over: true,
    };
    let out = game.handle_input("9");
    assert!(game.game_over);
    assert!(texts(&out).contains(&"  === TIC-TAC-TOE ===".to_string()));
}

#[test]
fn draw_is_reported() {
    let mut game = TicTacToe {
        // X X O / O O X / X O _; X plays 9: no winner, board full
        board: board([X, X, O, O, O, X, X, O, Empty]),
        player_turn: true,
        game_over: false,
    };
    let out = game.handle_input("9");
    assert!(game.game_over);
    assert!(texts(&out).contains(&"  It's a draw!".to_string()));
}

#[test]
fn typing_accuracy_exact_match() {
    let mut test = TypingTest { target: "cat".to_string(), start_time: Some(0), finished: false };
    let out = test.handle_input("cat", 0);
    assert!(test.finished);
    assert!(texts(&out).contains(&"  Accuracy: 100%".to_string()));
}

#[test]
fn typing_accuracy_two_of_three() {
    let mut test = TypingTest { target: "cat".to_string(), start_time: Some(0), finished: false };
    let out = test.handle_input("cag", 0);
    assert!(texts(&out).contains(&"  Accuracy: 66%".to_string()));
}

#[test]
fn typing_speed_and_rating() {
    // 250 characters in one minute: 50 words per minute
    let input: String = "a".repeat(250);
    let mut test = TypingTest {
        target: input.clone(),
        start_time: Some(0),
        finished: false,
    };
    let out = test.handle_input(&input, 60_000);
    let lines = texts(&out);
    assert!(lines.contains(&"  Speed:    50 WPM".to_string()));
    assert!(lines.contains(&"  Rating:   Good speed!".to_string()));
    assert!(lines.contains(&"  Time:     60.0s".to_string()));
}

#[test]
fn typing_time_rounds_to_the_nearest_tenth() {
    let mut test = TypingTest { target: "abc".to_string(), start_time: Some(0), finished: false };
    let out = test.handle_input("abc", 1_990);
    assert!(texts(&out).contains(&"  Time:     2.0s".to_string()));
    let mut test = TypingTest { target: "abc".to_string(), start_time: Some(0), finished: false };
    let out = test.handle_input("abc", 1_949);
    assert!(texts(&out).contains(&"  Time:     1.9s".to_string()));
}

#[test]
fn typing_zero_elapsed_time_scores_zero_speed() {
    let mut test = TypingTest { target: "abc".to_string(), start_time: None, finished: false };
    let out = test.handle_input("abc", 5_000);
    assert_eq!(test.start_time, Some(5_000));
    assert!(texts(&out).contains(&"  Speed:    0 WPM".to_string()));
    assert!(texts(&out).contains(&"  Rating:   Keep practicing!".to_string()));
}

#[test]
fn typing_new_picks_from_the_pool() {
    let t0 = TypingTest::new(0);
    assert_eq!(t0.target, "the quick brown fox jumps over the lazy dog");
    assert!(t0.start_time.is_none());
    assert!(!t0.finished);
    let t9 = TypingTest::new(9);
    assert_eq!(t9.target, "rust is a systems programming language focused on safety");
}

#[test]
fn start_output_shows_the_target() {
    let test = TypingTest::new(0);
    let out = test.start_output();
    assert!(texts(&out)
        .contains(&"  > the quick brown fox jumps over the lazy dog".to_string()));
}
