use terminal_portfolio::builder::build_default_fs;
use terminal_portfolio::games::ActiveGame;
use terminal_portfolio::output::CommandOutput;
use terminal_portfolio::session::Session;
use terminal_portfolio::vfs::VirtualFs;

fn submit(s: &mut Session, fs: &VirtualFs, line: &str) -> CommandOutput {
    s.submit_line(fs, line, "Mon Jan 01 2024", 1_000, 0)
}

fn texts(out: &CommandOutput) -> Vec<String> {
    out.lines.iter().map(|l| l.0.clone()).collect()
}

#[test]
fn nonempty_lines_are_recorded_trimmed() {
    let fs = build_default_fs();
    let mut s = Session::new();
    submit(&mut s, &fs, "  ls  ");
    submit(&mut s, &fs, "pwd");
    assert_eq!(s.history, vec!["ls".to_string(), "pwd".to_string()]);
    assert!(s.history_idx.is_none());
}

#[test]
fn empty_input_is_not_recorded() {
    let fs = build_default_fs();
    let mut s = Session::new();
    let out = submit(&mut s, &fs, "   ");
    assert!(out.lines.is_empty());
    assert!(!out.clear_screen);
    assert!(s.history.is_empty());
}

#[test]
fn a_started_game_intercepts_following_input() {
    let fs = build_default_fs();
    let mut s = Session::new();
    let out = submit(&mut s, &fs, "ttt");
    assert!(out.start_game.is_none(), "the game moves into the session slot");
    assert!(matches!(s.active_game, Some(ActiveGame::TicTacToe(_))));

    // "ls" now goes to the game, not the dispatcher
    let out = submit(&mut s, &fs, "ls");
    assert_eq!(texts(&out), vec!["  Invalid move! Enter a number 1-9."]);

    let out = submit(&mut s, &fs, "5");
    assert!(texts(&out).contains(&"  Your move (1-9):".to_string()));
}

#[test]
fn quit_always_leaves_the_game_and_dispatches() {
    let fs = build_default_fs();
    let mut s = Session::new();
    submit(&mut s, &fs, "ttt");
    let out = submit(&mut s, &fs, "QUIT");
    assert!(s.active_game.is_none());
    assert_eq!(out.lines[0].0, "  Nice try! But there's no escape from my portfolio.");
    assert_eq!(s.history, vec!["ttt".to_string(), "QUIT".to_string()]);
}

#[test]
fn finished_game_still_sees_input_until_quit() {
    let fs = build_default_fs();
    let mut s = Session::new();
    submit(&mut s, &fs, "typing");
    submit(&mut s, &fs, "whatever");
    match &s.active_game {
        Some(ActiveGame::TypingTest(t)) => assert!(t.finished),
        _ => panic!("typing test should still occupy the slot"),
    }
    // an ordinary command is still routed to the finished game
    let out = submit(&mut s, &fs, "again");
    assert!(texts(&out).contains(&"  === RESULTS ===".to_string()));
    assert!(s.active_game.is_some());
}

#[test]
fn finished_game_gives_way_to_a_new_launch() {
    let fs = build_default_fs();
    let mut s = Session::new();
    submit(&mut s, &fs, "typing");
    submit(&mut s, &fs, "whatever");
    let out = submit(&mut s, &fs, "ttt");
    assert!(texts(&out).contains(&"  === TIC-TAC-TOE ===".to_string()));
    assert!(matches!(s.active_game, Some(ActiveGame::TicTacToe(_))));
}

#[test]
fn dispatch_still_runs_while_no_game_is_active() {
    let fs = build_default_fs();
    let mut s = Session::new();
    submit(&mut s, &fs, "cd skills");
    assert_eq!(s.cwd, "~/skills");
}

#[test]
fn history_navigation_walks_backwards_and_forwards() {
    let fs = build_default_fs();
    let mut s = Session::new();
    submit(&mut s, &fs, "ls");
    submit(&mut s, &fs, "pwd");
    submit(&mut s, &fs, "help");

    assert_eq!(s.history_up(), Some("help".to_string()));
    assert_eq!(s.history_up(), Some("pwd".to_string()));
    assert_eq!(s.history_up(), Some("ls".to_string()));
    // stays at the oldest entry
    assert_eq!(s.history_up(), Some("ls".to_string()));

    assert_eq!(s.history_down(), Some("pwd".to_string()));
    assert_eq!(s.history_down(), Some("help".to_string()));
    // past the newest entry: cursor clears and the input empties
    assert_eq!(s.history_down(), Some(String::new()));
    assert_eq!(s.history_down(), None);
}

#[test]
fn history_up_on_empty_history_does_nothing() {
    let mut s = Session::new();
    assert_eq!(s.history_up(), None);
    assert!(s.history_idx.is_none());
}

#[test]
fn submitting_resets_the_history_cursor() {
    let fs = build_default_fs();
    let mut s = Session::new();
    submit(&mut s, &fs, "ls");
    submit(&mut s, &fs, "pwd");
    s.history_up();
    assert!(s.history_idx.is_some());
    submit(&mut s, &fs, "help");
    assert!(s.history_idx.is_none());
}
