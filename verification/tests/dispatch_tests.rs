use terminal_portfolio::builder::build_default_fs;
use terminal_portfolio::commands::dispatch;
use terminal_portfolio::games::ActiveGame;
use terminal_portfolio::output::{CommandOutput, LineStyle};
use terminal_portfolio::theme::{ColorScheme, ThemeState};
use terminal_portfolio::tokenizer::parse;

struct World {
    fs: terminal_portfolio::vfs::VirtualFs,
    cwd: String,
    theme: ThemeState,
    history: Vec<String>,
}

impl World {
    fn new() -> Self {
        World {
            fs: build_default_fs(),
            cwd: "~".to_string(),
            theme: ThemeState::new(),
            history: Vec::new(),
        }
    }

    fn run(&mut self, line: &str) -> CommandOutput {
        let parsed = parse(line);
        dispatch(
            &parsed,
            &self.fs,
            &mut self.cwd,
            &mut self.theme,
            &self.history,
            "Mon Jan 01 2024",
            0,
        )
    }
}

fn texts(out: &CommandOutput) -> Vec<String> {
    out.lines.iter().map(|l| l.0.clone()).collect()
}

#[test]
fn empty_input_is_a_quiet_no_op() {
    let mut w = World::new();
    let out = w.run("   ");
    assert!(out.lines.is_empty());
    assert!(!out.clear_screen);
    assert!(!out.typewriter);
    assert!(out.start_game.is_none());
}

#[test]
fn clear_empties_the_screen_regardless_of_state() {
    let mut w = World::new();
    w.run("cd skills");
    w.run("theme crt");
    let out = w.run("clear");
    assert!(out.clear_screen);
    assert!(out.lines.is_empty());
}

#[test]
fn pwd_echoes_the_working_directory() {
    let mut w = World::new();
    let out = w.run("pwd");
    assert_eq!(texts(&out), vec!["~"]);
    w.run("cd skills");
    let out = w.run("pwd");
    assert_eq!(texts(&out), vec!["~/skills"]);
}

#[test]
fn cd_moves_only_into_directories() {
    let mut w = World::new();
    w.run("cd projects");
    assert_eq!(w.cwd, "~/projects");

    let out = w.run("cd ../about.txt");
    assert_eq!(w.cwd, "~/projects", "a file does not become the working directory");
    assert_eq!(texts(&out), vec!["cd: not a directory: ../about.txt"]);
    assert_eq!(out.lines[0].1, LineStyle::Error);

    let out = w.run("cd ghost");
    assert_eq!(w.cwd, "~/projects");
    assert_eq!(texts(&out), vec!["cd: no such directory: ghost"]);

    w.run("cd");
    assert_eq!(w.cwd, "~");
}

#[test]
fn ls_styles_directories_and_files() {
    let mut w = World::new();
    let out = w.run("ls");
    assert_eq!(
        texts(&out),
        vec!["  about.txt", "  contact.txt", "  projects/", "  resume.txt", "  skills/"]
    );
    assert_eq!(out.lines[2].1, LineStyle::Accent);
    assert_eq!(out.lines[0].1, LineStyle::Normal);
}

#[test]
fn ls_error_names_the_argument() {
    let mut w = World::new();
    let out = w.run("ls ghost");
    assert_eq!(texts(&out), vec!["ls: cannot access 'ghost': No such directory"]);
}

#[test]
fn cat_prints_one_output_line_per_source_line() {
    let mut w = World::new();
    let out = w.run("cat resume.txt");
    assert_eq!(
        texts(&out),
        vec![
            "[Resume content coming soon]",
            "",
            "For now, check out 'about', 'skills', and 'projects'.",
        ]
    );
}

#[test]
fn cat_errors() {
    let mut w = World::new();
    assert_eq!(texts(&w.run("cat")), vec!["cat: missing file argument"]);
    assert_eq!(texts(&w.run("cat skills")), vec!["cat: skills: Is a directory"]);
    assert_eq!(texts(&w.run("cat nope.txt")), vec!["cat: nope.txt: No such file"]);
}

#[test]
fn tree_error_names_the_resolved_target() {
    let mut w = World::new();
    let out = w.run("tree ghost");
    assert_eq!(texts(&out), vec!["tree: '~/ghost': No such directory"]);
}

#[test]
fn unknown_command_points_to_help() {
    let mut w = World::new();
    let out = w.run("frobnicate now");
    assert_eq!(
        texts(&out),
        vec!["  Command not found: frobnicate", "  Type 'help' for available commands."]
    );
    assert_eq!(out.lines[0].1, LineStyle::Error);
}

#[test]
fn help_lists_visible_commands_only() {
    let mut w = World::new();
    let lines = texts(&w.run("help"));
    assert_eq!(lines[1], "Available commands:");
    assert!(lines.contains(&"help         Show available commands".to_string()));
    assert!(lines.contains(&"ttt          Play Tic-Tac-Toe".to_string()));
    assert!(!lines.iter().any(|l| l.starts_with("sudo")));
    assert!(!lines.iter().any(|l| l.starts_with("neofetch")));
}

#[test]
fn echo_joins_arguments() {
    let mut w = World::new();
    assert_eq!(texts(&w.run("echo Hello   World")), vec!["  Hello World"]);
    assert_eq!(texts(&w.run("echo")), vec!["  "]);
}

#[test]
fn whoami_and_date() {
    let mut w = World::new();
    assert_eq!(texts(&w.run("whoami")), vec!["  visitor"]);
    assert_eq!(texts(&w.run("date")), vec!["  Mon Jan 01 2024"]);
}

#[test]
fn rm_needs_a_recursive_flag() {
    let mut w = World::new();
    assert_eq!(texts(&w.run("rm file")), vec!["  rm: missing operand"]);
    let out = w.run("rm -rf /");
    assert_eq!(out.lines[0].0, "  Deleting everything...");
    let out = w.run("rm -r things");
    assert_eq!(out.lines[0].0, "  Deleting everything...");
}

#[test]
fn cowsay_sizes_its_bubble() {
    let mut w = World::new();
    let out = w.run("cowsay hi");
    assert_eq!(out.lines[0].0, "   ____");
    assert_eq!(out.lines[1].0, "  < hi >");
    assert_eq!(out.lines[2].0, "   ----");
}

#[test]
fn cowsay_default_message() {
    let mut w = World::new();
    let out = w.run("cowsay");
    assert_eq!(out.lines[1].0, "  < Moo! Type 'help' for commands. >");
}

#[test]
fn history_is_numbered_and_right_aligned() {
    let mut w = World::new();
    w.history = vec!["ls".to_string(), "cd skills".to_string()];
    let out = w.run("history");
    assert_eq!(texts(&out), vec!["", "     1  ls", "     2  cd skills", ""]);
}

#[test]
fn history_numbers_wider_than_the_field_are_kept_whole() {
    let mut w = World::new();
    w.history = vec!["x".to_string(); 10000];
    let out = w.run("history");
    assert_eq!(out.lines[10000].0, "  10000  x");
}

#[test]
fn theme_toggles_and_switches() {
    let mut w = World::new();
    assert!(!w.theme.crt_enabled);
    assert_eq!(texts(&w.run("theme crt")), vec!["  CRT effect enabled."]);
    assert!(w.theme.crt_enabled);
    assert_eq!(texts(&w.run("theme crt")), vec!["  CRT effect disabled."]);
    assert!(!w.theme.crt_enabled);
    w.run("theme matrix on");
    assert!(w.theme.matrix_rain);
    w.run("theme matrix off");
    assert!(!w.theme.matrix_rain);

    assert_eq!(texts(&w.run("theme green")), vec!["  Switched to green theme."]);
    assert_eq!(w.theme.color_scheme, ColorScheme::Green);

    let out = w.run("theme bogus");
    assert_eq!(texts(&out), vec!["  Unknown theme: bogus", "  Available: orange, green, amber"]);
    assert_eq!(w.theme.color_scheme, ColorScheme::Green);
}

#[test]
fn theme_without_arguments_prints_help() {
    let mut w = World::new();
    let lines = texts(&w.run("theme"));
    assert!(lines.contains(&"  Theme commands:".to_string()));
    assert!(lines.contains(&"  theme crt          Toggle CRT scanline effect".to_string()));
}

#[test]
fn game_commands_start_games() {
    let mut w = World::new();
    let out = w.run("ttt");
    assert!(matches!(out.start_game, Some(ActiveGame::TicTacToe(_))));
    assert!(texts(&out).contains(&"  === TIC-TAC-TOE ===".to_string()));

    let out = w.run("typing");
    match out.start_game {
        Some(ActiveGame::TypingTest(t)) => {
            assert_eq!(t.target, "the quick brown fox jumps over the lazy dog");
        }
        _ => panic!("typing should start a typing test"),
    }
}

#[test]
fn content_commands_style_hints_as_muted() {
    let mut w = World::new();
    let out = w.run("skills");
    let run_line = out
        .lines
        .iter()
        .find(|l| l.0.starts_with("Run 'cat"))
        .expect("skills block has a Run hint");
    assert_eq!(run_line.1, LineStyle::Muted);
    let out = w.run("about");
    assert_eq!(out.lines[1].1, LineStyle::Accent);
}

#[test]
fn exit_aliases_share_one_answer() {
    let mut w = World::new();
    for cmd in ["exit", "quit", "logout"] {
        let out = w.run(cmd);
        assert_eq!(out.lines[0].0, "  Nice try! But there's no escape from my portfolio.");
    }
}

#[test]
fn neofetch_panel_shape() {
    let mut w = World::new();
    let lines = texts(&w.run("neofetch"));
    assert_eq!(lines.len(), 14);
    assert_eq!(lines[2], "         /       \\          visitor@portfolio");
}
