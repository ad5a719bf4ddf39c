//! The command handlers and the dispatcher that routes parsed input
//! to them.

pub mod easter_eggs;
pub mod filesystem;
pub mod theme;

use crate::content;
use crate::games::ActiveGame;
use crate::games::tictactoe::{self, TicTacToe};
use crate::games::typing_test::{self, TypingTest};
use crate::output::{line_views, output_is, push_line, CommandOutput, LineStyle};
use crate::registry::{all_commands, registry, CommandInfoV};
use crate::text::{
    concat2, has_substring, is_prefix, join_char_spec, join_strings, push_char, repeat_char,
    repeat_str, seq_views, starts_with, str_eq, trim_start, trim_start_spec,
};
use crate::theme::ThemeState;
use crate::tokenizer::ParsedCommand;
use crate::vfs::VirtualFs;
use vstd::prelude::*;
use vstd::string::StrSliceExecFns;
use vstd::string::StringExecFns;

verus! {

/// A command name padded to the help column width.
pub open spec fn pad12(s: Seq<char>) -> Seq<char> {
    s + repeat_char(
        ' ',
        if s.len() >= 12 {
            0nat
        } else {
            (12 - s.len()) as nat
        },
    )
}

/// One help line: padded name, a space, the description.
pub open spec fn help_entry(e: CommandInfoV) -> Seq<char> {
    pad12(e.name) + seq![' '] + e.description
}

/// The help lines of the catalog entries that are not hidden.
pub open spec fn help_body(entries: Seq<CommandInfoV>) -> Seq<(Seq<char>, LineStyle)>
    decreases entries.len(),
{
    if entries.len() == 0 {
        Seq::empty()
    } else {
        help_body(entries.drop_last()) + (if entries.last().hidden {
            Seq::empty()
        } else {
            seq![(help_entry(entries.last()), LineStyle::Normal)]
        })
    }
}

/// Everything `help` prints.
pub open spec fn help_lines() -> Seq<(Seq<char>, LineStyle)> {
    seq![
        (""@, LineStyle::Normal),
        ("Available commands:"@, LineStyle::Accent),
        (""@, LineStyle::Normal),
    ] + help_body(registry()) + seq![(""@, LineStyle::Normal)]
}

/// Lists every non-hidden command with its description.
pub fn help_command() -> (r: CommandOutput)
    ensures
        output_is(r, help_lines(), false, false),
{
    let cmds = all_commands();
    let mut lines: Vec<(String, LineStyle)> = Vec::new();
    push_line(&mut lines, String::from_str(""), LineStyle::Normal);
    push_line(&mut lines, String::from_str("Available commands:"), LineStyle::Accent);
    push_line(&mut lines, String::from_str(""), LineStyle::Normal);
    let ghost header = line_views(lines@);
    let mut i: usize = 0;
    proof {
        assert(registry().subrange(0, 0) =~= Seq::<CommandInfoV>::empty());
    }
    while i < cmds.len()
        invariant
            i <= cmds@.len(),
            crate::registry::info_views(cmds@) == registry(),
            header == line_views(lines@).subrange(0, 3) && line_views(lines@).len() >= 3,
            line_views(lines@) == header + help_body(registry().subrange(0, i as int)),
        decreases cmds@.len() - i,
    {
        proof {
            assert(registry()[i as int] == cmds@[i as int].model());
            let pref = registry().subrange(0, i + 1);
            assert(pref.drop_last() =~= registry().subrange(0, i as int));
            assert(pref.last() == registry()[i as int]);
        }
        if !cmds[i].hidden {
            let name = &cmds[i].name;
            let nlen = name.as_str().unicode_len();
            let pad: usize = if nlen >= 12 {
                0
            } else {
                12 - nlen
            };
            let mut text = name.clone();
            text.append(repeat_str(' ', pad).as_str());
            push_char(&mut text, ' ');
            text.append(cmds[i].description.as_str());
            proof {
                assert(text@ =~= help_entry(registry()[i as int]));
            }
            push_line(&mut lines, text, LineStyle::Normal);
            proof {
                assert(line_views(lines@) =~= header + help_body(registry().subrange(0, i + 1)));
                assert(header =~= line_views(lines@).subrange(0, 3));
            }
        } else {
            proof {
                assert(help_body(registry().subrange(0, i + 1)) =~= help_body(
                    registry().subrange(0, i as int),
                ));
            }
        }
        i = i + 1;
    }
    proof {
        assert(registry().subrange(0, registry().len() as int) =~= registry());
    }
    push_line(&mut lines, String::from_str(""), LineStyle::Normal);
    proof {
        assert(line_views(lines@) =~= help_lines());
    }
    CommandOutput::new(lines, false, false)
}

/// Wraps already-styled lines as a plain animated output.
pub fn simple_output(content: Vec<(String, LineStyle)>) -> (r: CommandOutput)
    ensures
        output_is(r, line_views(content@), false, true),
{
    CommandOutput::new(content, false, true)
}

/// The style of one content line: flagged lines are accented, blank
/// lines and ordinary text are normal, and lines opening with
/// `Run ` or `Type ` are muted hints.
pub open spec fn content_style(t: Seq<char>, accent: bool) -> LineStyle {
    if accent {
        LineStyle::Accent
    } else if trim_start_spec(t).len() == 0 {
        LineStyle::Normal
    } else if is_prefix("Run "@, trim_start_spec(t)) || is_prefix("Type "@, trim_start_spec(t)) {
        LineStyle::Muted
    } else {
        LineStyle::Normal
    }
}

/// A content block, styled.
pub open spec fn content_render(b: Seq<(Seq<char>, bool)>) -> Seq<(Seq<char>, LineStyle)> {
    b.map_values(|l: (Seq<char>, bool)| (l.0, content_style(l.0, l.1)))
}

/// Styles a content block for display.
pub fn content_output(block: Vec<(String, bool)>) -> (r: CommandOutput)
    ensures
        output_is(r, content_render(content::block_views(block@)), false, true),
{
    let ghost bv = content::block_views(block@);
    let mut lines: Vec<(String, LineStyle)> = Vec::new();
    let mut i: usize = 0;
    while i < block.len()
        invariant
            i <= block@.len(),
            bv == content::block_views(block@),
            line_views(lines@) == content_render(bv.subrange(0, i as int)),
        decreases block@.len() - i,
    {
        proof {
            assert(bv[i as int] == (block@[i as int].0@, block@[i as int].1));
        }
        let text = &block[i].0;
        let style: LineStyle = if block[i].1 {
            LineStyle::Accent
        } else {
            let ts = trim_start(text.as_str());
            if ts.as_str().unicode_len() == 0 {
                LineStyle::Normal
            } else if starts_with(ts.as_str(), "Run ") || starts_with(ts.as_str(), "Type ") {
                LineStyle::Muted
            } else {
                LineStyle::Normal
            }
        };
        push_line(&mut lines, text.clone(), style);
        proof {
            assert(line_views(lines@) =~= content_render(bv.subrange(0, i + 1)));
        }
        i = i + 1;
    }
    proof {
        assert(bv.subrange(0, bv.len() as int) =~= bv);
    }
    CommandOutput::new(lines, false, true)
}

/// The error shown for an unrecognized command.
pub open spec fn unknown_lines(c: Seq<char>) -> Seq<(Seq<char>, LineStyle)> {
    seq![
        ("  Command not found: "@ + c, LineStyle::Error),
        ("  Type 'help' for available commands."@, LineStyle::Muted),
    ]
}

/// A tic-tac-toe game as `ttt` creates it.
pub open spec fn fresh_ttt(g: TicTacToe) -> bool {
    g.wf() && (forall|i: int| 0 <= i < 9 ==> g.board@[i] == tictactoe::Cell::Empty)
        && g.player_turn && !g.game_over
}

/// A typing test as `typing` creates it from the host's pick.
pub open spec fn fresh_typing(t: TypingTest, pick: u64) -> bool {
    t.target@ == typing_test::sentence((pick % 8) as int) && t.start_time is None && !t.finished
}

/// What `dispatch` does for each command: the routing table. State
/// other than the output is covered by `dispatch`'s own clauses: only
/// `cd` moves the working directory and only `theme` touches the
/// display settings.
pub open spec fn dispatch_spec(
    c: Seq<char>,
    args: Seq<Seq<char>>,
    fs: VirtualFs,
    cwd0: Seq<char>,
    cwd1: Seq<char>,
    t0: ThemeState,
    t1: ThemeState,
    history: Seq<Seq<char>>,
    now: Seq<char>,
    pick: u64,
    r: CommandOutput,
) -> bool {
    if c == "help"@ {
        output_is(r, help_lines(), false, false)
    } else if c == "about"@ {
        output_is(r, content_render(content::about_block()), false, true)
    } else if c == "skills"@ {
        output_is(r, content_render(content::skills_block()), false, true)
    } else if c == "projects"@ {
        output_is(r, content_render(content::projects_block()), false, true)
    } else if c == "contact"@ {
        output_is(r, content_render(content::contact_block()), false, true)
    } else if c == "resume"@ {
        output_is(r, content_render(content::resume_block()), false, true)
    } else if c == "clear"@ {
        output_is(r, Seq::empty(), true, false)
    } else if c == ""@ {
        output_is(r, Seq::empty(), false, false)
    } else if c == "pwd"@ {
        filesystem::pwd_spec(cwd0, r)
    } else if c == "cd"@ {
        filesystem::cd_spec(fs, cwd0, cwd1, args, r)
    } else if c == "ls"@ {
        filesystem::ls_cmd_spec(fs, cwd0, args, r)
    } else if c == "cat"@ {
        filesystem::cat_cmd_spec(fs, cwd0, args, r)
    } else if c == "tree"@ {
        filesystem::tree_cmd_spec(fs, cwd0, args, r)
    } else if c == "theme"@ {
        theme::theme_spec(args, t0, t1, r)
    } else if c == "sudo"@ {
        output_is(r, easter_eggs::sudo_lines(), false, true)
    } else if c == "rm"@ {
        if has_substring(join_char_spec(args, ' '), "-rf"@) || has_substring(
            join_char_spec(args, ' '),
            "-r"@,
        ) {
            output_is(r, easter_eggs::rm_rf_lines(), false, true)
        } else {
            output_is(r, seq![("  rm: missing operand"@, LineStyle::Error)], false, true)
        }
    } else if c == "neofetch"@ {
        output_is(r, easter_eggs::neofetch_lines(), false, true)
    } else if c == "cowsay"@ {
        output_is(r, easter_eggs::cowsay_lines(easter_eggs::cowsay_message(args)), false, true)
    } else if c == "whoami"@ {
        output_is(r, easter_eggs::whoami_lines(), false, false)
    } else if c == "date"@ {
        output_is(r, seq![("  "@ + now, LineStyle::Normal)], false, false)
    } else if c == "echo"@ {
        output_is(r, seq![("  "@ + join_char_spec(args, ' '), LineStyle::Normal)], false, false)
    } else if c == "exit"@ || c == "quit"@ || c == "logout"@ {
        output_is(r, easter_eggs::exit_lines(), false, true)
    } else if c == "history"@ {
        output_is(r, easter_eggs::history_lines(history), false, false)
    } else if c == "ttt"@ || c == "tictactoe"@ {
        line_views(r.lines@) == tictactoe::start_lines() && !r.clear_screen && !r.typewriter && (
        r.start_game matches Some(g) && g matches ActiveGame::TicTacToe(g) && fresh_ttt(g))
    } else if c == "typing"@ {
        line_views(r.lines@) == typing_test::typing_start_lines(
            typing_test::sentence((pick % 8) as int),
        ) && !r.clear_screen && !r.typewriter && (r.start_game matches Some(g) && g matches
        ActiveGame::TypingTest(t) && fresh_typing(t, pick))
    } else {
        output_is(r, unknown_lines(c), false, true)
    }
}

/// Routes one parsed command to its handler. Only `cd` may move the
/// working directory, only `theme` may touch the display settings,
/// and only the two game commands start a game. `now_text` is the
/// host-formatted date for `date`; `pick` is host randomness for
/// `typing`'s sentence choice.
pub fn dispatch(
    cmd: &ParsedCommand,
    fs: &VirtualFs,
    cwd: &mut String,
    theme_state: &mut ThemeState,
    history: &Vec<String>,
    now_text: &str,
    pick: u64,
) -> (r: CommandOutput)
    requires
        fs.wf(),
    ensures
        cmd.command@ != "cd"@ ==> final(cwd)@ == old(cwd)@,
        cmd.command@ != "theme"@ ==> *final(theme_state) == *old(theme_state),
        dispatch_spec(
            cmd.command@,
            seq_views(cmd.args@),
            *fs,
            old(cwd)@,
            final(cwd)@,
            *old(theme_state),
            *final(theme_state),
            seq_views(history@),
            now_text@,
            pick,
            r,
        ),
{
    let c = cmd.command.as_str();
    if str_eq(c, "help") {
        help_command()
    } else if str_eq(c, "about") {
        content_output(content::about_lines())
    } else if str_eq(c, "skills") {
        content_output(content::skills_lines())
    } else if str_eq(c, "projects") {
        content_output(content::projects_lines())
    } else if str_eq(c, "contact") {
        content_output(content::contact_lines())
    } else if str_eq(c, "resume") {
        content_output(content::resume_lines())
    } else if str_eq(c, "clear") {
        let lines: Vec<(String, LineStyle)> = Vec::new();
        proof {
            assert(line_views(lines@) =~= Seq::<(Seq<char>, LineStyle)>::empty());
        }
        CommandOutput::new(lines, true, false)
    } else if str_eq(c, "") {
        let lines: Vec<(String, LineStyle)> = Vec::new();
        proof {
            assert(line_views(lines@) =~= Seq::<(Seq<char>, LineStyle)>::empty());
        }
        CommandOutput::new(lines, false, false)
    } else if str_eq(c, "pwd") {
        filesystem::pwd(cwd.as_str())
    } else if str_eq(c, "cd") {
        filesystem::cd(fs, cwd, &cmd.args)
    } else if str_eq(c, "ls") {
        filesystem::ls(fs, cwd.as_str(), &cmd.args)
    } else if str_eq(c, "cat") {
        filesystem::cat(fs, cwd.as_str(), &cmd.args)
    } else if str_eq(c, "tree") {
        filesystem::tree(fs, cwd.as_str(), &cmd.args)
    } else if str_eq(c, "theme") {
        theme::theme_command(&cmd.args, theme_state)
    } else if str_eq(c, "sudo") {
        easter_eggs::sudo(&cmd.args)
    } else if str_eq(c, "rm") {
        let joined = join_strings(&cmd.args, ' ');
        if crate::text::contains_sub(joined.as_str(), "-rf") || crate::text::contains_sub(
            joined.as_str(),
            "-r",
        ) {
            easter_eggs::rm_rf()
        } else {
            let mut lines: Vec<(String, LineStyle)> = Vec::new();
            push_line(&mut lines, String::from_str("  rm: missing operand"), LineStyle::Error);
            proof {
                assert(line_views(lines@) =~= seq![
                    ("  rm: missing operand"@, LineStyle::Error),
                ]);
            }
            simple_output(lines)
        }
    } else if str_eq(c, "neofetch") {
        easter_eggs::neofetch()
    } else if str_eq(c, "cowsay") {
        easter_eggs::cowsay(&cmd.args)
    } else if str_eq(c, "whoami") {
        easter_eggs::whoami()
    } else if str_eq(c, "date") {
        easter_eggs::date(now_text)
    } else if str_eq(c, "echo") {
        easter_eggs::echo(&cmd.args)
    } else if str_eq(c, "exit") || str_eq(c, "quit") || str_eq(c, "logout") {
        easter_eggs::exit()
    } else if str_eq(c, "history") {
        easter_eggs::history_cmd(history)
    } else if str_eq(c, "ttt") || str_eq(c, "tictactoe") {
        let game = TicTacToe::new();
        let output = TicTacToe::start_output();
        CommandOutput::new(output.lines, false, false).with_game(ActiveGame::TicTacToe(game))
    } else if str_eq(c, "typing") {
        let test = TypingTest::new(pick);
        let output = test.start_output();
        CommandOutput::new(output.lines, false, false).with_game(ActiveGame::TypingTest(test))
    } else {
        let mut lines: Vec<(String, LineStyle)> = Vec::new();
        push_line(&mut lines, concat2("  Command not found: ", c), LineStyle::Error);
        push_line(
            &mut lines,
            String::from_str("  Type 'help' for available commands."),
            LineStyle::Muted,
        );
        proof {
            assert(line_views(lines@) =~= unknown_lines(cmd.command@));
        }
        simple_output(lines)
    }
}

} // verus!
