//! The fixed humorous responses, plus the plain `whoami`, `date`,
//! `echo`, and `history` commands.

use crate::output::{line_views, output_is, push_line, CommandOutput, LineStyle};
use crate::text::{
    concat2, concat3, dec_str, join_char_spec, join_strings, push_char, repeat_char, repeat_str,
    seq_views, u64_dec,
};
use vstd::prelude::*;
use vstd::string::StrSliceExecFns;
use vstd::string::StringExecFns;

verus! {

/// The two lines `sudo` answers with.
pub open spec fn sudo_lines() -> Seq<(Seq<char>, LineStyle)> {
    seq![
        ("  Nice try! But you don't have root access here."@, LineStyle::Error),
        ("  This incident will be reported. ;)"@, LineStyle::Muted),
    ]
}

/// Declines the request for root.
pub fn sudo(args: &Vec<String>) -> (r: CommandOutput)
    ensures
        output_is(r, sudo_lines(), false, true),
{
    let _ = args;
    let mut lines: Vec<(String, LineStyle)> = Vec::new();
    push_line(
        &mut lines,
        String::from_str("  Nice try! But you don't have root access here."),
        LineStyle::Error,
    );
    push_line(
        &mut lines,
        String::from_str("  This incident will be reported. ;)"),
        LineStyle::Muted,
    );
    proof {
        assert(line_views(lines@) =~= sudo_lines());
    }
    CommandOutput::new(lines, false, true)
}

/// The lines a recursive `rm` answers with.
pub open spec fn rm_rf_lines() -> Seq<(Seq<char>, LineStyle)> {
    seq![
        ("  Deleting everything..."@, LineStyle::Error),
        ("  rm: /usr/bin/: Permission denied"@, LineStyle::Normal),
        ("  rm: /etc/: Permission denied"@, LineStyle::Normal),
        ("  rm: /home/: Permission denied"@, LineStyle::Normal),
        (""@, LineStyle::Normal),
        ("  Just kidding. This is a website, not your actual terminal."@, LineStyle::Accent),
        ("  Your files are safe. Probably."@, LineStyle::Muted),
    ]
}

/// Pretends, briefly, to delete everything.
pub fn rm_rf() -> (r: CommandOutput)
    ensures
        output_is(r, rm_rf_lines(), false, true),
{
    let mut lines: Vec<(String, LineStyle)> = Vec::new();
    push_line(&mut lines, String::from_str("  Deleting everything..."), LineStyle::Error);
    push_line(&mut lines, String::from_str("  rm: /usr/bin/: Permission denied"), LineStyle::Normal);
    push_line(&mut lines, String::from_str("  rm: /etc/: Permission denied"), LineStyle::Normal);
    push_line(&mut lines, String::from_str("  rm: /home/: Permission denied"), LineStyle::Normal);
    push_line(&mut lines, String::from_str(""), LineStyle::Normal);
    push_line(
        &mut lines,
        String::from_str("  Just kidding. This is a website, not your actual terminal."),
        LineStyle::Accent,
    );
    push_line(&mut lines, String::from_str("  Your files are safe. Probably."), LineStyle::Muted);
    proof {
        assert(line_views(lines@) =~= rm_rf_lines());
    }
    CommandOutput::new(lines, false, true)
}

/// The system-information panel: name art beside host facts.
pub open spec fn neofetch_lines() -> Seq<(Seq<char>, LineStyle)> {
    seq![
        (""@, LineStyle::Normal),
        ("  "@ + "        _______        "@ + " "@ + ""@, LineStyle::Normal),
        ("  "@ + "       /       \\       "@ + " "@ + "  visitor@portfolio"@, LineStyle::Accent),
        ("  "@ + "      / PRUTHVI \\      "@ + " "@ + "  -------------------"@, LineStyle::Muted),
        (
            "  "@ + "     /  PARNE    \\     "@ + " "@ + "  OS:       WebAssembly/Browser"@,
            LineStyle::Normal,
        ),
        (
            "  "@ + "    /  ________   \\    "@ + " "@ + "  Host:     GitHub Pages"@,
            LineStyle::Normal,
        ),
        (
            "  "@ + "   /  /        \\   \\   "@ + " "@ + "  Shell:    terminal-portfolio 0.1.0"@,
            LineStyle::Normal,
        ),
        (
            "  "@ + "  /  /  SENIOR  \\   \\  "@ + " "@ + "  Runtime:  Rust + Leptos + WASM"@,
            LineStyle::Normal,
        ),
        (
            "  "@ + " /  /  SOFTWARE  \\   \\ "@ + " "@ + "  Theme:    Warm Orange on Dark"@,
            LineStyle::Normal,
        ),
        (
            "  "@ + "/  /  ENGINEER    \\   \\"@ + " "@ + "  CPU:      Your Browser's JS Engine"@,
            LineStyle::Normal,
        ),
        (
            "  "@ + "\\  \\              /   /"@ + " "@ + "  Memory:   A few MB of WASM"@,
            LineStyle::Normal,
        ),
        ("  "@ + " \\  \\____________/   / "@ + " "@ + ""@, LineStyle::Normal),
        ("  "@ + "  \\________________/  "@ + " "@ + ""@, LineStyle::Normal),
        (""@, LineStyle::Normal),
    ]
}

fn push_panel_line(
    lines: &mut Vec<(String, LineStyle)>,
    art: &str,
    info: &str,
    style: LineStyle,
)
    ensures
        line_views(final(lines)@) == line_views(old(lines)@).push(
            ("  "@ + art@ + " "@ + info@, style),
        ),
{
    let mut text = concat3("  ", art, " ");
    text.append(info);
    push_line(lines, text, style);
}

/// Prints the system-information panel.
pub fn neofetch() -> (r: CommandOutput)
    ensures
        output_is(r, neofetch_lines(), false, true),
{
    let mut lines: Vec<(String, LineStyle)> = Vec::new();
    push_line(&mut lines, String::from_str(""), LineStyle::Normal);
    push_panel_line(&mut lines, "        _______        ", "", LineStyle::Normal);
    push_panel_line(&mut lines, "       /       \\       ", "  visitor@portfolio", LineStyle::Accent);
    push_panel_line(&mut lines, "      / PRUTHVI \\      ", "  -------------------", LineStyle::Muted);
    push_panel_line(
        &mut lines,
        "     /  PARNE    \\     ",
        "  OS:       WebAssembly/Browser",
        LineStyle::Normal,
    );
    push_panel_line(
        &mut lines,
        "    /  ________   \\    ",
        "  Host:     GitHub Pages",
        LineStyle::Normal,
    );
    push_panel_line(
        &mut lines,
        "   /  /        \\   \\   ",
        "  Shell:    terminal-portfolio 0.1.0",
        LineStyle::Normal,
    );
    push_panel_line(
        &mut lines,
        "  /  /  SENIOR  \\   \\  ",
        "  Runtime:  Rust + Leptos + WASM",
        LineStyle::Normal,
    );
    push_panel_line(
        &mut lines,
        " /  /  SOFTWARE  \\   \\ ",
        "  Theme:    Warm Orange on Dark",
        LineStyle::Normal,
    );
    push_panel_line(
        &mut lines,
        "/  /  ENGINEER    \\   \\",
        "  CPU:      Your Browser's JS Engine",
        LineStyle::Normal,
    );
    push_panel_line(
        &mut lines,
        "\\  \\              /   /",
        "  Memory:   A few MB of WASM",
        LineStyle::Normal,
    );
    push_panel_line(&mut lines, " \\  \\____________/   / ", "", LineStyle::Normal);
    push_panel_line(&mut lines, "  \\________________/  ", "", LineStyle::Normal);
    push_line(&mut lines, String::from_str(""), LineStyle::Normal);
    proof {
        assert(line_views(lines@) =~= neofetch_lines());
    }
    CommandOutput::new(lines, false, true)
}

/// The message `cowsay` speaks: the arguments joined by spaces, or a
/// default greeting.
pub open spec fn cowsay_message(args: Seq<Seq<char>>) -> Seq<char> {
    if args.len() == 0 {
        "Moo! Type 'help' for commands."@
    } else {
        join_char_spec(args, ' ')
    }
}

/// The speech bubble and the cow.
pub open spec fn cowsay_lines(msg: Seq<char>) -> Seq<(Seq<char>, LineStyle)> {
    seq![
        ("   "@ + repeat_char('_', msg.len() + 2), LineStyle::Normal),
        ("  < "@ + msg + " >"@, LineStyle::Accent),
        ("   "@ + repeat_char('-', msg.len() + 2), LineStyle::Normal),
        ("          \\   ^__^"@, LineStyle::Normal),
        ("           \\  (oo)\\_______"@, LineStyle::Normal),
        ("              (__)\\       )\\/\\"@, LineStyle::Normal),
        ("                  ||----w |"@, LineStyle::Normal),
        ("                  ||     ||"@, LineStyle::Normal),
    ]
}

/// A cow says the given words.
pub fn cowsay(args: &Vec<String>) -> (r: CommandOutput)
    ensures
        output_is(r, cowsay_lines(cowsay_message(seq_views(args@))), false, true),
{
    let message: String = if args.len() == 0 {
        String::from_str("Moo! Type 'help' for commands.")
    } else {
        join_strings(args, ' ')
    };
    let n = message.as_str().unicode_len();

    let mut top_bar = repeat_str('_', n);
    push_char(&mut top_bar, '_');
    push_char(&mut top_bar, '_');
    let mut bottom_bar = repeat_str('-', n);
    push_char(&mut bottom_bar, '-');
    push_char(&mut bottom_bar, '-');
    proof {
        assert(top_bar@ =~= repeat_char('_', message@.len() + 2));
        assert(bottom_bar@ =~= repeat_char('-', message@.len() + 2));
    }

    let mut bubble = concat2("  < ", message.as_str());
    bubble.append(" >");

    let mut lines: Vec<(String, LineStyle)> = Vec::new();
    push_line(&mut lines, concat2("   ", top_bar.as_str()), LineStyle::Normal);
    push_line(&mut lines, bubble, LineStyle::Accent);
    push_line(&mut lines, concat2("   ", bottom_bar.as_str()), LineStyle::Normal);
    push_line(&mut lines, String::from_str("          \\   ^__^"), LineStyle::Normal);
    push_line(&mut lines, String::from_str("           \\  (oo)\\_______"), LineStyle::Normal);
    push_line(&mut lines, String::from_str("              (__)\\       )\\/\\"), LineStyle::Normal);
    push_line(&mut lines, String::from_str("                  ||----w |"), LineStyle::Normal);
    push_line(&mut lines, String::from_str("                  ||     ||"), LineStyle::Normal);
    proof {
        assert(line_views(lines@) =~= cowsay_lines(cowsay_message(seq_views(args@))));
    }
    CommandOutput::new(lines, false, true)
}

/// The single line `whoami` answers with.
pub open spec fn whoami_lines() -> Seq<(Seq<char>, LineStyle)> {
    seq![("  visitor"@, LineStyle::Normal)]
}

/// Names the current user.
pub fn whoami() -> (r: CommandOutput)
    ensures
        output_is(r, whoami_lines(), false, false),
{
    let mut lines: Vec<(String, LineStyle)> = Vec::new();
    push_line(&mut lines, String::from_str("  visitor"), LineStyle::Normal);
    proof {
        assert(line_views(lines@) =~= whoami_lines());
    }
    CommandOutput::new(lines, false, false)
}

/// Echoes the date text the host environment formatted.
pub fn date(now_text: &str) -> (r: CommandOutput)
    ensures
        output_is(r, seq![("  "@ + now_text@, LineStyle::Normal)], false, false),
{
    let mut lines: Vec<(String, LineStyle)> = Vec::new();
    push_line(&mut lines, concat2("  ", now_text), LineStyle::Normal);
    proof {
        assert(line_views(lines@) =~= seq![("  "@ + now_text@, LineStyle::Normal)]);
    }
    CommandOutput::new(lines, false, false)
}

/// Echoes the arguments, joined by single spaces.
pub fn echo(args: &Vec<String>) -> (r: CommandOutput)
    ensures
        output_is(
            r,
            seq![("  "@ + join_char_spec(seq_views(args@), ' '), LineStyle::Normal)],
            false,
            false,
        ),
{
    let joined = join_strings(args, ' ');
    let mut lines: Vec<(String, LineStyle)> = Vec::new();
    push_line(&mut lines, concat2("  ", joined.as_str()), LineStyle::Normal);
    proof {
        assert(line_views(lines@) =~= seq![
            ("  "@ + join_char_spec(seq_views(args@), ' '), LineStyle::Normal),
        ]);
    }
    CommandOutput::new(lines, false, false)
}

/// The two lines `exit` answers with.
pub open spec fn exit_lines() -> Seq<(Seq<char>, LineStyle)> {
    seq![
        ("  Nice try! But there's no escape from my portfolio."@, LineStyle::Accent),
        ("  You're stuck here. Might as well type 'about'."@, LineStyle::Muted),
    ]
}

/// Declines to leave.
pub fn exit() -> (r: CommandOutput)
    ensures
        output_is(r, exit_lines(), false, true),
{
    let mut lines: Vec<(String, LineStyle)> = Vec::new();
    push_line(
        &mut lines,
        String::from_str("  Nice try! But there's no escape from my portfolio."),
        LineStyle::Accent,
    );
    push_line(
        &mut lines,
        String::from_str("  You're stuck here. Might as well type 'about'."),
        LineStyle::Muted,
    );
    proof {
        assert(line_views(lines@) =~= exit_lines());
    }
    CommandOutput::new(lines, false, true)
}

/// A decimal index, right-aligned to a field of four.
pub open spec fn pad4(s: Seq<char>) -> Seq<char> {
    if s.len() >= 4 {
        s
    } else {
        repeat_char(' ', (4 - s.len()) as nat) + s
    }
}

/// The numbered history listing, 1-indexed, framed by blank lines.
pub open spec fn history_lines(h: Seq<Seq<char>>) -> Seq<(Seq<char>, LineStyle)> {
    seq![(""@, LineStyle::Normal)] + Seq::new(
        h.len(),
        |i: int| ("  "@ + pad4(dec_str((i + 1) as nat)) + "  "@ + h[i], LineStyle::Normal),
    ) + seq![(""@, LineStyle::Normal)]
}

/// Lists every submitted command, numbered from one.
pub fn history_cmd(history: &Vec<String>) -> (r: CommandOutput)
    ensures
        output_is(r, history_lines(seq_views(history@)), false, false),
{
    let mut lines: Vec<(String, LineStyle)> = Vec::new();
    push_line(&mut lines, String::from_str(""), LineStyle::Normal);
    let mut i: usize = 0;
    while i < history.len()
        invariant
            i <= history@.len(),
            line_views(lines@) == seq![(""@, LineStyle::Normal)] + Seq::new(
                i as nat,
                |k: int| (
                    "  "@ + pad4(dec_str((k + 1) as nat)) + "  "@ + history@[k]@,
                    LineStyle::Normal,
                ),
            ),
        decreases history@.len() - i,
    {
        let digits = u64_dec(i as u64 + 1);
        let dlen = digits.as_str().unicode_len();
        let mut field: String = if dlen >= 4 {
            String::new()
        } else {
            repeat_str(' ', 4 - dlen)
        };
        field.append(digits.as_str());
        proof {
            if dlen >= 4 {
                assert(field@ =~= pad4(dec_str((i + 1) as nat)));
            } else {
                assert(field@ =~= pad4(dec_str((i + 1) as nat)));
            }
        }
        let mut text = concat2("  ", field.as_str());
        text.append("  ");
        text.append(history[i].as_str());
        proof {
            assert(text@ =~= "  "@ + pad4(dec_str((i + 1) as nat)) + "  "@ + history@[i as int]@);
        }
        push_line(&mut lines, text, LineStyle::Normal);
        proof {
            assert(line_views(lines@) =~= seq![(""@, LineStyle::Normal)] + Seq::new(
                i as nat + 1,
                |k: int| (
                    "  "@ + pad4(dec_str((k + 1) as nat)) + "  "@ + history@[k]@,
                    LineStyle::Normal,
                ),
            ));
        }
        i = i + 1;
    }
    push_line(&mut lines, String::from_str(""), LineStyle::Normal);
    proof {
        assert(line_views(lines@) =~= history_lines(seq_views(history@)));
    }
    CommandOutput::new(lines, false, false)
}

} // verus!
