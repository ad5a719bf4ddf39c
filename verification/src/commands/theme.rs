//! The `theme` command: switches the color scheme and toggles the
//! CRT and matrix-rain effects.

use crate::output::{line_views, output_is, push_line, CommandOutput, LineStyle};
use crate::text::{concat3, seq_views, str_eq};
use crate::theme::{scheme_name, scheme_of, ColorScheme, ThemeState};
use vstd::prelude::*;
use vstd::string::StringExecFns;

verus! {

/// The help text the bare `theme` command prints.
pub open spec fn theme_help_lines() -> Seq<(Seq<char>, LineStyle)> {
    seq![
        (""@, LineStyle::Normal),
        ("  Theme commands:"@, LineStyle::Accent),
        (""@, LineStyle::Normal),
        ("  theme orange       Switch to the warm orange theme"@, LineStyle::Normal),
        ("  theme green        Switch to classic green terminal"@, LineStyle::Normal),
        ("  theme amber        Switch to retro amber terminal"@, LineStyle::Normal),
        ("  theme crt          Toggle CRT scanline effect"@, LineStyle::Normal),
        ("  theme matrix       Toggle matrix rain effect"@, LineStyle::Normal),
        (""@, LineStyle::Normal),
    ]
}

/// What an effect toggle resolves to: an explicit `on` or `off`
/// second argument, else the flipped current value.
pub open spec fn toggle_target(args: Seq<Seq<char>>, current: bool) -> bool {
    if args.len() >= 2 && args[1] == "on"@ {
        true
    } else if args.len() >= 2 && args[1] == "off"@ {
        false
    } else {
        !current
    }
}

/// The confirmation line an effect toggle prints.
pub open spec fn toggle_line(effect_on: Seq<char>, effect_off: Seq<char>, state: bool) -> (
    Seq<char>,
    LineStyle,
) {
    (if state {
        effect_on
    } else {
        effect_off
    }, LineStyle::Accent)
}

/// The theme state and output the `theme` command produces: no
/// argument or `help` prints the help, `crt` and `matrix` toggle or
/// set their effect, any other word switches the color scheme when
/// it names one and reports an error otherwise.
pub open spec fn theme_spec(
    args: Seq<Seq<char>>,
    t0: ThemeState,
    t1: ThemeState,
    r: CommandOutput,
) -> bool {
    if args.len() == 0 || args[0] == "help"@ {
        t1 == t0 && output_is(r, theme_help_lines(), false, true)
    } else if args[0] == "crt"@ {
        t1 == (ThemeState { crt_enabled: toggle_target(args, t0.crt_enabled), ..t0 }) && output_is(
            r,
            seq![
                toggle_line(
                    "  CRT effect enabled."@,
                    "  CRT effect disabled."@,
                    toggle_target(args, t0.crt_enabled),
                ),
            ],
            false,
            false,
        )
    } else if args[0] == "matrix"@ {
        t1 == (ThemeState { matrix_rain: toggle_target(args, t0.matrix_rain), ..t0 }) && output_is(
            r,
            seq![
                toggle_line(
                    "  Matrix rain enabled."@,
                    "  Matrix rain disabled."@,
                    toggle_target(args, t0.matrix_rain),
                ),
            ],
            false,
            false,
        )
    } else {
        match scheme_of(args[0]) {
            Some(scheme) => t1 == (ThemeState { color_scheme: scheme, ..t0 }) && output_is(
                r,
                seq![
                    (
                        "  Switched to "@ + scheme_name(scheme) + " theme."@,
                        LineStyle::Accent,
                    ),
                ],
                false,
                false,
            ),
            None => t1 == t0 && output_is(
                r,
                seq![
                    ("  Unknown theme: "@ + args[0], LineStyle::Error),
                    ("  Available: orange, green, amber"@, LineStyle::Muted),
                ],
                false,
                false,
            ),
        }
    }
}

/// Prints the theme help.
pub fn theme_help() -> (r: CommandOutput)
    ensures
        output_is(r, theme_help_lines(), false, true),
{
    let mut lines: Vec<(String, LineStyle)> = Vec::new();
    push_line(&mut lines, String::from_str(""), LineStyle::Normal);
    push_line(&mut lines, String::from_str("  Theme commands:"), LineStyle::Accent);
    push_line(&mut lines, String::from_str(""), LineStyle::Normal);
    push_line(
        &mut lines,
        String::from_str("  theme orange       Switch to the warm orange theme"),
        LineStyle::Normal,
    );
    push_line(
        &mut lines,
        String::from_str("  theme green        Switch to classic green terminal"),
        LineStyle::Normal,
    );
    push_line(
        &mut lines,
        String::from_str("  theme amber        Switch to retro amber terminal"),
        LineStyle::Normal,
    );
    push_line(
        &mut lines,
        String::from_str("  theme crt          Toggle CRT scanline effect"),
        LineStyle::Normal,
    );
    push_line(
        &mut lines,
        String::from_str("  theme matrix       Toggle matrix rain effect"),
        LineStyle::Normal,
    );
    push_line(&mut lines, String::from_str(""), LineStyle::Normal);
    proof {
        assert(line_views(lines@) =~= theme_help_lines());
    }
    CommandOutput::new(lines, false, true)
}

/// Resolves an effect toggle from the optional second argument.
fn resolve_toggle(args: &Vec<String>, current: bool) -> (r: bool)
    ensures
        r == toggle_target(seq_views(args@), current),
{
    proof {
        if args@.len() >= 2 {
            assert(seq_views(args@)[1] == args@[1]@);
        }
    }
    if args.len() >= 2 && str_eq(args[1].as_str(), "on") {
        true
    } else if args.len() >= 2 && str_eq(args[1].as_str(), "off") {
        false
    } else {
        !current
    }
}

fn one_accent_line(text: String) -> (r: CommandOutput)
    ensures
        output_is(r, seq![(text@, LineStyle::Accent)], false, false),
{
    let ghost t = text@;
    let mut lines: Vec<(String, LineStyle)> = Vec::new();
    push_line(&mut lines, text, LineStyle::Accent);
    proof {
        assert(line_views(lines@) =~= seq![(t, LineStyle::Accent)]);
    }
    CommandOutput::new(lines, false, false)
}

/// Toggles or sets the CRT scanline effect.
fn toggle_crt(args: &Vec<String>, theme: &mut ThemeState) -> (r: CommandOutput)
    ensures
        *final(theme) == (ThemeState {
            crt_enabled: toggle_target(seq_views(args@), old(theme).crt_enabled),
            ..*old(theme)
        }),
        output_is(
            r,
            seq![
                toggle_line(
                    "  CRT effect enabled."@,
                    "  CRT effect disabled."@,
                    toggle_target(seq_views(args@), old(theme).crt_enabled),
                ),
            ],
            false,
            false,
        ),
{
    let new_state = resolve_toggle(args, theme.crt_enabled);
    theme.crt_enabled = new_state;
    if new_state {
        one_accent_line(String::from_str("  CRT effect enabled."))
    } else {
        one_accent_line(String::from_str("  CRT effect disabled."))
    }
}

/// Toggles or sets the matrix-rain effect.
fn toggle_matrix(args: &Vec<String>, theme: &mut ThemeState) -> (r: CommandOutput)
    ensures
        *final(theme) == (ThemeState {
            matrix_rain: toggle_target(seq_views(args@), old(theme).matrix_rain),
            ..*old(theme)
        }),
        output_is(
            r,
            seq![
                toggle_line(
                    "  Matrix rain enabled."@,
                    "  Matrix rain disabled."@,
                    toggle_target(seq_views(args@), old(theme).matrix_rain),
                ),
            ],
            false,
            false,
        ),
{
    let new_state = resolve_toggle(args, theme.matrix_rain);
    theme.matrix_rain = new_state;
    if new_state {
        one_accent_line(String::from_str("  Matrix rain enabled."))
    } else {
        one_accent_line(String::from_str("  Matrix rain disabled."))
    }
}

/// Switches to a named color scheme, or reports the valid names.
fn set_color_scheme(name: &str, theme: &mut ThemeState) -> (r: CommandOutput)
    ensures
        (match scheme_of(name@) {
            Some(scheme) => *final(theme) == (ThemeState { color_scheme: scheme, ..*old(theme) })
                && output_is(
                r,
                seq![("  Switched to "@ + scheme_name(scheme) + " theme."@, LineStyle::Accent)],
                false,
                false,
            ),
            None => *final(theme) == *old(theme) && output_is(
                r,
                seq![
                    ("  Unknown theme: "@ + name@, LineStyle::Error),
                    ("  Available: orange, green, amber"@, LineStyle::Muted),
                ],
                false,
                false,
            ),
        }),
{
    match ColorScheme::from_str(name) {
        Some(scheme) => {
            theme.color_scheme = scheme;
            let text = concat3("  Switched to ", scheme.name().as_str(), " theme.");
            one_accent_line(text)
        },
        None => {
            let mut lines: Vec<(String, LineStyle)> = Vec::new();
            push_line(&mut lines, crate::text::concat2("  Unknown theme: ", name), LineStyle::Error);
            push_line(
                &mut lines,
                String::from_str("  Available: orange, green, amber"),
                LineStyle::Muted,
            );
            proof {
                assert(line_views(lines@) =~= seq![
                    ("  Unknown theme: "@ + name@, LineStyle::Error),
                    ("  Available: orange, green, amber"@, LineStyle::Muted),
                ]);
            }
            CommandOutput::new(lines, false, false)
        },
    }
}

/// Routes the `theme` command by its first argument.
pub fn theme_command(args: &Vec<String>, theme: &mut ThemeState) -> (r: CommandOutput)
    ensures
        theme_spec(seq_views(args@), *old(theme), *final(theme), r),
{
    proof {
        if args@.len() >= 1 {
            assert(seq_views(args@)[0] == args@[0]@);
        }
    }
    if args.len() == 0 || str_eq(args[0].as_str(), "help") {
        theme_help()
    } else if str_eq(args[0].as_str(), "crt") {
        toggle_crt(args, theme)
    } else if str_eq(args[0].as_str(), "matrix") {
        toggle_matrix(args, theme)
    } else {
        set_color_scheme(args[0].as_str(), theme)
    }
}

} // verus!
