//! The sole channel from the shell core to a presentation layer:
//! styled text lines, a screen-clear flag, a reveal-animation hint,
//! and an optional game to activate.

use crate::games::ActiveGame;
use vstd::prelude::*;

verus! {

/// How a presentation layer should style one output line.
#[derive(Clone, Copy, PartialEq, Eq, Structural, Debug)]
pub enum LineStyle {
    Normal,
    Accent,
    Error,
    Muted,
}

/// The text and style of each line, at the spec level.
pub open spec fn line_views(lines: Seq<(String, LineStyle)>) -> Seq<(Seq<char>, LineStyle)> {
    lines.map_values(|l: (String, LineStyle)| (l.0@, l.1))
}

/// Result of dispatching one command or game turn.
pub struct CommandOutput {
    /// Styled lines to render, in order.
    pub lines: Vec<(String, LineStyle)>,
    /// Whether the presentation layer should discard prior output.
    pub clear_screen: bool,
    /// Advisory hint to reveal the lines incrementally.
    pub typewriter: bool,
    /// A game to place into the active slot, if this turn starts one.
    pub start_game: Option<ActiveGame>,
}

impl CommandOutput {
    /// Output with the given lines and flags, starting no game.
    pub fn new(lines: Vec<(String, LineStyle)>, clear_screen: bool, typewriter: bool) -> (r: Self)
        ensures
            r.lines == lines,
            r.clear_screen == clear_screen,
            r.typewriter == typewriter,
            r.start_game is None,
    {
        Self { lines, clear_screen, typewriter, start_game: None }
    }

    /// The same output, now also starting `game`.
    pub fn with_game(self, game: ActiveGame) -> (r: Self)
        ensures
            r.lines == self.lines,
            r.clear_screen == self.clear_screen,
            r.typewriter == self.typewriter,
            r.start_game == Some(game),
    {
        Self { start_game: Some(game), ..self }
    }
}

/// An output with exactly the given lines and flags, starting no
/// game.
pub open spec fn output_is(
    r: CommandOutput,
    lines: Seq<(Seq<char>, LineStyle)>,
    clear: bool,
    typewriter: bool,
) -> bool {
    line_views(r.lines@) == lines && r.clear_screen == clear && r.typewriter == typewriter
        && r.start_game is None
}

/// One owned output line.
pub fn line(text: &str, style: LineStyle) -> (r: (String, LineStyle))
    ensures
        r.0@ == text@,
        r.1 == style,
{
    (text.to_owned(), style)
}

/// Appends one line to an output buffer.
pub fn push_line(lines: &mut Vec<(String, LineStyle)>, text: String, style: LineStyle)
    ensures
        final(lines)@ == old(lines)@.push((text, style)),
        line_views(final(lines)@) == line_views(old(lines)@).push((text@, style)),
{
    lines.push((text, style));
    proof {
        assert(line_views(lines@) =~= line_views(lines@.drop_last()).push(
            (lines@.last().0@, lines@.last().1),
        ));
        assert(lines@.drop_last() =~= old(lines)@);
    }
}

} // verus!
