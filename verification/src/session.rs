//! The session state and its routing rules: one working directory,
//! an append-only command history with a navigation cursor, display
//! settings, and at most one active game that intercepts raw input
//! ahead of normal dispatch.

use crate::commands::{dispatch, dispatch_spec};
use crate::games::{game_wf, tictactoe, typing_test, ActiveGame};
use crate::output::CommandOutput;
use crate::text::{lower, seq_views, trim, trim_spec};
use crate::theme::{ColorScheme, ThemeState};
use crate::tokenizer::{args_spec, command_spec, parse};
use crate::vfs::VirtualFs;
use vstd::prelude::*;
use vstd::string::StringExecFns;

verus! {

/// The mutable state one interactive session owns.
pub struct Session {
    /// Current working directory, always a canonical `~` path.
    pub cwd: String,
    /// Every submitted non-empty line, trimmed, in order.
    pub history: Vec<String>,
    /// Where history navigation stands; cleared by each submission.
    pub history_idx: Option<usize>,
    /// The game currently intercepting input, if any.
    pub active_game: Option<ActiveGame>,
    /// Display settings.
    pub theme: ThemeState,
}

/// Whether a game has reported itself finished.
pub open spec fn game_finished(g: ActiveGame) -> bool {
    match g {
        ActiveGame::TicTacToe(t) => t.game_over,
        ActiveGame::TypingTest(t) => t.finished,
    }
}

/// Whether a submitted line is handed to the active game: a game
/// must be active, the line must not be the universal `quit`, and a
/// finished game no longer swallows the game-launching commands.
pub open spec fn routes_to_game(game: Option<ActiveGame>, t: Seq<char>) -> bool {
    match game {
        None => false,
        Some(g) => lower(t) != "quit"@ && !(game_finished(g) && (lower(t) == "ttt"@ || lower(t)
            == "tictactoe"@ || lower(t) == "typing"@)),
    }
}

impl Session {
    /// The cursor, when set, points into the history; an active game
    /// is internally well formed.
    pub open spec fn wf(self) -> bool {
        (match self.history_idx {
            Some(i) => (i as int) < self.history@.len(),
            None => true,
        }) && (match self.active_game {
            Some(g) => game_wf(g),
            None => true,
        })
    }

    /// A fresh session at the root, with empty history, no game, and
    /// default display settings.
    pub fn new() -> (r: Self)
        ensures
            r.wf(),
            r.cwd@ == "~"@,
            r.history@.len() == 0,
            r.history_idx is None,
            r.active_game is None,
            r.theme.color_scheme == ColorScheme::Orange,
            !r.theme.crt_enabled,
            !r.theme.matrix_rain,
    {
        Session {
            cwd: String::from_str("~"),
            history: Vec::new(),
            history_idx: None,
            active_game: None,
            theme: ThemeState::new(),
        }
    }

    /// Processes one submitted line: it goes to the active game, or
    /// through quit-fallthrough and normal dispatch; the trimmed
    /// non-empty line is appended to the history either way, and the
    /// history cursor is reset. The returned output carries no game;
    /// a started game moves into the active slot instead.
    pub fn submit_line(
        &mut self,
        fs: &VirtualFs,
        raw: &str,
        now_text: &str,
        now_ms: u64,
        pick: u64,
    ) -> (r: CommandOutput)
        requires
            fs.wf(),
            old(self).wf(),
        ensures
            final(self).wf(),
            final(self).history_idx is None,
            seq_views(final(self).history@) == (if trim_spec(raw@).len() == 0 {
                seq_views(old(self).history@)
            } else {
                seq_views(old(self).history@).push(trim_spec(raw@))
            }),
            r.start_game is None,
            (if routes_to_game(old(self).active_game, trim_spec(raw@)) {
                final(self).cwd == old(self).cwd && final(self).theme == old(self).theme && (match
                old(self).active_game {
                    Some(g) => final(self).active_game matches Some(g2) && (match g {
                        ActiveGame::TicTacToe(t) => g2 matches ActiveGame::TicTacToe(t2)
                            && tictactoe::handle_input_spec(t, trim_spec(raw@), t2, r),
                        ActiveGame::TypingTest(t) => g2 matches ActiveGame::TypingTest(t2)
                            && typing_test::handle_input_spec(t, trim_spec(raw@), now_ms, t2, r),
                    }),
                    None => false,
                })
            } else {
                (command_spec(raw@) != "cd"@ ==> final(self).cwd@ == old(self).cwd@) && (
                command_spec(raw@) != "theme"@ ==> final(self).theme == old(self).theme)
                    && dispatch_spec(
                    command_spec(raw@),
                    args_spec(raw@),
                    *fs,
                    old(self).cwd@,
                    final(self).cwd@,
                    old(self).theme,
                    final(self).theme,
                    seq_views(old(self).history@),
                    now_text@,
                    pick,
                    (CommandOutput {
                        lines: r.lines,
                        clear_screen: r.clear_screen,
                        typewriter: r.typewriter,
                        start_game: final(self).active_game,
                    }),
                )
            }),
    {
        let trimmed = trim(raw);

        let to_game: bool = match &self.active_game {
            None => false,
            Some(g) => {
                let low = crate::text::lower_str(trimmed.as_str());
                let is_quit = crate::text::str_eq(low.as_str(), "quit");
                let is_launch = crate::text::str_eq(low.as_str(), "ttt") || crate::text::str_eq(
                    low.as_str(),
                    "tictactoe",
                ) || crate::text::str_eq(low.as_str(), "typing");
                !is_quit && !(g.is_finished() && is_launch)
            },
        };

        let out: CommandOutput = if to_game {
            match &mut self.active_game {
                Some(game) => game.handle_input(trimmed.as_str(), now_ms),
                None => CommandOutput::new(Vec::new(), false, false),
            }
        } else {
            self.active_game = None;
            let parsed = parse(raw);
            let produced = dispatch(
                &parsed,
                fs,
                &mut self.cwd,
                &mut self.theme,
                &self.history,
                now_text,
                pick,
            );
            let CommandOutput { lines, clear_screen, typewriter, start_game } = produced;
            self.active_game = start_game;
            CommandOutput { lines, clear_screen, typewriter, start_game: None }
        };

        if trimmed.as_str().unicode_len() > 0 {
            let ghost before = self.history@;
            self.history.push(trimmed);
            proof {
                assert(seq_views(self.history@) =~= seq_views(before).push(trim_spec(raw@)));
            }
        }
        self.history_idx = None;
        out
    }

    /// Steps the history cursor backwards and hands out the entry to
    /// recall: the latest entry first, staying at the oldest.
    /// Nothing when the history is empty.
    pub fn history_up(&mut self) -> (r: Option<String>)
        requires
            old(self).wf(),
        ensures
            final(self).wf(),
            final(self).cwd == old(self).cwd,
            final(self).history == old(self).history,
            final(self).active_game == old(self).active_game,
            final(self).theme == old(self).theme,
            (if old(self).history@.len() == 0 {
                r is None && final(self).history_idx == old(self).history_idx
            } else {
                (final(self).history_idx matches Some(i2) && i2 as int == up_index(
                    old(self).history_idx,
                    old(self).history@.len(),
                )) && (r matches Some(s) && s@ == old(self).history@[up_index(
                    old(self).history_idx,
                    old(self).history@.len(),
                )]@)
            }),
    {
        if self.history.len() == 0 {
            return None;
        }
        let new_idx: usize = match self.history_idx {
            None => self.history.len() - 1,
            Some(i) => if i > 0 {
                i - 1
            } else {
                0
            },
        };
        self.history_idx = Some(new_idx);
        Some(self.history[new_idx].clone())
    }

    /// Steps the history cursor forward: past the newest entry it
    /// clears and recalls an empty line; with no cursor set, nothing
    /// happens.
    pub fn history_down(&mut self) -> (r: Option<String>)
        requires
            old(self).wf(),
        ensures
            final(self).wf(),
            final(self).cwd == old(self).cwd,
            final(self).history == old(self).history,
            final(self).active_game == old(self).active_game,
            final(self).theme == old(self).theme,
            (match old(self).history_idx {
                None => r is None && final(self).history_idx is None,
                Some(i) => if i + 1 < old(self).history@.len() {
                    (final(self).history_idx matches Some(i2) && i2 == i + 1) && (r matches Some(
                        s,
                    ) && s@ == old(self).history@[i + 1]@)
                } else {
                    final(self).history_idx is None && (r matches Some(s) && s@
                        == Seq::<char>::empty())
                },
            }),
    {
        match self.history_idx {
            None => None,
            Some(i) => {
                proof {
                    assert((i as int) < self.history@.len());
                }
                let len = self.history.len();
                if i < len - 1 {
                    self.history_idx = Some(i + 1);
                    Some(self.history[i + 1].clone())
                } else {
                    self.history_idx = None;
                    Some(String::new())
                }
            },
        }
    }
}

/// Where one backward step from the cursor lands in a non-empty
/// history: the latest entry when unset, else one earlier, stopping
/// at the oldest.
pub open spec fn up_index(idx: Option<usize>, len: nat) -> int {
    match idx {
        None => len - 1,
        Some(i) => if i > 0 {
            i - 1
        } else {
            0
        },
    }
}

} // verus!
