//! Turn-based games that take over raw input while one is active.

pub mod tictactoe;
pub mod typing_test;

use crate::output::CommandOutput;
use tictactoe::TicTacToe;
use typing_test::TypingTest;

use vstd::prelude::*;

verus! {

/// The one game that may occupy the session's active slot.
pub enum ActiveGame {
    TicTacToe(TicTacToe),
    TypingTest(TypingTest),
}

/// A game value whose internal shape its moves rely on.
pub open spec fn game_wf(g: ActiveGame) -> bool {
    match g {
        ActiveGame::TicTacToe(t) => t.wf(),
        ActiveGame::TypingTest(_) => true,
    }
}

impl ActiveGame {
    /// Routes one raw input line to the occupying game. `now_ms` is
    /// the host clock in milliseconds; only the typing test reads it.
    pub fn handle_input(&mut self, input: &str, now_ms: u64) -> (r: CommandOutput)
        requires
            game_wf(*old(self)),
        ensures
            game_wf(*final(self)),
            (match *old(self) {
                ActiveGame::TicTacToe(g) => (*final(self)) matches ActiveGame::TicTacToe(g2)
                    && tictactoe::handle_input_spec(g, input@, g2, r),
                ActiveGame::TypingTest(t) => (*final(self)) matches ActiveGame::TypingTest(t2)
                    && typing_test::handle_input_spec(t, input@, now_ms, t2, r),
            }),
    {
        match self {
            ActiveGame::TicTacToe(game) => game.handle_input(input),
            ActiveGame::TypingTest(game) => game.handle_input(input, now_ms),
        }
    }
    /// Whether the occupying game has reported itself finished.
    pub fn is_finished(&self) -> (r: bool)
        ensures
            r == (match self {
                ActiveGame::TicTacToe(g) => g.game_over,
                ActiveGame::TypingTest(t) => t.finished,
            }),
    {
        match self {
            ActiveGame::TicTacToe(game) => game.game_over,
            ActiveGame::TypingTest(game) => game.finished,
        }
    }
}

} // verus!
