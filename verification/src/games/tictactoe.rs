//! Tic-tac-toe against a fixed-priority computer opponent.
//!
//! The human plays `X` and moves first; the computer answers with `O`
//! by taking a win, blocking one, taking the center, or taking the
//! first free cell, in that order.

use crate::output::{line_views, push_line, CommandOutput, LineStyle};
use crate::text::{digit_char, digit_char_exec, lower, lower_str, push_char, trim, trim_spec};
use vstd::prelude::*;
use vstd::string::StringExecFns;

verus! {

/// One cell of the board: free, or marked by a player.
#[derive(Clone, Copy, PartialEq, Eq, Structural, Debug)]
pub enum Cell {
    Empty,
    X,
    O,
}

/// The game state.
pub struct TicTacToe {
    /// The nine cells, row-major, indices 0 through 8.
    pub board: Vec<Cell>,
    /// Whether the next mark to place is the human's.
    pub player_turn: bool,
    /// Set once a win or draw has been reached.
    pub game_over: bool,
}

/// Whether cells `i`, `j`, `k` all hold the mark `c`.
pub open spec fn line_all(b: Seq<Cell>, i: int, j: int, k: int, c: Cell) -> bool {
    b[i] == c && b[j] == c && b[k] == c
}

/// Whether `c` holds one of the eight winning lines.
pub open spec fn wins(b: Seq<Cell>, c: Cell) -> bool {
    line_all(b, 0, 1, 2, c) || line_all(b, 3, 4, 5, c) || line_all(b, 6, 7, 8, c) || line_all(
        b,
        0,
        3,
        6,
        c,
    ) || line_all(b, 1, 4, 7, c) || line_all(b, 2, 5, 8, c) || line_all(b, 0, 4, 8, c) || line_all(
        b,
        2,
        4,
        6,
        c,
    )
}

/// The winner's mark, if any; `X` is checked first.
pub open spec fn winner_spec(b: Seq<Cell>) -> Option<char> {
    if wins(b, Cell::X) {
        Some('X')
    } else if wins(b, Cell::O) {
        Some('O')
    } else {
        None
    }
}

/// Whether no cell is free.
pub open spec fn full_spec(b: Seq<Cell>) -> bool {
    forall|i: int| 0 <= i < 9 ==> b[i] != Cell::Empty
}

/// The free cell that completes the line `i`,`j`,`k` for `c`, if the
/// other two already hold `c`.
pub open spec fn line_move(b: Seq<Cell>, i: int, j: int, k: int, c: Cell) -> Option<int> {
    if b[i] == c && b[j] == c && b[k] == Cell::Empty {
        Some(k)
    } else if b[i] == c && b[k] == c && b[j] == Cell::Empty {
        Some(j)
    } else if b[j] == c && b[k] == c && b[i] == Cell::Empty {
        Some(i)
    } else {
        None
    }
}

/// The first line, in fixed scan order, that `c` can complete, and
/// the cell that completes it.
pub open spec fn find_move_spec(b: Seq<Cell>, c: Cell) -> Option<int> {
    if line_move(b, 0, 1, 2, c) is Some {
        line_move(b, 0, 1, 2, c)
    } else if line_move(b, 3, 4, 5, c) is Some {
        line_move(b, 3, 4, 5, c)
    } else if line_move(b, 6, 7, 8, c) is Some {
        line_move(b, 6, 7, 8, c)
    } else if line_move(b, 0, 3, 6, c) is Some {
        line_move(b, 0, 3, 6, c)
    } else if line_move(b, 1, 4, 7, c) is Some {
        line_move(b, 1, 4, 7, c)
    } else if line_move(b, 2, 5, 8, c) is Some {
        line_move(b, 2, 5, 8, c)
    } else if line_move(b, 0, 4, 8, c) is Some {
        line_move(b, 0, 4, 8, c)
    } else if line_move(b, 2, 4, 6, c) is Some {
        line_move(b, 2, 4, 6, c)
    } else {
        None
    }
}

/// The lowest-indexed free cell; 9 when the board is full.
pub open spec fn first_free(b: Seq<Cell>) -> int {
    if b[0] == Cell::Empty {
        0
    } else if b[1] == Cell::Empty {
        1
    } else if b[2] == Cell::Empty {
        2
    } else if b[3] == Cell::Empty {
        3
    } else if b[4] == Cell::Empty {
        4
    } else if b[5] == Cell::Empty {
        5
    } else if b[6] == Cell::Empty {
        6
    } else if b[7] == Cell::Empty {
        7
    } else if b[8] == Cell::Empty {
        8
    } else {
        9
    }
}

/// Where the computer answers: win, block, center, first free cell.
pub open spec fn computer_choice(b: Seq<Cell>) -> int {
    if find_move_spec(b, Cell::O) is Some {
        find_move_spec(b, Cell::O)->0
    } else if find_move_spec(b, Cell::X) is Some {
        find_move_spec(b, Cell::X)->0
    } else if b[4] == Cell::Empty {
        4
    } else {
        first_free(b)
    }
}

/// How a cell renders: its mark, or its 1-based number when free.
pub open spec fn cell_char(b: Seq<Cell>, i: int) -> char {
    match b[i] {
        Cell::X => 'X',
        Cell::O => 'O',
        Cell::Empty => digit_char((i + 1) as nat),
    }
}

/// One rendered board row over cells `i`, `j`, `k`.
pub open spec fn row_text(b: Seq<Cell>, i: int, j: int, k: int) -> Seq<char> {
    "   "@ + seq![cell_char(b, i)] + " | "@ + seq![cell_char(b, j)] + " | "@ + seq![cell_char(b, k)]
}

/// The five rendered board lines.
pub open spec fn board_lines(b: Seq<Cell>) -> Seq<(Seq<char>, LineStyle)> {
    seq![
        (row_text(b, 0, 1, 2), LineStyle::Normal),
        ("   ---------"@, LineStyle::Muted),
        (row_text(b, 3, 4, 5), LineStyle::Normal),
        ("   ---------"@, LineStyle::Muted),
        (row_text(b, 6, 7, 8), LineStyle::Normal),
    ]
}

/// The fixed rendering of an untouched board.
pub open spec fn empty_board_lines() -> Seq<(Seq<char>, LineStyle)> {
    seq![
        ("   1 | 2 | 3"@, LineStyle::Normal),
        ("   ---------"@, LineStyle::Muted),
        ("   4 | 5 | 6"@, LineStyle::Normal),
        ("   ---------"@, LineStyle::Muted),
        ("   7 | 8 | 9"@, LineStyle::Normal),
    ]
}

/// The lines a fresh game greets the player with.
pub open spec fn start_lines() -> Seq<(Seq<char>, LineStyle)> {
    seq![
        (""@, LineStyle::Normal),
        ("  === TIC-TAC-TOE ==="@, LineStyle::Accent),
        ("  You are X. Enter a number 1-9 to place your mark."@, LineStyle::Normal),
        ("  Type 'quit' to exit the game."@, LineStyle::Muted),
        (""@, LineStyle::Normal),
    ] + empty_board_lines() + seq![
        (""@, LineStyle::Normal),
        ("  Your move (1-9):"@, LineStyle::Accent),
    ]
}

/// The verdict line for a finished game.
pub open spec fn result_line(winner: char) -> (Seq<char>, LineStyle) {
    if winner == 'X' {
        ("  You win! Congratulations!"@, LineStyle::Accent)
    } else if winner == 'O' {
        ("  Computer wins! Better luck next time."@, LineStyle::Error)
    } else {
        ("  It's a draw!"@, LineStyle::Muted)
    }
}

/// The lines a finished game renders: final board, verdict, hint.
pub open spec fn game_over_lines(b: Seq<Cell>, winner: char) -> Seq<(Seq<char>, LineStyle)> {
    seq![(""@, LineStyle::Normal)] + board_lines(b) + seq![(""@, LineStyle::Normal)] + seq![
        result_line(winner),
        ("  Type 'ttt' to play again, or 'quit' to exit."@, LineStyle::Muted),
    ]
}

/// The lines of an ongoing game: updated board, move prompt.
pub open spec fn prompt_lines(b: Seq<Cell>) -> Seq<(Seq<char>, LineStyle)> {
    seq![(""@, LineStyle::Normal)] + board_lines(b) + seq![
        (""@, LineStyle::Normal),
        ("  Your move (1-9):"@, LineStyle::Accent),
    ]
}

/// The value of a digit character.
pub open spec fn digit_of(c: char) -> nat {
    if c == '0' {
        0
    } else if c == '1' {
        1
    } else if c == '2' {
        2
    } else if c == '3' {
        3
    } else if c == '4' {
        4
    } else if c == '5' {
        5
    } else if c == '6' {
        6
    } else if c == '7' {
        7
    } else if c == '8' {
        8
    } else {
        9
    }
}

/// Whether every character of `s` is a decimal digit.
pub open spec fn all_digits(s: Seq<char>) -> bool {
    forall|i: int| 0 <= i < s.len() ==> '0' <= #[trigger] s[i] && s[i] <= '9'
}

/// The decimal value of a digit string.
pub open spec fn digits_val(s: Seq<char>) -> nat
    decreases s.len(),
{
    if s.len() == 0 {
        0
    } else {
        digits_val(s.drop_last()) * 10 + digit_of(s.last())
    }
}

/// A move input without its optional leading plus sign.
pub open spec fn unsigned_part(t: Seq<char>) -> Seq<char> {
    if t.len() >= 1 && t[0] == '+' {
        t.subrange(1, t.len() as int)
    } else {
        t
    }
}

/// The board cell a move input names: the input must be the decimal
/// spelling of 1 through 9, an optional `+` allowed in front; the
/// cell index is one less.
pub open spec fn parse_pos(t: Seq<char>) -> Option<int> {
    let d = unsigned_part(t);
    if d.len() > 0 && all_digits(d) && 1 <= digits_val(d) <= 9 {
        Some(digits_val(d) - 1)
    } else {
        None
    }
}

/// A one-line output with the given text and style, quiet flags, and
/// no game started.
pub open spec fn is_msg(r: CommandOutput, text: Seq<char>, style: LineStyle) -> bool {
    line_views(r.lines@) == seq![(text, style)] && !r.clear_screen && !r.typewriter
        && r.start_game is None
}

/// An output with the given lines, quiet flags, and no game started.
pub open spec fn is_quiet_output(r: CommandOutput, lines: Seq<(Seq<char>, LineStyle)>) -> bool {
    line_views(r.lines@) == lines && !r.clear_screen && !r.typewriter && r.start_game is None
}

/// The game `g2` and output `r` a move input produces from `g`: the
/// whole turn, including the computer's answer and win, draw, or
/// re-prompt rendering; rejected inputs leave the board untouched.
pub open spec fn handle_input_spec(
    g: TicTacToe,
    input: Seq<char>,
    g2: TicTacToe,
    r: CommandOutput,
) -> bool {
    let t = lower(trim_spec(input));
    let b = g.board@;
    if g.game_over {
        g2 == g && is_quiet_output(r, start_lines())
    } else if parse_pos(t) is None {
        g2 == g && is_msg(r, "  Invalid move! Enter a number 1-9."@, LineStyle::Error)
    } else {
        let pos = parse_pos(t)->0;
        if b[pos] != Cell::Empty {
            g2 == g && is_msg(r, "  That spot is taken! Try another."@, LineStyle::Error)
        } else {
            let b1 = b.update(pos, Cell::X);
            g2.player_turn == g.player_turn && if winner_spec(b1) is Some {
                g2.board@ == b1 && g2.game_over && is_quiet_output(
                    r,
                    game_over_lines(b1, winner_spec(b1)->0),
                )
            } else if full_spec(b1) {
                g2.board@ == b1 && g2.game_over && is_quiet_output(r, game_over_lines(b1, ' '))
            } else {
                let b2 = b1.update(computer_choice(b1), Cell::O);
                if winner_spec(b2) is Some {
                    g2.board@ == b2 && g2.game_over && is_quiet_output(
                        r,
                        game_over_lines(b2, winner_spec(b2)->0),
                    )
                } else if full_spec(b2) {
                    g2.board@ == b2 && g2.game_over && is_quiet_output(r, game_over_lines(b2, ' '))
                } else {
                    g2.board@ == b2 && !g2.game_over && is_quiet_output(r, prompt_lines(b2))
                }
            }
        }
    }
}

impl TicTacToe {
    /// A board is well formed when it has exactly nine cells.
    pub open spec fn wf(self) -> bool {
        self.board@.len() == 9
    }

    /// A fresh game: empty board, human to move.
    pub fn new() -> (r: Self)
        ensures
            r.wf(),
            forall|i: int| 0 <= i < 9 ==> r.board@[i] == Cell::Empty,
            r.player_turn,
            !r.game_over,
    {
        let mut board: Vec<Cell> = Vec::new();
        let mut i: usize = 0;
        while i < 9
            invariant
                i <= 9,
                board@.len() == i,
                forall|k: int| 0 <= k < i ==> board@[k] == Cell::Empty,
            decreases 9 - i,
        {
            board.push(Cell::Empty);
            i = i + 1;
        }
        TicTacToe { board, player_turn: true, game_over: false }
    }

    /// The greeting and empty board a new game prints.
    pub fn start_output() -> (r: CommandOutput)
        ensures
            is_quiet_output(r, start_lines()),
    {
        let mut lines: Vec<(String, LineStyle)> = Vec::new();
        push_line(&mut lines, String::from_str(""), LineStyle::Normal);
        push_line(&mut lines, String::from_str("  === TIC-TAC-TOE ==="), LineStyle::Accent);
        push_line(
            &mut lines,
            String::from_str("  You are X. Enter a number 1-9 to place your mark."),
            LineStyle::Normal,
        );
        push_line(&mut lines, String::from_str("  Type 'quit' to exit the game."), LineStyle::Muted);
        push_line(&mut lines, String::from_str(""), LineStyle::Normal);
        let mut board = Self::render_empty_board();
        let ghost before = lines@;
        let ghost board_view = board@;
        lines.append(&mut board);
        proof {
            assert(line_views(lines@) =~= line_views(before) + line_views(board_view));
        }
        push_line(&mut lines, String::from_str(""), LineStyle::Normal);
        push_line(&mut lines, String::from_str("  Your move (1-9):"), LineStyle::Accent);
        proof {
            assert(line_views(lines@) =~= start_lines());
        }
        CommandOutput::new(lines, false, false)
    }

    /// The fixed rendering of an untouched board.
    pub fn render_empty_board() -> (r: Vec<(String, LineStyle)>)
        ensures
            line_views(r@) == empty_board_lines(),
    {
        let mut lines: Vec<(String, LineStyle)> = Vec::new();
        push_line(&mut lines, String::from_str("   1 | 2 | 3"), LineStyle::Normal);
        push_line(&mut lines, String::from_str("   ---------"), LineStyle::Muted);
        push_line(&mut lines, String::from_str("   4 | 5 | 6"), LineStyle::Normal);
        push_line(&mut lines, String::from_str("   ---------"), LineStyle::Muted);
        push_line(&mut lines, String::from_str("   7 | 8 | 9"), LineStyle::Normal);
        proof {
            assert(line_views(lines@) =~= empty_board_lines());
        }
        lines
    }

    /// How cell `i` renders: its mark, or its number when free.
    pub fn cell(&self, i: usize) -> (r: String)
        requires
            self.wf(),
            i < 9,
        ensures
            r@ == seq![cell_char(self.board@, i as int)],
    {
        let c: char = match self.board[i] {
            Cell::X => 'X',
            Cell::O => 'O',
            Cell::Empty => digit_char_exec(i as u64 + 1),
        };
        let mut s = String::new();
        push_char(&mut s, c);
        proof {
            assert(s@ =~= seq![cell_char(self.board@, i as int)]);
        }
        s
    }

    /// One rendered board row.
    fn row(&self, i: usize, j: usize, k: usize) -> (r: String)
        requires
            self.wf(),
            i < 9,
            j < 9,
            k < 9,
        ensures
            r@ == row_text(self.board@, i as int, j as int, k as int),
    {
        let mut s = String::from_str("   ");
        s.append(self.cell(i).as_str());
        s.append(" | ");
        s.append(self.cell(j).as_str());
        s.append(" | ");
        s.append(self.cell(k).as_str());
        proof {
            assert(s@ =~= row_text(self.board@, i as int, j as int, k as int));
        }
        s
    }

    /// The five lines the current board renders to.
    pub fn render_board(&self) -> (r: Vec<(String, LineStyle)>)
        requires
            self.wf(),
        ensures
            line_views(r@) == board_lines(self.board@),
    {
        let mut lines: Vec<(String, LineStyle)> = Vec::new();
        push_line(&mut lines, self.row(0, 1, 2), LineStyle::Normal);
        push_line(&mut lines, String::from_str("   ---------"), LineStyle::Muted);
        push_line(&mut lines, self.row(3, 4, 5), LineStyle::Normal);
        push_line(&mut lines, String::from_str("   ---------"), LineStyle::Muted);
        push_line(&mut lines, self.row(6, 7, 8), LineStyle::Normal);
        proof {
            assert(line_views(lines@) =~= board_lines(self.board@));
        }
        lines
    }

    /// The free cell completing some line for `player`, if any, in
    /// fixed scan order.
    pub fn find_winning_move(&self, player: Cell) -> (r: Option<usize>)
        requires
            self.wf(),
        ensures
            (match find_move_spec(self.board@, player) {
                Some(p) => r == Some(p as usize),
                None => r is None,
            }),
    {
        if let Some(p) = self.line_move_at(0, 1, 2, player) {
            Some(p)
        } else if let Some(p) = self.line_move_at(3, 4, 5, player) {
            Some(p)
        } else if let Some(p) = self.line_move_at(6, 7, 8, player) {
            Some(p)
        } else if let Some(p) = self.line_move_at(0, 3, 6, player) {
            Some(p)
        } else if let Some(p) = self.line_move_at(1, 4, 7, player) {
            Some(p)
        } else if let Some(p) = self.line_move_at(2, 5, 8, player) {
            Some(p)
        } else if let Some(p) = self.line_move_at(0, 4, 8, player) {
            Some(p)
        } else if let Some(p) = self.line_move_at(2, 4, 6, player) {
            Some(p)
        } else {
            None
        }
    }

    /// The free cell of one line when the other two hold `c`.
    fn line_move_at(&self, i: usize, j: usize, k: usize, c: Cell) -> (r: Option<usize>)
        requires
            self.wf(),
            i < 9,
            j < 9,
            k < 9,
        ensures
            (match line_move(self.board@, i as int, j as int, k as int, c) {
                Some(p) => r == Some(p as usize),
                None => r is None,
            }),
    {
        let bi = self.board[i];
        let bj = self.board[j];
        let bk = self.board[k];
        if bi == c && bj == c && bk == Cell::Empty {
            Some(k)
        } else if bi == c && bk == c && bj == Cell::Empty {
            Some(j)
        } else if bj == c && bk == c && bi == Cell::Empty {
            Some(i)
        } else {
            None
        }
    }

    /// The winner's mark, if one of the eight lines is complete.
    pub fn check_winner(&self) -> (r: Option<char>)
        requires
            self.wf(),
        ensures
            r == winner_spec(self.board@),
    {
        if self.wins_for(Cell::X) {
            Some('X')
        } else if self.wins_for(Cell::O) {
            Some('O')
        } else {
            None
        }
    }

    /// Whether `c` holds a complete line.
    fn wins_for(&self, c: Cell) -> (r: bool)
        requires
            self.wf(),
        ensures
            r == wins(self.board@, c),
    {
        let b = &self.board;
        (b[0] == c && b[1] == c && b[2] == c) || (b[3] == c && b[4] == c && b[5] == c) || (b[6] == c
            && b[7] == c && b[8] == c) || (b[0] == c && b[3] == c && b[6] == c) || (b[1] == c && b[4]
            == c && b[7] == c) || (b[2] == c && b[5] == c && b[8] == c) || (b[0] == c && b[4] == c
            && b[8] == c) || (b[2] == c && b[4] == c && b[6] == c)
    }

    /// Whether no cell is free.
    pub fn is_full(&self) -> (r: bool)
        requires
            self.wf(),
        ensures
            r == full_spec(self.board@),
    {
        let mut i: usize = 0;
        while i < 9
            invariant
                i <= 9,
                self.wf(),
                forall|k: int| 0 <= k < i ==> self.board@[k] != Cell::Empty,
            decreases 9 - i,
        {
            if self.board[i] == Cell::Empty {
                return false;
            }
            i = i + 1;
        }
        true
    }

    /// Places the computer's mark: win, block, center, or first free.
    pub fn computer_move(&mut self)
        requires
            old(self).wf(),
            !full_spec(old(self).board@),
        ensures
            final(self).wf(),
            final(self).board@ == old(self).board@.update(
                computer_choice(old(self).board@),
                Cell::O,
            ),
            final(self).player_turn == old(self).player_turn,
            final(self).game_over == old(self).game_over,
    {
        let pos: usize = if let Some(p) = self.find_winning_move(Cell::O) {
            p
        } else if let Some(p) = self.find_winning_move(Cell::X) {
            p
        } else if self.board[4] == Cell::Empty {
            4
        } else {
            let mut i: usize = 0;
            while i < 8 && self.board[i] != Cell::Empty
                invariant
                    i <= 8,
                    self.wf(),
                    forall|k: int| 0 <= k < i ==> self.board@[k] != Cell::Empty,
                decreases 8 - i,
            {
                i = i + 1;
            }
            proof {
                if i == 8 {
                    assert(self.board@[8] != Cell::Empty ==> full_spec(self.board@));
                }
                assert(i as int == first_free(self.board@));
            }
            i
        };
        proof {
            assert(pos < 9);
        }
        self.board[pos] = Cell::O;
    }

    /// The finished-game rendering for the given winner mark.
    pub fn game_over_output(&self, winner: char) -> (r: CommandOutput)
        requires
            self.wf(),
        ensures
            is_quiet_output(r, game_over_lines(self.board@, winner)),
    {
        let mut lines: Vec<(String, LineStyle)> = Vec::new();
        push_line(&mut lines, String::from_str(""), LineStyle::Normal);
        let mut board = self.render_board();
        let ghost before = lines@;
        let ghost board_view = board@;
        lines.append(&mut board);
        proof {
            assert(line_views(lines@) =~= line_views(before) + line_views(board_view));
        }
        push_line(&mut lines, String::from_str(""), LineStyle::Normal);
        if winner == 'X' {
            push_line(
                &mut lines,
                String::from_str("  You win! Congratulations!"),
                LineStyle::Accent,
            );
        } else if winner == 'O' {
            push_line(
                &mut lines,
                String::from_str("  Computer wins! Better luck next time."),
                LineStyle::Error,
            );
        } else {
            push_line(&mut lines, String::from_str("  It's a draw!"), LineStyle::Muted);
        }
        push_line(
            &mut lines,
            String::from_str("  Type 'ttt' to play again, or 'quit' to exit."),
            LineStyle::Muted,
        );
        proof {
            assert(line_views(lines@) =~= game_over_lines(self.board@, winner));
        }
        CommandOutput::new(lines, false, false)
    }

    /// The ongoing-game rendering: updated board and prompt.
    fn prompt_output(&self) -> (r: CommandOutput)
        requires
            self.wf(),
        ensures
            is_quiet_output(r, prompt_lines(self.board@)),
    {
        let mut lines: Vec<(String, LineStyle)> = Vec::new();
        push_line(&mut lines, String::from_str(""), LineStyle::Normal);
        let mut board = self.render_board();
        let ghost before = lines@;
        let ghost board_view = board@;
        lines.append(&mut board);
        proof {
            assert(line_views(lines@) =~= line_views(before) + line_views(board_view));
        }
        push_line(&mut lines, String::from_str(""), LineStyle::Normal);
        push_line(&mut lines, String::from_str("  Your move (1-9):"), LineStyle::Accent);
        proof {
            assert(line_views(lines@) =~= prompt_lines(self.board@));
        }
        CommandOutput::new(lines, false, false)
    }

    /// Plays one turn from a raw input line: the human's move if the
    /// input names a free cell 1 through 9, then the computer's
    /// answer; rejected input leaves the game unchanged.
    pub fn handle_input(&mut self, input: &str) -> (r: CommandOutput)
        requires
            old(self).wf(),
        ensures
            final(self).wf(),
            handle_input_spec(*old(self), input@, *final(self), r),
    {
        let trimmed = trim(input);
        let t = lower_str(trimmed.as_str());

        if self.game_over {
            return Self::start_output();
        }

        let pos: usize = match Self::parse_move(t.as_str()) {
            Some(p) => p,
            None => {
                let mut lines: Vec<(String, LineStyle)> = Vec::new();
                push_line(
                    &mut lines,
                    String::from_str("  Invalid move! Enter a number 1-9."),
                    LineStyle::Error,
                );
                proof {
                    assert(line_views(lines@) =~= seq![
                        ("  Invalid move! Enter a number 1-9."@, LineStyle::Error),
                    ]);
                }
                return CommandOutput::new(lines, false, false);
            },
        };

        if self.board[pos] != Cell::Empty {
            let mut lines: Vec<(String, LineStyle)> = Vec::new();
            push_line(
                &mut lines,
                String::from_str("  That spot is taken! Try another."),
                LineStyle::Error,
            );
            proof {
                assert(line_views(lines@) =~= seq![
                    ("  That spot is taken! Try another."@, LineStyle::Error),
                ]);
            }
            return CommandOutput::new(lines, false, false);
        }

        self.board[pos] = Cell::X;

        if let Some(winner) = self.check_winner() {
            self.game_over = true;
            return self.game_over_output(winner);
        }
        if self.is_full() {
            self.game_over = true;
            return self.game_over_output(' ');
        }

        self.computer_move();

        if let Some(winner) = self.check_winner() {
            self.game_over = true;
            return self.game_over_output(winner);
        }
        if self.is_full() {
            self.game_over = true;
            return self.game_over_output(' ');
        }

        self.prompt_output()
    }

    /// Reads a move: the decimal spelling of 1 through 9, with an
    /// optional leading `+`.
    fn parse_move(t: &str) -> (r: Option<usize>)
        ensures
            (match parse_pos(t@) {
                Some(p) => r == Some(p as usize),
                None => r is None,
            }),
    {
        let n = t.unicode_len();
        let start: usize = if n >= 1 && t.get_char(0) == '+' {
            1
        } else {
            0
        };
        let ghost d = unsigned_part(t@);
        proof {
            assert(d =~= t@.subrange(start as int, n as int));
        }
        if n == start {
            return None;
        }
        let mut v: u64 = 0;
        let mut i: usize = start;
        while i < n
            invariant
                start <= i <= n,
                n == t@.len(),
                d == unsigned_part(t@),
                d == t@.subrange(start as int, n as int),
                all_digits(d.subrange(0, i - start)),
                v == (if digits_val(d.subrange(0, i - start)) > 9 {
                    10nat
                } else {
                    digits_val(d.subrange(0, i - start))
                }),
            decreases n - i,
        {
            let c = t.get_char(i);
            proof {
                assert(d[i - start] == t@[i as int]);
            }
            if !('0' <= c && c <= '9') {
                proof {
                    assert(!all_digits(d));
                }
                return None;
            }
            let dv: u64 = digit_value(c);
            v = if v == 0 {
                dv
            } else {
                10
            };
            proof {
                let pref = d.subrange(0, i + 1 - start);
                assert(pref.drop_last() =~= d.subrange(0, i - start));
                assert(pref.last() == d[i - start]);
                assert(all_digits(pref));
            }
            i = i + 1;
        }
        proof {
            assert(d.subrange(0, n - start) =~= d);
        }
        if 1 <= v && v <= 9 {
            Some((v - 1) as usize)
        } else {
            None
        }
    }
}

/// The numeric value of a digit character.
fn digit_value(c: char) -> (r: u64)
    requires
        '0' <= c && c <= '9',
    ensures
        r == digit_of(c),
        r <= 9,
{
    if c == '0' {
        0
    } else if c == '1' {
        1
    } else if c == '2' {
        2
    } else if c == '3' {
        3
    } else if c == '4' {
        4
    } else if c == '5' {
        5
    } else if c == '6' {
        6
    } else if c == '7' {
        7
    } else if c == '8' {
        8
    } else {
        9
    }
}

} // verus!
