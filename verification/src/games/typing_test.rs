//! A single-turn typing-speed test over a fixed sentence pool.
//!
//! The host clock and the random sentence pick are passed in as plain
//! values, so the scoring itself is exact: accuracy counts matching
//! character positions, speed uses the five-characters-per-word rule.

use crate::output::{line_views, push_line, CommandOutput, LineStyle};
use crate::text::{concat2, concat3, dec_str, push_char, trim, trim_spec, u128_dec, u64_dec};
use vstd::prelude::*;
use vstd::string::StringExecFns;

verus! {

/// The fixed sentence pool, by index 0 through 7.
pub open spec fn sentence(i: int) -> Seq<char> {
    if i == 0 {
        "the quick brown fox jumps over the lazy dog"@
    } else if i == 1 {
        "rust is a systems programming language focused on safety"@
    } else if i == 2 {
        "webassembly enables high performance applications on the web"@
    } else if i == 3 {
        "leptos is a reactive framework for building web applications"@
    } else if i == 4 {
        "practice makes perfect when learning to type faster"@
    } else if i == 5 {
        "the terminal is a powerful tool for developers"@
    } else if i == 6 {
        "coding is both an art and a science requiring creativity"@
    } else {
        "open source software powers most of the internet today"@
    }
}

/// Holds one target sentence; the first submitted line is scored
/// against it and finishes the test.
pub struct TypingTest {
    /// The sentence the player is asked to type.
    pub target: String,
    /// Host clock value at the first submission, in milliseconds.
    pub start_time: Option<u64>,
    /// Set as soon as one submission has been scored.
    pub finished: bool,
}

/// How many of the first `n` target positions the input matches.
pub open spec fn correct_upto(target: Seq<char>, inp: Seq<char>, n: int) -> nat
    decreases n,
{
    if n <= 0 {
        0
    } else {
        correct_upto(target, inp, n - 1) + (if n - 1 < inp.len() && inp[n - 1] == target[n - 1] {
            1nat
        } else {
            0nat
        })
    }
}

/// Percentage of target positions typed correctly, rounded down.
pub open spec fn accuracy_spec(target: Seq<char>, inp: Seq<char>) -> nat {
    if target.len() > 0 {
        correct_upto(target, inp, target.len() as int) * 100 / target.len()
    } else {
        0
    }
}

/// Words per minute: five characters count as one word, rounded
/// down; zero before any time has passed.
pub open spec fn wpm_spec(inp_len: nat, elapsed_ms: nat) -> nat {
    if elapsed_ms > 0 {
        inp_len * 12000 / elapsed_ms
    } else {
        0
    }
}

/// Elapsed milliseconds as tenths of a second, rounded to nearest.
pub open spec fn tenths_of(ms: nat) -> nat {
    ms / 100 + if ms % 100 >= 50 {
        1nat
    } else {
        0nat
    }
}

/// The qualitative verdict for a speed.
pub open spec fn rating_spec(wpm: nat) -> Seq<char> {
    if wpm <= 29 {
        "Keep practicing!"@
    } else if wpm <= 49 {
        "Not bad!"@
    } else if wpm <= 69 {
        "Good speed!"@
    } else if wpm <= 89 {
        "Impressive!"@
    } else if wpm <= 119 {
        "Blazing fast!"@
    } else {
        "Are you a robot?!"@
    }
}

/// The lines a fresh test greets the player with.
pub open spec fn typing_start_lines(target: Seq<char>) -> Seq<(Seq<char>, LineStyle)> {
    seq![
        (""@, LineStyle::Normal),
        ("  === TYPING SPEED TEST ==="@, LineStyle::Accent),
        ("  Type the following text as fast as you can:"@, LineStyle::Normal),
        ("  Type 'quit' to exit."@, LineStyle::Muted),
        (""@, LineStyle::Normal),
        ("  > "@ + target, LineStyle::Accent),
        (""@, LineStyle::Normal),
    ]
}

/// The report a scored submission renders.
pub open spec fn typing_result_lines(wpm: nat, acc: nat, ms: nat) -> Seq<(Seq<char>, LineStyle)> {
    seq![
        (""@, LineStyle::Normal),
        ("  === RESULTS ==="@, LineStyle::Accent),
        (""@, LineStyle::Normal),
        ("  Speed:    "@ + dec_str(wpm) + " WPM"@, LineStyle::Normal),
        ("  Accuracy: "@ + dec_str(acc) + seq!['%'], LineStyle::Normal),
        (
            "  Time:     "@ + dec_str(tenths_of(ms) / 10) + seq!['.'] + dec_str(tenths_of(ms) % 10)
                + seq!['s'],
            LineStyle::Normal,
        ),
        ("  Rating:   "@ + rating_spec(wpm), LineStyle::Accent),
        (""@, LineStyle::Normal),
        ("  Type 'typing' to try again, or 'quit' to exit."@, LineStyle::Muted),
    ]
}

/// An output with the given lines, quiet flags, and no game started.
pub open spec fn is_quiet_output(r: CommandOutput, lines: Seq<(Seq<char>, LineStyle)>) -> bool {
    line_views(r.lines@) == lines && !r.clear_screen && !r.typewriter && r.start_game is None
}

/// The state `t1` and report `r` one submission produces from `t0`
/// at host time `now_ms`: the timer starts at the first submission,
/// the test is scored immediately and becomes finished.
pub open spec fn handle_input_spec(
    t0: TypingTest,
    input: Seq<char>,
    now_ms: u64,
    t1: TypingTest,
    r: CommandOutput,
) -> bool {
    let inp = trim_spec(input);
    let st = if t0.start_time is Some {
        t0.start_time->0
    } else {
        now_ms
    };
    let ms: nat = if now_ms >= st {
        (now_ms - st) as nat
    } else {
        0
    };
    let acc = accuracy_spec(t0.target@, inp);
    let wpm = wpm_spec(inp.len(), ms);
    t1.target == t0.target && t1.start_time == Some(st) && t1.finished && is_quiet_output(
        r,
        typing_result_lines(wpm, acc, ms),
    )
}

impl TypingTest {
    /// A fresh test over the sentence the pick selects from the pool
    /// of eight; the caller supplies the randomness.
    pub fn new(pick: u64) -> (r: Self)
        ensures
            r.target@ == sentence((pick % 8) as int),
            r.start_time is None,
            !r.finished,
    {
        let idx = pick % 8;
        let target: String = if idx == 0 {
            String::from_str("the quick brown fox jumps over the lazy dog")
        } else if idx == 1 {
            String::from_str("rust is a systems programming language focused on safety")
        } else if idx == 2 {
            String::from_str("webassembly enables high performance applications on the web")
        } else if idx == 3 {
            String::from_str("leptos is a reactive framework for building web applications")
        } else if idx == 4 {
            String::from_str("practice makes perfect when learning to type faster")
        } else if idx == 5 {
            String::from_str("the terminal is a powerful tool for developers")
        } else if idx == 6 {
            String::from_str("coding is both an art and a science requiring creativity")
        } else {
            String::from_str("open source software powers most of the internet today")
        };
        TypingTest { target, start_time: None, finished: false }
    }

    /// The greeting and target sentence a new test prints.
    pub fn start_output(&self) -> (r: CommandOutput)
        ensures
            is_quiet_output(r, typing_start_lines(self.target@)),
    {
        let mut lines: Vec<(String, LineStyle)> = Vec::new();
        push_line(&mut lines, String::from_str(""), LineStyle::Normal);
        push_line(&mut lines, String::from_str("  === TYPING SPEED TEST ==="), LineStyle::Accent);
        push_line(
            &mut lines,
            String::from_str("  Type the following text as fast as you can:"),
            LineStyle::Normal,
        );
        push_line(&mut lines, String::from_str("  Type 'quit' to exit."), LineStyle::Muted);
        push_line(&mut lines, String::from_str(""), LineStyle::Normal);
        push_line(&mut lines, concat2("  > ", self.target.as_str()), LineStyle::Accent);
        push_line(&mut lines, String::from_str(""), LineStyle::Normal);
        proof {
            assert(line_views(lines@) =~= typing_start_lines(self.target@));
        }
        CommandOutput::new(lines, false, false)
    }

    /// Scores one submission against the target: starts the timer on
    /// the first one, reports speed, accuracy, elapsed time, and a
    /// rating, and finishes the test.
    pub fn handle_input(&mut self, input: &str, now_ms: u64) -> (r: CommandOutput)
        ensures
            handle_input_spec(*old(self), input@, now_ms, *final(self), r),
    {
        let trimmed = trim(input);

        let st: u64 = match self.start_time {
            Some(s) => s,
            None => {
                self.start_time = Some(now_ms);
                now_ms
            },
        };

        let ms: u64 = if now_ms >= st {
            now_ms - st
        } else {
            0
        };

        let n_t: usize = self.target.as_str().unicode_len();
        let n_i: usize = trimmed.as_str().unicode_len();
        let mut correct: u64 = 0;
        let mut i: usize = 0;
        while i < n_t
            invariant
                i <= n_t,
                n_t == self.target@.len(),
                n_i == trimmed@.len(),
                correct == correct_upto(self.target@, trimmed@, i as int),
                correct <= i,
            decreases n_t - i,
        {
            if i < n_i && trimmed.as_str().get_char(i) == self.target.as_str().get_char(i) {
                correct = correct + 1;
            }
            i = i + 1;
        }

        let acc: u64 = if n_t > 0 {
            proof {
                assert(correct * 100 <= n_t * 100) by (nonlinear_arith)
                    requires
                        correct <= n_t,
                ;
                assert(correct as nat * 100 / n_t as nat <= 100) by (nonlinear_arith)
                    requires
                        correct * 100 <= n_t * 100,
                        n_t > 0,
                ;
            }
            ((correct as u128 * 100) / (n_t as u128)) as u64
        } else {
            0
        };

        let wpm: u128 = if ms > 0 {
            (n_i as u128 * 12000) / (ms as u128)
        } else {
            0
        };

        self.finished = true;

        let rating: String = if wpm <= 29 {
            String::from_str("Keep practicing!")
        } else if wpm <= 49 {
            String::from_str("Not bad!")
        } else if wpm <= 69 {
            String::from_str("Good speed!")
        } else if wpm <= 89 {
            String::from_str("Impressive!")
        } else if wpm <= 119 {
            String::from_str("Blazing fast!")
        } else {
            String::from_str("Are you a robot?!")
        };

        let mut acc_line = concat2("  Accuracy: ", u64_dec(acc).as_str());
        push_char(&mut acc_line, '%');

        let tenths: u64 = ms / 100 + if ms % 100 >= 50 {
            1
        } else {
            0
        };
        let mut time_line = concat2("  Time:     ", u64_dec(tenths / 10).as_str());
        push_char(&mut time_line, '.');
        time_line.append(u64_dec(tenths % 10).as_str());
        push_char(&mut time_line, 's');

        let mut lines: Vec<(String, LineStyle)> = Vec::new();
        push_line(&mut lines, String::from_str(""), LineStyle::Normal);
        push_line(&mut lines, String::from_str("  === RESULTS ==="), LineStyle::Accent);
        push_line(&mut lines, String::from_str(""), LineStyle::Normal);
        push_line(
            &mut lines,
            concat3("  Speed:    ", u128_dec(wpm).as_str(), " WPM"),
            LineStyle::Normal,
        );
        push_line(&mut lines, acc_line, LineStyle::Normal);
        push_line(&mut lines, time_line, LineStyle::Normal);
        push_line(&mut lines, concat2("  Rating:   ", rating.as_str()), LineStyle::Accent);
        push_line(&mut lines, String::from_str(""), LineStyle::Normal);
        push_line(
            &mut lines,
            String::from_str("  Type 'typing' to try again, or 'quit' to exit."),
            LineStyle::Muted,
        );
        proof {
            let ghost msn: nat = ms as nat;
            assert(acc as nat == accuracy_spec(self.target@, trimmed@));
            assert(wpm as nat == wpm_spec(trimmed@.len(), msn));
            assert(line_views(lines@) =~= typing_result_lines(wpm as nat, acc as nat, msn));
        }
        CommandOutput::new(lines, false, false)
    }
}

} // verus!
