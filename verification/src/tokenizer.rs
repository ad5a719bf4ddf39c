//! Splits one raw input line into a command name and its arguments.

use crate::text::{lower, lower_str, seq_views, tokens, tokens_spec};
use vstd::prelude::*;

verus! {

/// A parsed input line: the lowercased command name and the argument
/// tokens, case preserved, in order.
pub struct ParsedCommand {
    pub command: String,
    pub args: Vec<String>,
}

/// The command name `parse` extracts: the first whitespace-separated
/// token, lowercased; empty when there is none.
pub open spec fn command_spec(s: Seq<char>) -> Seq<char> {
    if tokens_spec(s).len() == 0 {
        Seq::empty()
    } else {
        lower(tokens_spec(s)[0])
    }
}

/// The argument tokens `parse` extracts: every token after the first.
pub open spec fn args_spec(s: Seq<char>) -> Seq<Seq<char>> {
    if tokens_spec(s).len() == 0 {
        Seq::empty()
    } else {
        tokens_spec(s).subrange(1, tokens_spec(s).len() as int)
    }
}

/// Trims `input`, splits it on runs of whitespace, and lowercases the
/// first token. No quoting or escaping; arguments keep their case.
pub fn parse(input: &str) -> (r: ParsedCommand)
    ensures
        r.command@ == command_spec(input@),
        seq_views(r.args@) == args_spec(input@),
{
    let toks = tokens(input);
    if toks.len() == 0 {
        ParsedCommand { command: String::new(), args: Vec::new() }
    } else {
        let command = lower_str(toks[0].as_str());
        let mut args: Vec<String> = Vec::new();
        let mut i: usize = 1;
        while i < toks.len()
            invariant
                1 <= i <= toks@.len(),
                seq_views(toks@) == tokens_spec(input@),
                seq_views(args@) == seq_views(toks@).subrange(1, i as int),
            decreases toks@.len() - i,
        {
            args.push(toks[i].clone());
            proof {
                assert(seq_views(args@) =~= seq_views(args@.drop_last()).push(toks@[i as int]@));
                assert(seq_views(toks@).subrange(1, i + 1) =~= seq_views(toks@).subrange(
                    1,
                    i as int,
                ).push(seq_views(toks@)[i as int]));
            }
            i = i + 1;
        }
        ParsedCommand { command, args }
    }
}

} // verus!
