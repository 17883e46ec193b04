//! The main-menu vocabulary and its dispatch.
//!
//! A raw line selects a command by normalization alone: the line is trimmed
//! and case-folded, and the result is matched against the fixed set of
//! tokens. Anything else is an unrecognized command, which the caller
//! reports and then shows the menu again.

use vstd::prelude::*;
use crate::text::{normalize, normalize_spec, token_eq};

verus! {

/// The closed vocabulary of the main menu: the five handlers, the quit
/// request, and the catch-all for anything else.
#[derive(Clone, Copy, PartialEq, Eq, Structural, Debug)]
pub enum Command {
    Produce,
    Evaluate,
    Assemble,
    Attack,
    Adjust,
    Quit,
    Unrecognized,
}

/// Which command a normalized line selects. `evaluate` has the short form
/// `eval`; quitting answers to `quit`, `exit` and `shutdown`.
pub open spec fn command_of(t: Seq<char>) -> Command {
    if t == "produce"@ {
        Command::Produce
    } else if t == "evaluate"@ || t == "eval"@ {
        Command::Evaluate
    } else if t == "assemble"@ {
        Command::Assemble
    } else if t == "attack"@ {
        Command::Attack
    } else if t == "adjust"@ {
        Command::Adjust
    } else if t == "quit"@ || t == "exit"@ || t == "shutdown"@ {
        Command::Quit
    } else {
        Command::Unrecognized
    }
}

/// Reads a raw menu line as a command: the line is normalized and matched
/// against the vocabulary, per [`command_of`].
pub fn parse_command(line: &str) -> (r: Command)
    ensures
        r == command_of(normalize_spec(line@)),
{
    let t = normalize(line);
    if token_eq(&t, "produce") {
        Command::Produce
    } else if token_eq(&t, "evaluate") || token_eq(&t, "eval") {
        Command::Evaluate
    } else if token_eq(&t, "assemble") {
        Command::Assemble
    } else if token_eq(&t, "attack") {
        Command::Attack
    } else if token_eq(&t, "adjust") {
        Command::Adjust
    } else if token_eq(&t, "quit") || token_eq(&t, "exit") || token_eq(&t, "shutdown") {
        Command::Quit
    } else {
        Command::Unrecognized
    }
}

/// Surrounding whitespace never changes which command a line selects:
/// a line wrapped in blanks dispatches exactly as the bare line does.
pub proof fn lemma_dispatch_ignores_surrounding_blanks(
    p: Seq<char>,
    s: Seq<char>,
    q: Seq<char>,
)
    requires
        forall|i: int| 0 <= i < p.len() ==> crate::text::is_blank(#[trigger] p[i]),
        forall|i: int| 0 <= i < q.len() ==> crate::text::is_blank(#[trigger] q[i]),
    ensures
        command_of(normalize_spec(p + s + q)) == command_of(normalize_spec(s)),
{
    crate::text::lemma_normalize_ignores_surrounding_blanks(p, s, q);
}

/// Letter case never changes which command a line selects: two lines whose
/// characters fold alike dispatch to the same command.
pub proof fn lemma_dispatch_case_insensitive(s: Seq<char>, t: Seq<char>)
    requires
        crate::text::case_like(s, t),
    ensures
        command_of(normalize_spec(s)) == command_of(normalize_spec(t)),
{
    crate::text::lemma_normalize_case_insensitive(s, t);
}

} // verus!
