//! Emphasis in messages, through the `colored` crate.
use vstd::prelude::*;
use colored::Colorize;

verus! {

/// `s` as it reads in bold on a terminal that shows colour (`on`), or as
/// it is (`!on`).
pub open spec fn emphasis(s: Seq<char>, on: bool) -> Seq<char> {
    if on {
        seq!['\x1B', '[', '1', 'm'] + s + seq!['\x1B', '[', '0', 'm']
    } else {
        s
    }
}

/// No escape character occurs in `s`.
pub open spec fn escape_free(s: Seq<char>) -> bool {
    forall|i: int| 0 <= i < s.len() ==> s[i] != '\x1B'
}

/// Formats `colored`'s `bold` of `s`. Whether `colored` colours at all
/// depends on the environment and on the terminal (`NO_COLOR`,
/// `CLICOLOR`, `CLICOLOR_FORCE`, whether the output is a terminal), so
/// the text comes back either as it is or between the escape sequences
/// that start bold and reset; for a text without an escape character,
/// nothing inside changes.
#[verifier::external_body]
pub(crate) fn bold(s: &str) -> (r: String)
    ensures
        escape_free(s@) ==> (r@ == emphasis(s@, false) || r@ == emphasis(s@, true)),
{
    format!("{}", s.bold())
}

} // verus!
