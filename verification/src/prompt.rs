//! What the user's answers at the prompt mean.

use vstd::prelude::*;

verus! {

/// What an answer to the question whether to exit means: to exit for an
/// empty answer, `Y` or `y`, to stay for `n`, and nothing for any other.
pub open spec fn exit_answer_spec(answer: Seq<char>) -> Option<bool> {
    if answer.len() == 0 || answer == seq!['Y'] || answer == seq!['y'] {
        Some(true)
    } else if answer == seq!['n'] {
        Some(false)
    } else {
        None
    }
}

/// Reads the answer to the question whether to exit, given without the
/// white space that followed it.
pub fn exit_answer(answer: &str) -> (r: Option<bool>)
    ensures
        r == exit_answer_spec(answer@),
{
    if answer.is_empty() {
        return Some(true);
    }
    if answer.unicode_len() != 1 {
        return None;
    }
    let c = answer.get_char(0);
    assert(answer@ =~= seq![c]);
    if c == 'Y' || c == 'y' {
        Some(true)
    } else if c == 'n' {
        Some(false)
    } else {
        None
    }
}

} // verus!
