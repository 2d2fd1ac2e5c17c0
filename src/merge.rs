use vstd::prelude::*;

use crate::text::{chars_of, concat_chars, string_of, trim, trim_chars};

verus! {

/// What shows for the normal output and the diagnostics of one run: both trimmed, the
/// diagnostics first and a blank line between them when both have text, a single space when
/// neither has any (an empty code block renders poorly).
pub open spec fn merged(output: Seq<char>, errors: Seq<char>) -> Seq<char> {
    let o = trim(output);
    let e = trim(errors);
    if o.len() == 0 && e.len() == 0 {
        seq![' ']
    } else if e.len() == 0 {
        o
    } else if o.len() == 0 {
        e
    } else {
        e + seq!['\n', '\n'] + o
    }
}

/// Joins a run's standard output and error output into one block of text.
pub fn merge_output_and_errors(output: &str, errors: &str) -> (r: String)
    ensures
        r@ == merged(output@, errors@),
        r@.len() > 0,
{
    let o = trim_chars(&chars_of(output));
    let e = trim_chars(&chars_of(errors));
    let v: Vec<char> = if o.len() == 0 && e.len() == 0 {
        let sp: Vec<char> = vec![' '];
        assert(sp@ =~= seq![' ']);
        sp
    } else if e.len() == 0 {
        o
    } else if o.len() == 0 {
        e
    } else {
        let gap: Vec<char> = vec!['\n', '\n'];
        assert(gap@ =~= seq!['\n', '\n']);
        concat_chars(&concat_chars(&e, &gap), &o)
    };
    string_of(&v)
}

} // verus!
