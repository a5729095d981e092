//! The answer to the bidding question.

use vstd::prelude::*;
use crate::text::{ascii_lower, chars_of, eq_str, lower_range, trim, trim_bounds};

verus! {

/// The answer that a typed line gives to a yes-or-no question: after
/// trimming white space and ignoring case, `y` or `yes` is yes, `n` or `no`
/// is no, and anything else is no answer.
pub open spec fn yes_no(s: Seq<char>) -> Option<bool> {
    let t = ascii_lower(trim(s));
    if t == "y"@ || t == "yes"@ {
        Some(true)
    } else if t == "n"@ || t == "no"@ {
        Some(false)
    } else {
        None
    }
}

/// Reads a yes-or-no answer from a typed line: `Some(true)` for `y` or
/// `yes`, `Some(false)` for `n` or `no` (white space around and case do not
/// matter), `None` otherwise, when the question has to be asked again.
pub fn parse_yes_no(line: &str) -> (r: Option<bool>)
    ensures
        r == yes_no(line@),
{
    let v = chars_of(line);
    let (start, end) = trim_bounds(&v);
    let t = lower_range(&v, start, end);
    if eq_str(&t, "y") || eq_str(&t, "yes") {
        Some(true)
    } else if eq_str(&t, "n") || eq_str(&t, "no") {
        Some(false)
    } else {
        None
    }
}

} // verus!
