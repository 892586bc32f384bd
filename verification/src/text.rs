//! Intervals in writing.

use vstd::prelude::*;
use vstd::string::StringExecFns;

verus! {

/// An interval in the usual notation, over the text of its two points: a
/// square bracket where the end is closed and a round one where it is open,
/// each chosen by its own end, and the points between them, parted by a comma
/// and a space.
pub open spec fn spec_notation(
    left_closed: bool,
    left: Seq<char>,
    right: Seq<char>,
    right_closed: bool,
) -> Seq<char> {
    seq![if left_closed { '[' } else { '(' }] + left + seq![',', ' '] + right + seq![
        if right_closed { ']' } else { ')' },
    ]
}

/// Writes an interval in the usual notation, given the text of its two
/// points and whether each end is closed.
pub fn notation(left_closed: bool, left: &str, right: &str, right_closed: bool) -> (s: String)
    ensures
        s@ == spec_notation(left_closed, left@, right@, right_closed),
{
    proof {
        reveal_strlit("[");
        reveal_strlit("(");
        reveal_strlit(", ");
        reveal_strlit("]");
        reveal_strlit(")");
    }
    let mut s = String::from_str(if left_closed { "[" } else { "(" });
    s.append(left);
    s.append(", ");
    s.append(right);
    s.append(if right_closed { "]" } else { ")" });
    assert(s@ =~= spec_notation(left_closed, left@, right@, right_closed));
    s
}

} // verus!
