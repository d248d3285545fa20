//! The lines this program reports on its standard error.

use vstd::prelude::*;
use vstd::string::*;

verus! {

pub open spec fn info_line(msg: Seq<char>) -> Seq<char> {
    "[INFO] "@ + msg
}

pub open spec fn warn_line(msg: Seq<char>) -> Seq<char> {
    "[WARN] "@ + msg
}

pub open spec fn error_line(msg: Seq<char>) -> Seq<char> {
    "[ERROR] "@ + msg
}

pub fn info(msg: &str) -> (r: String)
    ensures
        r@ == info_line(msg@),
{
    let mut out: String = "[INFO] ".to_owned();
    out.append(msg);
    out
}

pub fn warn(msg: &str) -> (r: String)
    ensures
        r@ == warn_line(msg@),
{
    let mut out: String = "[WARN] ".to_owned();
    out.append(msg);
    out
}

pub fn error(msg: &str) -> (r: String)
    ensures
        r@ == error_line(msg@),
{
    let mut out: String = "[ERROR] ".to_owned();
    out.append(msg);
    out
}

/// Every line carries its level in front of what it says.
pub proof fn a_line_carries_its_level(msg: Seq<char>)
    ensures
        info_line(msg) == seq!['[', 'I', 'N', 'F', 'O', ']', ' '] + msg,
        warn_line(msg) == seq!['[', 'W', 'A', 'R', 'N', ']', ' '] + msg,
        error_line(msg) == seq!['[', 'E', 'R', 'R', 'O', 'R', ']', ' '] + msg,
{
    reveal_strlit("[INFO] ");
    reveal_strlit("[WARN] ");
    reveal_strlit("[ERROR] ");
    assert("[INFO] "@ =~= seq!['[', 'I', 'N', 'F', 'O', ']', ' ']);
    assert("[WARN] "@ =~= seq!['[', 'W', 'A', 'R', 'N', ']', ' ']);
    assert("[ERROR] "@ =~= seq!['[', 'E', 'R', 'R', 'O', 'R', ']', ' ']);
}

} // verus!
