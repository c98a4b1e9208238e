//! Where and how a process's own settings are written.

use vstd::prelude::*;

use crate::numbers::{decimal, decimal_i32, decimal_of, decimal_of_int};

verus! {

/// The file that holds a process's `oom_score_adj`.
pub fn oom_score_adj_path(pid: u32) -> (s: String)
    ensures
        s@ == "/proc/"@ + decimal_of(pid as nat) + "/oom_score_adj"@,
{
    let mut s = "/proc/".to_owned();
    s.append(decimal(pid as u64).as_str());
    s.append("/oom_score_adj");
    s
}

/// What is written to that file.
pub fn oom_score_adj_value(score: i32) -> (s: String)
    ensures
        s@ == decimal_of_int(score as int).push('\n'),
{
    let mut s = decimal_i32(score);
    s.push('\n');
    s
}

} // verus!
