//! The dispatch table: a pure, total mapping from a job identifier to the
//! fixed response text, kept separate from the session loop so it can be
//! extended without touching the loop.

use vstd::prelude::*;

verus! {

/// The response text owed to a job identifier: job 1 is greeted with
/// `"hi"`; every other job gets the fallback marker `"e"`.
pub open spec fn dispatch_spec(job: u32) -> Seq<char> {
    if job == 1 {
        "hi"@
    } else {
        "e"@
    }
}

/// Picks the response text for a decoded request. Pure and total: no
/// side effects, an answer for every job value.
pub fn dispatch(job: u32) -> (resp: &'static str)
    ensures
        resp@ == dispatch_spec(job),
{
    if job == 1 {
        "hi"
    } else {
        "e"
    }
}

} // verus!
