//! Watching a worker's state on the command line.

use crate::time::{TimeSpan, SECOND};
use vstd::prelude::*;

verus! {

/// How long a fetched calendar is used by the command line, in seconds.
pub const REFETCH_SECS: u64 = 900;

/// What a look at a worker comes to, a time `since_fetch` after the last fetch that has succeeded:
/// whether the calendar is to be fetched again, and the change to announce if there is one, which is
/// `true` where a blackout begins and `false` where it is over.
pub fn watch_step(since_fetch: TimeSpan, was_blocked: bool, blocked: bool) -> (r: (
    bool,
    Option<bool>,
))
    ensures
        r.0 == (since_fetch@ >= 900 * SECOND),
        r.1 == if blocked == was_blocked {
            None::<bool>
        } else {
            Some(blocked)
        },
{
    let refetch: bool = since_fetch.nanos >= REFETCH_SECS as u128 * 1_000_000_000;
    if blocked == was_blocked {
        (refetch, None)
    } else {
        (refetch, Some(blocked))
    }
}

} // verus!
