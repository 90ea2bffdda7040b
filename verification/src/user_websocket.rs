//! Decision logic of the user-notification polling loop. The loop itself
//! awaits the socket and the database, so it runs at the transport edge;
//! what is verified here is its pacing rule: exponential backoff between
//! polls, doubling with each idle round up to a fixed ceiling.
use vstd::prelude::*;

verus! {

/// Initial polling delay, in milliseconds.
pub const DEFAULT_BACKOFF_MS: u64 = 100;

/// Ceiling the polling delay saturates at, in milliseconds.
pub const MAX_BACKOFF_MS: u64 = 10000;

/// The delay after one more idle poll: doubled, saturating at the ceiling.
pub open spec fn spec_next_backoff(cur_ms: u64, max_ms: u64) -> int {
    if 2 * cur_ms <= max_ms {
        2 * cur_ms
    } else {
        max_ms as int
    }
}

pub fn next_backoff(cur_ms: u64, max_ms: u64) -> (r: u64)
    ensures
        r == spec_next_backoff(cur_ms, max_ms),
{
    if cur_ms <= max_ms / 2 {
        cur_ms * 2
    } else {
        max_ms
    }
}

/// Backoff law: the delay never leaves `[cur, max]` once below the
/// ceiling, so an idle connection's polling rate decays and then holds.
pub proof fn lemma_backoff_bounded(cur_ms: u64, max_ms: u64)
    requires
        cur_ms <= max_ms,
    ensures
        cur_ms <= spec_next_backoff(cur_ms, max_ms) <= max_ms,
{
}

} // verus!
