//! Times, nonces and tallies.

use crate::clock::seconds_of;
use crate::clock::since_epoch;
use crate::clock::unix_time;
use crate::clock::whole_seconds;
use crate::seeding::nonce_at;
use crate::seeding::outcome;
use crate::seeding::successes;
use std::time::SystemTime;
use vstd::prelude::*;

verus! {

/// The time is the whole seconds that the clock is past the epoch, whatever their number, and 0 on
/// a clock that is not past it.
pub proof fn law_time_is_seconds_since_the_epoch(reading: SystemTime, elapsed: u64)
    ensures
        since_epoch(reading) matches Ok(span) ==> unix_time(reading) == whole_seconds(span),
        since_epoch(reading) is Err ==> unix_time(reading) == 0,
        seconds_of(Some(elapsed)) == elapsed,
        seconds_of(None) == 0,
{
}

/// The first target gets the nonce after the start, and each target the one after the target
/// before it.
pub proof fn law_nonces_follow_each_other(start: int, index: int)
    ensures
        nonce_at(start, 0) == start + 1,
        nonce_at(start, index + 1) == nonce_at(start, index) + 1,
{
}

/// Every success counts once, and a failure does not count.
pub proof fn law_one_more_attempt(attempts: Seq<bool>, success: bool)
    ensures
        successes(Seq::empty()) == 0,
        successes(attempts.push(success)) == successes(attempts) + if success {
            1int
        } else {
            0int
        },
{
    reveal(Seq::filter);
    assert(attempts.push(success).drop_last() =~= attempts);
}

/// Seeding succeeds exactly if no target failed, and otherwise reports as many failures as, with
/// the successes, make up the targets.
pub proof fn law_failures_make_up_the_rest(ok: int, total: int)
    requires
        0 <= ok <= total,
    ensures
        outcome(ok, total) is Ok <==> ok == total,
        outcome(ok, total) matches Err(failed) ==> failed > 0 && ok + failed == total,
{
}

} // verus!
