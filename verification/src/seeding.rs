//! Seeding several targets: a nonce for each, and what the attempts come to.

use vstd::prelude::*;

verus! {

/// The nonce for the target at `index`, counting on from `start`.
pub open spec fn nonce_at(start: int, index: int) -> int {
    start + index + 1
}

/// The nonce for the target at `index`, counting on from `start`.
pub fn nonce_for(start: u64, index: usize) -> (nonce: u64)
    requires
        nonce_at(start as int, index as int) <= u64::MAX,
    ensures
        nonce == nonce_at(start as int, index as int),
{
    start + index as u64 + 1
}

/// No two targets of one seeding get the same nonce, so that the grant of one can be revoked and
/// the others stay.
pub proof fn law_nonces_are_distinct(start: int, one: int, other: int)
    requires
        one != other,
    ensures
        nonce_at(start, one) != nonce_at(start, other),
{
}

/// How many attempts succeeded.
pub open spec fn successes(attempts: Seq<bool>) -> nat {
    attempts.filter(|success: bool| success).len()
}

/// Counts the attempts that succeeded.
pub fn count_seeded(attempts: &[bool]) -> (ok: usize)
    ensures
        ok == successes(attempts@),
        ok <= attempts@.len(),
{
    let ghost keep = |success: bool| success;
    let mut ok: usize = 0;
    let mut i: usize = 0;
    assert(attempts@.take(0).filter(keep).len() == 0) by {
        reveal(Seq::filter);
    }
    while i < attempts.len()
        invariant
            i <= attempts@.len(),
            keep == (|success: bool| success),
            ok == attempts@.take(i as int).filter(keep).len(),
            ok <= i,
        decreases attempts@.len() - i,
    {
        assert(attempts@.take(i + 1).drop_last() =~= attempts@.take(i as int));
        reveal(Seq::filter);
        if attempts[i] {
            ok += 1;
        }
        i += 1;
    }
    assert(attempts@.take(i as int) =~= attempts@);
    ok
}

/// What seeding `ok` of `total` targets comes to: a success, or the number of failures.
pub open spec fn outcome(ok: int, total: int) -> Result<(), int> {
    if ok == total {
        Ok(())
    } else {
        Err(total - ok)
    }
}

/// Whether seeding succeeded, which takes every target; if not, the number of targets that failed.
pub fn seed_result(ok: usize, total: usize) -> (result: Result<(), usize>)
    requires
        ok <= total,
    ensures
        match result {
            Ok(_) => ok == total,
            Err(failed) => ok < total && failed == total - ok,
        },
        match result {
            Ok(_) => outcome(ok as int, total as int) is Ok,
            Err(failed) => outcome(ok as int, total as int) == Err::<(), int>(failed as int),
        },
{
    if ok == total {
        Ok(())
    } else {
        Err(total - ok)
    }
}

/// Seeding succeeds exactly if every attempt did.
pub proof fn law_every_target_counts(attempts: Seq<bool>)
    ensures
        successes(attempts) <= attempts.len(),
        successes(attempts) == attempts.len() <==> forall|i: int|
            0 <= i < attempts.len() ==> #[trigger] attempts[i],
    decreases attempts.len(),
{
    reveal(Seq::filter);
    if attempts.len() > 0 {
        let rest = attempts.drop_last();
        law_every_target_counts(rest);
        assert(forall|i: int| 0 <= i < rest.len() ==> rest[i] == attempts[i]);
        if successes(attempts) == attempts.len() {
            assert forall|i: int| 0 <= i < attempts.len() implies #[trigger] attempts[i] by {
                if i < rest.len() {
                    assert(rest[i]);
                }
            }
        } else if forall|i: int| 0 <= i < attempts.len() ==> #[trigger] attempts[i] {
            assert(attempts[attempts.len() - 1]);
        }
    }
}

} // verus!
