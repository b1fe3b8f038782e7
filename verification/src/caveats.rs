//! The conditions on a capability, and how delegation narrows them.

use vstd::prelude::*;

verus! {

/// The conditions under which a capability may be used.
///
/// Delegation reads the expiry only. The other conditions are held in their encoded form and
/// handed on as they are.
#[derive(Debug, Default, PartialEq, Eq)]
pub struct Caveats {
    /// The last second at which the capability may be used; 0 for one that never expires.
    pub not_after: u64,
    /// All other conditions.
    pub others: Vec<u8>,
}

#[verifier::ext_equal]
pub struct CaveatsView {
    pub not_after: u64,
    pub others: Seq<u8>,
}

impl View for Caveats {
    type V = CaveatsView;

    open spec fn view(&self) -> CaveatsView {
        CaveatsView { not_after: self.not_after, others: self.others@ }
    }
}

impl Clone for Caveats {
    fn clone(&self) -> (copy: Self)
        ensures
            copy@ == self@,
    {
        let copy = Caveats { not_after: self.not_after, others: self.others.clone() };
        assert(copy.others@ =~= self.others@);
        copy
    }
}

/// The last second of a lifetime of `ttl` seconds that starts at `now`, or the last second that
/// can be written at all. It is never 0, which is how a capability without expiry is written: a
/// lifetime of no length at the epoch ends with the first second after it.
pub open spec fn last_second(now: u64, ttl: u64) -> u64 {
    if now + ttl == 0 {
        1
    } else if now + ttl <= u64::MAX {
        (now + ttl) as u64
    } else {
        u64::MAX
    }
}

/// The caveats of a child: the lifetime ends with `ttl` or with the parent's, whichever is first,
/// and every other condition is the parent's.
pub open spec fn attenuated(parent: CaveatsView, now: u64, ttl: u64) -> CaveatsView {
    CaveatsView {
        not_after: if parent.not_after == 0 || last_second(now, ttl) <= parent.not_after {
            last_second(now, ttl)
        } else {
            parent.not_after
        },
        others: parent.others,
    }
}

/// Narrows a parent's caveats for a child: the expiry is clamped to the parent's, a parent that
/// never expires still gives the child a lifetime of `ttl`, and everything else is inherited.
pub fn attenuate(parent: &Caveats, now: u64, ttl: u64) -> (child: Caveats)
    ensures
        child@ == attenuated(parent@, now, ttl),
        child.others@ == parent.others@,
        0 < now + ttl <= u64::MAX && (parent.not_after == 0 || now + ttl <= parent.not_after)
            ==> child.not_after == now + ttl,
        0 < parent.not_after <= now + ttl ==> child.not_after == parent.not_after,
        now + ttl > u64::MAX && parent.not_after == 0 ==> child.not_after == u64::MAX,
        now + ttl == 0 ==> child.not_after == 1,
{
    let end: u64 = now.saturating_add(ttl);
    let want_exp: u64 = if end == 0 {
        1
    } else {
        end
    };
    let not_after: u64 = if parent.not_after == 0 {
        want_exp
    } else if parent.not_after <= want_exp {
        parent.not_after
    } else {
        want_exp
    };
    let mut child = parent.clone();
    child.not_after = not_after;
    child
}

/// Whether a use at time `at` falls within the expiry.
pub open spec fn is_live(caveats: CaveatsView, at: int) -> bool {
    caveats.not_after == 0 || at <= caveats.not_after
}

/// Whether `child` permits nothing that `parent` does not: it is live at no second at which the
/// parent is not, and shares all its other conditions.
pub open spec fn narrower_or_equal(child: CaveatsView, parent: CaveatsView) -> bool {
    &&& forall|at: int| #[trigger] is_live(child, at) ==> is_live(parent, at)
    &&& child.others == parent.others
}

/// A child's caveats are never broader than its parent's, it expires at some point, and not after
/// its parent nor after its own lifetime is over.
pub proof fn law_attenuate_narrows(parent: CaveatsView, now: u64, ttl: u64)
    ensures
        narrower_or_equal(attenuated(parent, now, ttl), parent),
        attenuated(parent, now, ttl).not_after != 0,
        attenuated(parent, now, ttl).not_after <= last_second(now, ttl),
        now + ttl > 0 ==> attenuated(parent, now, ttl).not_after <= now + ttl,
        parent.not_after != 0 ==> attenuated(parent, now, ttl).not_after <= parent.not_after,
{
}

/// A lifetime that ends before the parent's gives a child that expires strictly earlier.
pub proof fn law_shorter_ttl_expires_earlier(parent: CaveatsView, now: u64, ttl: u64)
    requires
        now + ttl < parent.not_after,
        parent.not_after > 1,
    ensures
        attenuated(parent, now, ttl).not_after < parent.not_after,
{
}

/// Narrowing is transitive: what a grandchild permits, its grandparent permits.
pub proof fn law_narrowing_is_transitive(
    grandchild: CaveatsView,
    child: CaveatsView,
    parent: CaveatsView,
)
    requires
        narrower_or_equal(grandchild, child),
        narrower_or_equal(child, parent),
    ensures
        narrower_or_equal(grandchild, parent),
{
    assert forall|at: int| #[trigger] is_live(grandchild, at) implies is_live(parent, at) by {
        assert(is_live(child, at));
    }
}

} // verus!
