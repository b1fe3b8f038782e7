//! What is granted: abilities, expiry, and when delegation succeeds.

use crate::abilities::law_grant_is_what_may_pass;
use crate::abilities::onward;
use crate::capability::CapabilityView;
use crate::capability::SealView;
use crate::capability::SignedCapabilityView;
use crate::caveats::attenuated;
use crate::caveats::is_live;
use crate::caveats::last_second;
use crate::caveats::CaveatsView;
use crate::delegation::delegated;
use crate::delegation::extended;
use crate::delegation::may_replicate;
use crate::delegation::DelegateError;
use vstd::prelude::*;

verus! {

/// An ability is granted exactly if the parent holds it and it is `sync`, or it is `spawn` and the
/// child may replicate.
pub proof fn law_granted_abilities(held: Seq<Seq<char>>, child_can_replicate: bool, a: Seq<char>)
    ensures
        onward(held, child_can_replicate).contains(a) <==> held.contains(a) && (a == "sync"@ || (a
            == "spawn"@ && child_can_replicate)),
{
    law_sync_is_not_spawn();
    law_grant_is_what_may_pass(held, child_can_replicate, a);
}

/// The two abilities are told apart by their names.
pub proof fn law_sync_is_not_spawn()
    ensures
        "sync"@ != "spawn"@,
{
    reveal_strlit("sync");
    reveal_strlit("spawn");
    assert("sync"@.len() != "spawn"@.len());
}

/// Abilities are granted one by one, in the order in which they are held, as often as they are
/// held, and none because of another: one more ability held is one more granted if it is `sync`,
/// or `spawn` for a child that may replicate, and changes nothing otherwise.
pub proof fn law_one_more_ability(held: Seq<Seq<char>>, a: Seq<char>, child_can_replicate: bool)
    ensures
        onward(Seq::empty(), child_can_replicate) == Seq::<Seq<char>>::empty(),
        onward(held.push(a), child_can_replicate) == if a == "sync"@ || (a == "spawn"@
            && child_can_replicate) {
            onward(held, child_can_replicate).push(a)
        } else {
            onward(held, child_can_replicate)
        },
{
    law_sync_is_not_spawn();
    reveal(Seq::filter);
    assert(held.push(a).drop_last() =~= held);
}

/// Something is granted exactly if the parent holds `sync`, or holds `spawn` and the child may
/// replicate.
pub proof fn law_something_to_grant(held: Seq<Seq<char>>, child_can_replicate: bool)
    ensures
        onward(held, child_can_replicate).len() > 0 <==> held.contains("sync"@) || (held.contains(
            "spawn"@,
        ) && child_can_replicate),
{
    law_granted_abilities(held, child_can_replicate, "sync"@);
    law_granted_abilities(held, child_can_replicate, "spawn"@);
    let granted = onward(held, child_can_replicate);
    if granted.len() > 0 {
        law_granted_abilities(held, child_can_replicate, granted[0]);
        assert(granted.contains(granted[0]));
    }
}

/// The child's expiry is the sum of the time and the lifetime, unless the parent's comes first. A
/// sum that cannot be written stands for the last second that can be, and a sum of 0 for the first
/// second. All other conditions are the parent's.
pub proof fn law_expiry_is_the_earlier_one(parent: CaveatsView, now: u64, ttl: u64)
    ensures
        ({
            let child = attenuated(parent, now, ttl);
            &&& 0 < now + ttl <= u64::MAX && (parent.not_after == 0 || now + ttl
                <= parent.not_after) ==> child.not_after == now + ttl
            &&& 0 < parent.not_after <= now + ttl ==> child.not_after == parent.not_after
            &&& now + ttl > u64::MAX && parent.not_after == 0 ==> child.not_after == u64::MAX
            &&& now + ttl == 0 ==> child.not_after == 1
            &&& child.others == parent.others
        }),
{
}

/// A lifetime ends at the sum of its start and its length.
pub proof fn law_lifetime_ends_at_the_sum(now: u64, ttl: u64)
    ensures
        0 < now + ttl <= u64::MAX ==> last_second(now, ttl) == now + ttl,
        now + ttl > u64::MAX ==> last_second(now, ttl) == u64::MAX,
        now + ttl == 0 ==> last_second(now, ttl) == 1,
{
}

/// A child is cut off no earlier than it has to be: at every time up to the end of its lifetime
/// that can be written and at which the parent has not expired, the child has not either. And it is
/// cut off no later: after the end of its lifetime, or of the parent's, it has expired.
pub proof fn law_child_lives_its_whole_life(parent: CaveatsView, now: u64, ttl: u64, at: int)
    requires
        now + ttl > 0,
    ensures
        ({
            let child = attenuated(parent, now, ttl);
            &&& child.not_after > 0
            &&& is_live(child, at) <==> at <= now + ttl && at <= u64::MAX && is_live(parent, at)
            &&& at <= child.not_after <==> at <= now + ttl && at <= u64::MAX && (parent.not_after
                == 0 || at <= parent.not_after)
        }),
{
}

/// Another second of lifetime is another second before expiry, as long as the parent allows.
pub proof fn law_longer_ttl_lives_longer(parent: CaveatsView, now: u64, ttl: u64, longer: u64)
    requires
        0 < now + ttl,
        ttl <= longer,
        now + longer <= u64::MAX,
        parent.not_after == 0 || now + longer <= parent.not_after,
    ensures
        attenuated(parent, now, longer).not_after - attenuated(parent, now, ttl).not_after == longer
            - ttl,
{
}

/// A target may replicate exactly if a level is left below it.
pub proof fn law_levels_below(depth: u32)
    ensures
        may_replicate(depth) <==> depth != 0 && depth != 1,
        depth < u32::MAX ==> (may_replicate((depth + 1) as u32) <==> depth >= 1),
{
}

/// Delegation succeeds exactly if there is a last link, the holder is its audience, and it holds
/// `sync`, or holds `spawn` and the child may replicate. Otherwise the first of these that fails is
/// the error.
pub proof fn law_when_delegation_succeeds(
    chain: Seq<SignedCapabilityView>,
    holder: Seq<u8>,
    child: Seq<u8>,
    child_can_replicate: bool,
    now: u64,
    ttl: u64,
    nonce: u64,
)
    ensures
        ({
            let result = delegated(chain, holder, child, child_can_replicate, now, ttl, nonce);
            let last = chain[chain.len() - 1].cap;
            let grants = last.abilities.contains("sync"@) || (last.abilities.contains("spawn"@)
                && child_can_replicate);
            &&& result is Ok <==> chain.len() > 0 && last.audience == holder && grants
            &&& chain.len() == 0 ==> result == Err::<CapabilityView, _>(DelegateError::EmptyChain)
            &&& chain.len() > 0 && last.audience != holder ==> result == Err::<CapabilityView, _>(
                DelegateError::NotTheHolder,
            )
            &&& chain.len() > 0 && last.audience == holder && !grants ==> result == Err::<
                CapabilityView,
                _,
            >(DelegateError::NothingToDelegate)
        }),
{
    if chain.len() > 0 {
        law_something_to_grant(chain.last().cap.abilities, child_can_replicate);
    }
}

/// What is signed, item by item: the holder grants to the child, over the same resource and under
/// the same other conditions, with the given nonce and the last link as its parent; `sync` if the
/// last link holds it, `spawn` if it does and the child may replicate, and nothing else; until the
/// earlier of the last link's expiry and the end of the lifetime.
pub proof fn law_what_is_delegated(
    chain: Seq<SignedCapabilityView>,
    holder: Seq<u8>,
    child: Seq<u8>,
    child_can_replicate: bool,
    now: u64,
    ttl: u64,
    nonce: u64,
    a: Seq<char>,
    cap: CapabilityView,
)
    requires
        delegated(chain, holder, child, child_can_replicate, now, ttl, nonce) == Ok::<
            CapabilityView,
            DelegateError,
        >(cap),
    ensures
        ({
            let last = chain[chain.len() - 1];
            let end = last.cap.caveats.not_after;
            &&& cap.issuer == holder
            &&& cap.audience == child
            &&& cap.nonce == nonce
            &&& cap.parent == Some(last.seal.id)
            &&& cap.resource == last.cap.resource
            &&& cap.caveats.others == last.cap.caveats.others
            &&& cap.abilities.contains(a) <==> last.cap.abilities.contains(a) && (a == "sync"@ || (a
                == "spawn"@ && child_can_replicate))
            &&& cap.abilities == onward(last.cap.abilities, child_can_replicate)
            &&& 0 < now + ttl <= u64::MAX && (end == 0 || now + ttl <= end)
                ==> cap.caveats.not_after == now + ttl
            &&& 0 < end <= now + ttl ==> cap.caveats.not_after == end
            &&& now + ttl > u64::MAX && end == 0 ==> cap.caveats.not_after == u64::MAX
            &&& now + ttl == 0 ==> cap.caveats.not_after == 1
        }),
{
    let last = chain.last();
    law_granted_abilities(last.cap.abilities, child_can_replicate, a);
    law_expiry_is_the_earlier_one(last.cap.caveats, now, ttl);
}

/// Only the last link of a chain matters: chains that end in the same link give the same result,
/// however long they are.
pub proof fn law_only_the_last_link_matters(
    one: Seq<SignedCapabilityView>,
    other: Seq<SignedCapabilityView>,
    holder: Seq<u8>,
    child: Seq<u8>,
    child_can_replicate: bool,
    now: u64,
    ttl: u64,
    nonce: u64,
)
    requires
        one.len() > 0,
        other.len() > 0,
        one[one.len() - 1] == other[other.len() - 1],
    ensures
        delegated(one, holder, child, child_can_replicate, now, ttl, nonce) == delegated(
            other,
            holder,
            child,
            child_can_replicate,
            now,
            ttl,
            nonce,
        ),
{
}

/// A longer chain has the old links in their places and the new one after them.
pub proof fn law_extended_chain(
    chain: Seq<SignedCapabilityView>,
    cap: CapabilityView,
    seal: SealView,
    i: int,
)
    ensures
        extended(chain, cap, seal).len() == chain.len() + 1,
        0 <= i < chain.len() ==> extended(chain, cap, seal)[i] == chain[i],
        extended(chain, cap, seal)[chain.len() as int].cap == cap,
        extended(chain, cap, seal)[chain.len() as int].seal == seal,
{
}

/// Delegation goes on: a child that was granted `sync` can itself delegate `sync` from its chain,
/// to anyone, at any time and for as long as it likes, and so can the next child; and a child that
/// was granted `spawn` can delegate `spawn`.
pub proof fn law_child_can_delegate_on(
    chain: Seq<SignedCapabilityView>,
    holder: Seq<u8>,
    child: Seq<u8>,
    child_can_replicate: bool,
    now: u64,
    ttl: u64,
    nonce: u64,
    cap: CapabilityView,
    seal: SealView,
    grandchild: Seq<u8>,
    grandchild_can_replicate: bool,
    later: u64,
    later_ttl: u64,
    later_nonce: u64,
)
    requires
        delegated(chain, holder, child, child_can_replicate, now, ttl, nonce) == Ok::<
            CapabilityView,
            DelegateError,
        >(cap),
    ensures
        ({
            let next = delegated(
                extended(chain, cap, seal),
                child,
                grandchild,
                grandchild_can_replicate,
                later,
                later_ttl,
                later_nonce,
            );
            let held = chain[chain.len() - 1].cap.abilities;
            &&& held.contains("sync"@) ==> (next matches Ok(granted) && granted.abilities.contains(
                "sync"@,
            ))
            &&& held.contains("spawn"@) && child_can_replicate && grandchild_can_replicate ==> (
            next matches Ok(granted) && granted.abilities.contains("spawn"@))
        }),
{
    let longer = extended(chain, cap, seal);
    let held = chain.last().cap.abilities;
    law_granted_abilities(held, child_can_replicate, "sync"@);
    law_granted_abilities(held, child_can_replicate, "spawn"@);
    law_granted_abilities(cap.abilities, grandchild_can_replicate, "sync"@);
    law_granted_abilities(cap.abilities, grandchild_can_replicate, "spawn"@);
    law_when_delegation_succeeds(
        longer,
        child,
        grandchild,
        grandchild_can_replicate,
        later,
        later_ttl,
        later_nonce,
    );
}

} // verus!
