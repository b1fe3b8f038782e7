//! What holds of a chain of delegations, and of its use at a host.

use crate::abilities::law_grant_is_what_may_pass;
use crate::abilities::law_leaf_never_holds_spawn;
use crate::abilities::law_no_spawn_without_spawn;
use crate::abilities::passes_on;
use crate::capability::CapabilityView;
use crate::capability::SealView;
use crate::capability::SignedCapabilityView;
use crate::caveats::is_live;
use crate::caveats::last_second;
use crate::caveats::law_attenuate_narrows;
use crate::caveats::law_narrowing_is_transitive;
use crate::caveats::narrower_or_equal;
use crate::delegation::delegated;
use crate::delegation::extended;
use crate::delegation::DelegateError;
use vstd::prelude::*;

verus! {

/// Whether `child` holds no ability that `parent` lacks, over the same resource and under
/// conditions that are no broader.
pub open spec fn no_broader(child: CapabilityView, parent: CapabilityView) -> bool {
    &&& forall|a: Seq<char>| #[trigger]
        child.abilities.contains(a) ==> parent.abilities.contains(a)
    &&& child.resource == parent.resource
    &&& narrower_or_equal(child.caveats, parent.caveats)
}

/// Whether `child` was issued by the holder of `parent`, refers to it, and is no broader.
pub open spec fn follows(child: SignedCapabilityView, parent: SignedCapabilityView) -> bool {
    &&& child.cap.issuer == parent.cap.audience
    &&& child.cap.parent == Some(parent.seal.id)
    &&& no_broader(child.cap, parent.cap)
}

/// Whether every link after the first follows from the link before it.
pub open spec fn is_linked(chain: Seq<SignedCapabilityView>) -> bool {
    forall|i: int, j: int|
        0 <= i && j == i + 1 && j < chain.len() ==> #[trigger] follows(chain[j], chain[i])
}

/// Delegation turns a linked chain into a linked chain, one link longer, for the child. The links
/// before, and with them the root, are as they were.
pub proof fn law_delegation_keeps_chains_linked(
    chain: Seq<SignedCapabilityView>,
    holder: Seq<u8>,
    child: Seq<u8>,
    child_can_replicate: bool,
    now: u64,
    ttl: u64,
    nonce: u64,
    cap: CapabilityView,
    seal: SealView,
)
    requires
        is_linked(chain),
        delegated(chain, holder, child, child_can_replicate, now, ttl, nonce) == Ok::<
            CapabilityView,
            DelegateError,
        >(cap),
    ensures
        is_linked(extended(chain, cap, seal)),
        follows(extended(chain, cap, seal).last(), chain.last()),
        extended(chain, cap, seal).len() == chain.len() + 1,
        extended(chain, cap, seal).drop_last() == chain,
        extended(chain, cap, seal).first() == chain.first(),
        extended(chain, cap, seal).last().cap.audience == child,
        extended(chain, cap, seal).last().cap.issuer == holder,
{
    let longer = extended(chain, cap, seal);
    let parent = chain.last();
    law_attenuate_narrows(parent.cap.caveats, now, ttl);
    assert forall|a: Seq<char>| #[trigger]
        cap.abilities.contains(a) implies parent.cap.abilities.contains(a) by {
        law_grant_is_what_may_pass(parent.cap.abilities, child_can_replicate, a);
    }
    assert(follows(longer.last(), parent));
    assert forall|i: int, j: int| 0 <= i && j == i + 1 && j < longer.len() implies #[trigger] follows(
        longer[j],
        longer[i],
    ) by {
        if j < chain.len() {
            assert(follows(chain[j], chain[i]));
        }
    }
    assert(longer.drop_last() =~= chain);
}

/// Privilege only ever shrinks down a linked chain: no link is broader than any link before it.
pub proof fn law_privilege_only_shrinks(chain: Seq<SignedCapabilityView>, above: int, below: int)
    requires
        is_linked(chain),
        0 <= above <= below < chain.len(),
    ensures
        no_broader(chain[below].cap, chain[above].cap),
    decreases below - above,
{
    if above < below {
        law_privilege_only_shrinks(chain, above, below - 1);
        assert(follows(chain[below], chain[below - 1]));
        law_narrowing_is_transitive(
            chain[below].cap.caveats,
            chain[below - 1].cap.caveats,
            chain[above].cap.caveats,
        );
    }
}

/// Whether `child` is no broader than `parent`, and not the other way round.
pub open spec fn strictly_weaker(child: CapabilityView, parent: CapabilityView) -> bool {
    no_broader(child, parent) && !no_broader(parent, child)
}

/// What is delegated is strictly weaker than what is held, if an ability is not passed on or the
/// lifetime ends before the parent's. (Otherwise the two may be equal: the child's expiry is then
/// the parent's own.)
pub proof fn law_delegation_is_strictly_weaker(
    chain: Seq<SignedCapabilityView>,
    holder: Seq<u8>,
    child: Seq<u8>,
    child_can_replicate: bool,
    now: u64,
    ttl: u64,
    nonce: u64,
    cap: CapabilityView,
)
    requires
        delegated(chain, holder, child, child_can_replicate, now, ttl, nonce) == Ok::<
            CapabilityView,
            DelegateError,
        >(cap),
        ({
            let parent = chain.last().cap;
            ||| parent.caveats.not_after == 0
            ||| last_second(now, ttl) < parent.caveats.not_after
            ||| exists|a: Seq<char>| #[trigger]
                parent.abilities.contains(a) && !passes_on(a, child_can_replicate)
        }),
    ensures
        strictly_weaker(cap, chain.last().cap),
{
    let parent = chain.last().cap;
    law_attenuate_narrows(parent.caveats, now, ttl);
    assert forall|a: Seq<char>| #[trigger]
        cap.abilities.contains(a) implies parent.abilities.contains(a) by {
        law_grant_is_what_may_pass(parent.abilities, child_can_replicate, a);
    }
    if parent.caveats.not_after == 0 || last_second(now, ttl) < parent.caveats.not_after {
        let after = cap.caveats.not_after + 1;
        assert(is_live(parent.caveats, after));
        assert(!is_live(cap.caveats, after));
    } else {
        let a = choose|a: Seq<char>| #[trigger]
            parent.abilities.contains(a) && !passes_on(a, child_can_replicate);
        law_grant_is_what_may_pass(parent.abilities, child_can_replicate, a);
    }
}

/// The tree ends by capability: below a link without `spawn`, no link of the chain has it, and no
/// delegation from the chain gives it, whether the child is meant to replicate or not.
pub proof fn law_spawn_never_comes_back(
    chain: Seq<SignedCapabilityView>,
    at: int,
    holder: Seq<u8>,
    child: Seq<u8>,
    child_can_replicate: bool,
    now: u64,
    ttl: u64,
    nonce: u64,
)
    requires
        is_linked(chain),
        0 <= at < chain.len(),
        !chain[at].cap.abilities.contains("spawn"@),
    ensures
        forall|below: int|
            at <= below < chain.len() ==> !(#[trigger] chain[below]).cap.abilities.contains(
                "spawn"@,
            ),
        delegated(chain, holder, child, child_can_replicate, now, ttl, nonce) matches Ok(cap)
            ==> !cap.abilities.contains("spawn"@),
{
    assert forall|below: int| at <= below < chain.len() implies !(
    #[trigger] chain[below]).cap.abilities.contains("spawn"@) by {
        law_privilege_only_shrinks(chain, at, below);
    }
    law_no_spawn_without_spawn(chain.last().cap.abilities);
}

/// What a host goes by when it is shown a chain.
pub struct Host {
    /// The nodes whose grants it accepts as the start of a chain.
    pub roots: Set<Seq<u8>>,
    /// The grants that were revoked, by issuer and nonce.
    pub revoked: Set<(Seq<u8>, u64)>,
    /// Which signatures are the issuer's.
    pub genuine: spec_fn(SignedCapabilityView) -> bool,
    /// Which resources, in their encoded form, include this host.
    pub covers: spec_fn(Seq<u8>) -> bool,
}

/// Whether a host takes one link of a chain as granting `ability` at time `at`.
pub open spec fn stands(
    host: Host,
    link: SignedCapabilityView,
    ability: Seq<char>,
    at: int,
) -> bool {
    &&& (host.genuine)(link)
    &&& !host.revoked.contains((link.cap.issuer, link.cap.nonce))
    &&& (host.covers)(link.cap.resource)
    &&& is_live(link.cap.caveats, at)
    &&& link.cap.abilities.contains(ability)
}

/// Whether a chain entitles `bearer` to `ability` at a host: it starts at an accepted root and ends
/// at the bearer, each link follows from the one before, and every link stands.
pub open spec fn entitles(
    host: Host,
    chain: Seq<SignedCapabilityView>,
    bearer: Seq<u8>,
    ability: Seq<char>,
    at: int,
) -> bool {
    &&& chain.len() > 0
    &&& host.roots.contains(chain.first().cap.issuer)
    &&& chain.last().cap.audience == bearer
    &&& is_linked(chain)
    &&& forall|i: int| 0 <= i < chain.len() ==> #[trigger] stands(host, chain[i], ability, at)
}

/// A chain that entitles its holder to an ability entitles the child to it too, at the same host
/// and under the same root, once the holder has signed what delegation gives: if the ability is
/// one that is passed on, the signature is genuine and not revoked, and the lifetime is not over.
pub proof fn law_delegated_chain_entitles_the_child(
    host: Host,
    chain: Seq<SignedCapabilityView>,
    holder: Seq<u8>,
    child: Seq<u8>,
    child_can_replicate: bool,
    now: u64,
    ttl: u64,
    nonce: u64,
    cap: CapabilityView,
    seal: SealView,
    ability: Seq<char>,
    at: int,
)
    requires
        entitles(host, chain, holder, ability, at),
        delegated(chain, holder, child, child_can_replicate, now, ttl, nonce) == Ok::<
            CapabilityView,
            DelegateError,
        >(cap),
        passes_on(ability, child_can_replicate),
        (host.genuine)((SignedCapabilityView { cap, seal })),
        !host.revoked.contains((holder, nonce)),
        at <= last_second(now, ttl),
    ensures
        entitles(host, extended(chain, cap, seal), child, ability, at),
{
    let longer = extended(chain, cap, seal);
    law_delegation_keeps_chains_linked(
        chain,
        holder,
        child,
        child_can_replicate,
        now,
        ttl,
        nonce,
        cap,
        seal,
    );
    let parent = chain.last();
    assert(stands(host, chain[chain.len() - 1], ability, at));
    law_grant_is_what_may_pass(parent.cap.abilities, child_can_replicate, ability);
    assert forall|i: int| 0 <= i < longer.len() implies #[trigger] stands(
        host,
        longer[i],
        ability,
        at,
    ) by {
        if i < chain.len() {
            assert(stands(host, chain[i], ability, at));
        }
    }
}

/// A chain entitles nobody but the audience of its last link, and only to what that link grants
/// while it is live. And each part of it, from the root down, entitles its own holder to the same:
/// where a link is revoked, expired or lacks the ability, the whole tree below it collapses.
pub proof fn law_every_link_must_stand(
    host: Host,
    chain: Seq<SignedCapabilityView>,
    bearer: Seq<u8>,
    ability: Seq<char>,
    at: int,
    upto: int,
)
    requires
        entitles(host, chain, bearer, ability, at),
        0 < upto <= chain.len(),
    ensures
        bearer == chain.last().cap.audience,
        chain.last().cap.abilities.contains(ability),
        is_live(chain.last().cap.caveats, at),
        entitles(host, chain.take(upto), chain[upto - 1].cap.audience, ability, at),
{
    let part = chain.take(upto);
    assert(stands(host, chain[chain.len() - 1], ability, at));
    assert forall|i: int, j: int| 0 <= i && j == i + 1 && j < part.len() implies #[trigger] follows(
        part[j],
        part[i],
    ) by {
        assert(follows(chain[j], chain[i]));
    }
    assert forall|i: int| 0 <= i < part.len() implies #[trigger] stands(
        host,
        part[i],
        ability,
        at,
    ) by {
        assert(stands(host, chain[i], ability, at));
    }
}

/// No holder can widen its own grant: whatever link it adds to its chain, no one is entitled by
/// the longer chain to an ability that the holder's own link lacks, nor at a time at which that
/// link is not live.
pub proof fn law_no_link_widens_its_parent(
    host: Host,
    chain: Seq<SignedCapabilityView>,
    link: SignedCapabilityView,
    bearer: Seq<u8>,
    ability: Seq<char>,
    at: int,
)
    requires
        chain.len() > 0,
        !chain.last().cap.abilities.contains(ability) || !is_live(chain.last().cap.caveats, at),
    ensures
        !entitles(host, chain.push(link), bearer, ability, at),
{
    let longer = chain.push(link);
    if entitles(host, longer, bearer, ability, at) {
        assert(stands(host, longer[chain.len() - 1], ability, at));
    }
}

/// A leaf cannot spawn: a chain that was delegated to a child that may not replicate entitles no
/// one to `spawn`, at any host and any time.
pub proof fn law_leaf_cannot_spawn(
    host: Host,
    chain: Seq<SignedCapabilityView>,
    holder: Seq<u8>,
    child: Seq<u8>,
    now: u64,
    ttl: u64,
    nonce: u64,
    cap: CapabilityView,
    seal: SealView,
    bearer: Seq<u8>,
    at: int,
)
    requires
        delegated(chain, holder, child, false, now, ttl, nonce) == Ok::<
            CapabilityView,
            DelegateError,
        >(cap),
    ensures
        !entitles(host, extended(chain, cap, seal), bearer, "spawn"@, at),
{
    let longer = extended(chain, cap, seal);
    law_leaf_never_holds_spawn(chain.last().cap.abilities);
    if entitles(host, longer, bearer, "spawn"@, at) {
        assert(stands(host, longer[chain.len() as int], "spawn"@, at));
    }
}

} // verus!
