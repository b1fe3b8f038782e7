//! Delegation: a weaker capability for the next node of the tree.

use crate::abilities::onward;
use crate::abilities::onward_abilities;
use crate::abilities::texts;
use crate::capability::copy_chain;
use crate::capability::links;
use crate::capability::same_id;
use crate::capability::Capability;
use crate::capability::CapabilityView;
use crate::capability::NodeId;
use crate::capability::Seal;
use crate::capability::SealView;
use crate::capability::SignedCapability;
use crate::capability::SignedCapabilityView;
use crate::caveats::attenuate;
use crate::caveats::attenuated;
use crate::laws::granting::law_sync_is_not_spawn;
use crate::laws::granting::law_when_delegation_succeeds;
use vstd::prelude::*;

verus! {

/// Why there is nothing to sign.
#[derive(Debug, Clone, Copy, PartialEq, Eq, Structural)]
pub enum DelegateError {
    /// The chain to extend has no links.
    EmptyChain,
    /// The signer is not the node that the last link was granted to.
    NotTheHolder,
    /// The last link holds none of the abilities that a replica needs.
    NothingToDelegate,
}

impl DelegateError {
    /// The words for the error.
    pub open spec fn text(self) -> Seq<char> {
        match self {
            DelegateError::EmptyChain => "empty capability chain"@,
            DelegateError::NotTheHolder =>
                "cannot delegate: the signing identity is not the audience of the held capability"@,
            DelegateError::NothingToDelegate =>
                "nothing to delegate: parent holds none of [\"sync\", \"spawn\"]"@,
        }
    }

    /// The error in words.
    pub fn message(&self) -> (words: String)
        ensures
            words@ == self.text(),
    {
        match self {
            DelegateError::EmptyChain => String::from_str("empty capability chain"),
            DelegateError::NotTheHolder => String::from_str(
                "cannot delegate: the signing identity is not the audience of the held capability",
            ),
            DelegateError::NothingToDelegate => String::from_str(
                "nothing to delegate: parent holds none of [\"sync\", \"spawn\"]",
            ),
        }
    }
}

/// Whether a target that is given `depth` levels may replicate onward.
pub open spec fn may_replicate(depth: u32) -> bool {
    depth > 1
}

/// Whether a target that is given `depth` levels may replicate onward. At the last level it may
/// not, so that the tree ends.
pub fn can_replicate(depth: u32) -> (can: bool)
    ensures
        can == (depth > 1),
        can == may_replicate(depth),
{
    depth > 1
}

/// The capability that the holder of `parent` signs for `child`.
pub open spec fn grant(
    parent: SignedCapabilityView,
    child: Seq<u8>,
    child_can_replicate: bool,
    now: u64,
    ttl: u64,
    nonce: u64,
) -> CapabilityView {
    CapabilityView {
        issuer: parent.cap.audience,
        audience: child,
        abilities: onward(parent.cap.abilities, child_can_replicate),
        resource: parent.cap.resource,
        caveats: attenuated(parent.cap.caveats, now, ttl),
        nonce,
        parent: Some(parent.seal.id),
    }
}

/// What delegating from the last link of a chain comes to.
pub open spec fn delegated(
    chain: Seq<SignedCapabilityView>,
    holder: Seq<u8>,
    child: Seq<u8>,
    child_can_replicate: bool,
    now: u64,
    ttl: u64,
    nonce: u64,
) -> Result<CapabilityView, DelegateError> {
    if chain.len() == 0 {
        Err(DelegateError::EmptyChain)
    } else if chain.last().cap.audience != holder {
        Err(DelegateError::NotTheHolder)
    } else if onward(chain.last().cap.abilities, child_can_replicate).len() == 0 {
        Err(DelegateError::NothingToDelegate)
    } else {
        Ok(grant(chain.last(), child, child_can_replicate, now, ttl, nonce))
    }
}

/// A result of [`delegate`], with the capability taken by its view.
pub open spec fn outcome(result: Result<Capability, DelegateError>) -> Result<
    CapabilityView,
    DelegateError,
> {
    match result {
        Ok(cap) => Ok(cap@),
        Err(error) => Err(error),
    }
}

/// The capability for `holder` to sign, so that `child` can carry on from the last link of
/// `parent_chain`. It grants no more than that link does.
pub fn delegate(
    parent_chain: &[SignedCapability],
    holder: NodeId,
    child: NodeId,
    child_can_replicate: bool,
    now: u64,
    ttl: u64,
    nonce: u64,
) -> (result: Result<Capability, DelegateError>)
    ensures
        outcome(result) == delegated(
            links(parent_chain@),
            holder@,
            child@,
            child_can_replicate,
            now,
            ttl,
            nonce,
        ),
        ({
            let last = parent_chain@[parent_chain@.len() - 1].cap;
            let held = texts(last.abilities@);
            &&& result is Ok <==> parent_chain@.len() > 0 && last.audience@ == holder@ && (
            held.contains("sync"@) || (held.contains("spawn"@) && child_can_replicate))
            &&& result matches Ok(cap) ==> {
                &&& cap.issuer@ == holder@
                &&& cap.audience@ == child@
                &&& cap.resource@ == last.resource@
                &&& cap.nonce == nonce
                &&& texts(cap.abilities@).contains("sync"@) <==> held.contains("sync"@)
                &&& texts(cap.abilities@).contains("spawn"@) <==> held.contains("spawn"@)
                    && child_can_replicate
            }
        }),
{
    proof {
        law_when_delegation_succeeds(
            links(parent_chain@),
            holder@,
            child@,
            child_can_replicate,
            now,
            ttl,
            nonce,
        );
        law_sync_is_not_spawn();
    }
    if parent_chain.len() == 0 {
        return Err(DelegateError::EmptyChain);
    }
    let parent = &parent_chain[parent_chain.len() - 1];
    assert(links(parent_chain@).last() == parent@);
    if !same_id(&parent.cap.audience, &holder) {
        return Err(DelegateError::NotTheHolder);
    }
    let abilities = onward_abilities(parent.cap.abilities.as_slice(), child_can_replicate);
    if abilities.len() == 0 {
        return Err(DelegateError::NothingToDelegate);
    }
    let caveats = attenuate(&parent.cap.caveats, now, ttl);
    let resource = parent.cap.resource.clone();
    assert(resource@ =~= parent.cap.resource@);
    Ok(
        Capability {
            issuer: holder,
            audience: child,
            abilities,
            resource,
            caveats,
            nonce,
            parent: Some(parent.seal.id),
        },
    )
}

/// A chain with one more link.
pub open spec fn extended(
    chain: Seq<SignedCapabilityView>,
    cap: CapabilityView,
    seal: SealView,
) -> Seq<SignedCapabilityView> {
    chain.push(SignedCapabilityView { cap, seal })
}

/// The chain for the child: all links of the parent's chain, then the newly signed capability.
pub fn extend_chain(parent_chain: &[SignedCapability], cap: Capability, seal: Seal) -> (chain: Vec<
    SignedCapability,
>)
    ensures
        links(chain@) == extended(links(parent_chain@), cap@, seal@),
        chain@.len() == parent_chain@.len() + 1,
        forall|i: int| 0 <= i < parent_chain@.len() ==> #[trigger] chain@[i]@ == parent_chain@[i]@,
        chain@[parent_chain@.len() as int]@.cap == cap@,
        chain@[parent_chain@.len() as int]@.seal == seal@,
{
    let mut chain = copy_chain(parent_chain);
    let ghost before = chain@;
    chain.push(SignedCapability { cap, seal });
    assert(links(chain@) =~= links(before).push(SignedCapabilityView { cap: cap@, seal: seal@ }));
    assert forall|i: int| 0 <= i < parent_chain@.len() implies #[trigger] chain@[i]@
        == parent_chain@[i]@ by {
        assert(links(before)[i] == links(parent_chain@)[i]);
    }
    chain
}

} // verus!
