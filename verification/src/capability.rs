//! Capabilities and chains of them, as far as delegation reads or carries them.

use crate::abilities::texts;
use crate::caveats::Caveats;
use crate::caveats::CaveatsView;
use vstd::prelude::*;

verus! {

/// The public key that names a node.
pub type NodeId = [u8; 32];

/// The content hash that names a signed capability.
pub type CapId = [u8; 32];

/// What one node grants another.
///
/// The resource is held in its encoded form: delegation hands it on and never looks inside.
#[derive(Debug, PartialEq, Eq)]
pub struct Capability {
    /// The node that grants.
    pub issuer: NodeId,
    /// The one node that may use the grant.
    pub audience: NodeId,
    /// What the audience may do.
    pub abilities: Vec<String>,
    /// What it may do it to.
    pub resource: Vec<u8>,
    /// The conditions on the grant.
    pub caveats: Caveats,
    /// Tells the grants of one issuer apart; a grant is revoked by its issuer and nonce.
    pub nonce: u64,
    /// The capability that this one was delegated from, if any.
    pub parent: Option<CapId>,
}

#[verifier::ext_equal]
pub struct CapabilityView {
    pub issuer: Seq<u8>,
    pub audience: Seq<u8>,
    pub abilities: Seq<Seq<char>>,
    pub resource: Seq<u8>,
    pub caveats: CaveatsView,
    pub nonce: u64,
    pub parent: Option<Seq<u8>>,
}

impl View for Capability {
    type V = CapabilityView;

    open spec fn view(&self) -> CapabilityView {
        CapabilityView {
            issuer: self.issuer@,
            audience: self.audience@,
            abilities: texts(self.abilities@),
            resource: self.resource@,
            caveats: self.caveats@,
            nonce: self.nonce,
            parent: match self.parent {
                Some(id) => Some(id@),
                None => None,
            },
        }
    }
}

/// What the issuer's signature adds to a capability.
#[derive(Debug, PartialEq, Eq)]
pub struct Seal {
    /// The name of the signed capability.
    pub id: CapId,
    /// The signed capability in its encoded form.
    pub token: String,
}

#[verifier::ext_equal]
pub struct SealView {
    pub id: Seq<u8>,
    pub token: Seq<char>,
}

impl View for Seal {
    type V = SealView;

    open spec fn view(&self) -> SealView {
        SealView { id: self.id@, token: self.token@ }
    }
}

/// A capability together with its issuer's signature.
#[derive(Debug, PartialEq, Eq)]
pub struct SignedCapability {
    pub cap: Capability,
    pub seal: Seal,
}

#[verifier::ext_equal]
pub struct SignedCapabilityView {
    pub cap: CapabilityView,
    pub seal: SealView,
}

impl View for SignedCapability {
    type V = SignedCapabilityView;

    open spec fn view(&self) -> SignedCapabilityView {
        SignedCapabilityView { cap: self.cap@, seal: self.seal@ }
    }
}

/// The links of a chain, from the root's grant to the last delegation.
pub open spec fn links(chain: Seq<SignedCapability>) -> Seq<SignedCapabilityView> {
    chain.map_values(|link: SignedCapability| link@)
}

impl Clone for Capability {
    fn clone(&self) -> (copy: Self)
        ensures
            copy@ == self@,
    {
        let copy = Capability {
            issuer: self.issuer,
            audience: self.audience,
            abilities: self.abilities.clone(),
            resource: self.resource.clone(),
            caveats: self.caveats.clone(),
            nonce: self.nonce,
            parent: self.parent,
        };
        assert(copy.abilities@ =~= self.abilities@);
        assert(copy.resource@ =~= self.resource@);
        copy
    }
}

impl Clone for Seal {
    fn clone(&self) -> (copy: Self)
        ensures
            copy@ == self@,
    {
        Seal { id: self.id, token: self.token.clone() }
    }
}

impl Clone for SignedCapability {
    fn clone(&self) -> (copy: Self)
        ensures
            copy@ == self@,
    {
        SignedCapability { cap: self.cap.clone(), seal: self.seal.clone() }
    }
}

/// A copy of a chain.
pub fn copy_chain(chain: &[SignedCapability]) -> (copy: Vec<SignedCapability>)
    ensures
        links(copy@) == links(chain@),
{
    let mut copy: Vec<SignedCapability> = Vec::new();
    let mut i: usize = 0;
    while i < chain.len()
        invariant
            i <= chain@.len(),
            links(copy@) =~= links(chain@).take(i as int),
        decreases chain@.len() - i,
    {
        let ghost before = copy@;
        copy.push(chain[i].clone());
        assert(links(copy@) =~= links(before).push(chain@[i as int]@));
        i += 1;
    }
    copy
}

/// Whether two ids are the same.
pub fn same_id(a: &[u8; 32], b: &[u8; 32]) -> (same: bool)
    ensures
        same == (a@ == b@),
{
    let mut i: usize = 0;
    while i < 32
        invariant
            i <= 32,
            forall|j: int| 0 <= j < i ==> a@[j] == b@[j],
        decreases 32 - i,
    {
        if a[i] != b[i] {
            return false;
        }
        i += 1;
    }
    assert(a@ =~= b@);
    true
}

} // verus!
