use std::collections::hash_map::DefaultHasher;
use std::hash::Hash;
use std::hash::Hasher;

use replicator::capability::Capability;
use replicator::capability::NodeId;
use replicator::capability::Seal;
use replicator::capability::SignedCapability;
use replicator::caveats::Caveats;
use replicator::delegation::can_replicate;
use replicator::delegation::extend_chain;
use replicator::delegation::DelegateError;

/// A node that can sign.
struct Identity {
    id: NodeId,
}

impl Identity {
    fn node_id(&self) -> NodeId {
        self.id
    }
}

fn id(tag: &str) -> Identity {
    let mut id = [0u8; 32];
    id[..tag.len()].copy_from_slice(tag.as_bytes());
    Identity { id }
}

/// Seals a capability under a name that depends on all of its contents.
fn sign(cap: &Capability) -> Seal {
    let mut hasher = DefaultHasher::new();
    format!("{cap:?}").hash(&mut hasher);
    let mut id = [7u8; 32];
    id[..8].copy_from_slice(&hasher.finish().to_be_bytes());
    Seal { id, token: format!("{cap:?}") }
}

/// Root cap: org root R -> A, with the given abilities and expiry.
fn root_cap(root: &Identity, a: NodeId, abilities: &[&str], not_after: u64) -> SignedCapability {
    let cap = Capability {
        issuer: root.node_id(),
        audience: a,
        abilities: abilities.iter().map(|s| s.to_string()).collect(),
        resource: b"any".to_vec(),
        caveats: Caveats { not_after, ..Default::default() },
        nonce: 1,
        parent: None,
    };
    let seal = sign(&cap);
    SignedCapability { cap, seal }
}

fn delegate(
    parent_chain: &[SignedCapability],
    holder: &Identity,
    child: NodeId,
    child_can_replicate: bool,
    now: u64,
    ttl: u64,
    nonce: u64,
) -> Result<Vec<SignedCapability>, DelegateError> {
    let cap = replicator::delegation::delegate(
        parent_chain,
        holder.node_id(),
        child,
        child_can_replicate,
        now,
        ttl,
        nonce,
    )?;
    let seal = sign(&cap);
    Ok(extend_chain(parent_chain, cap, seal))
}

/// What a host asks of a chain before it does `ability` for `bearer`: an accepted root at its
/// start, the bearer at its end, and every link sealed, not revoked, not expired, holding the
/// ability, and issued by the holder of the link before with no more than that link grants.
fn authorize(
    roots: &[NodeId],
    now: u64,
    bearer: &NodeId,
    ability: &str,
    chain: &[SignedCapability],
    revoked: &dyn Fn(&NodeId, u64) -> bool,
) -> Result<(), String> {
    let first = chain.first().ok_or("empty chain")?;
    if !roots.contains(&first.cap.issuer) {
        return Err("not rooted here".to_string());
    }
    if chain.last().unwrap().cap.audience != *bearer {
        return Err("not the audience".to_string());
    }
    for link in chain {
        if link.seal != sign(&link.cap) {
            return Err("bad seal".to_string());
        }
        if revoked(&link.cap.issuer, link.cap.nonce) {
            return Err("revoked".to_string());
        }
        if link.cap.caveats.not_after != 0 && now > link.cap.caveats.not_after {
            return Err("expired".to_string());
        }
        if !link.cap.abilities.iter().any(|a| a == ability) {
            return Err("ability not granted".to_string());
        }
    }
    for pair in chain.windows(2) {
        let (parent, child) = (&pair[0], &pair[1]);
        let expires_in_time = parent.cap.caveats.not_after == 0
            || (child.cap.caveats.not_after != 0
                && child.cap.caveats.not_after <= parent.cap.caveats.not_after);
        if child.cap.issuer != parent.cap.audience
            || child.cap.parent != Some(parent.seal.id)
            || child.cap.resource != parent.cap.resource
            || child.cap.caveats.others != parent.cap.caveats.others
            || !child.cap.abilities.iter().all(|a| parent.cap.abilities.contains(a))
            || !expires_in_time
        {
            return Err("broader than its parent".to_string());
        }
    }
    Ok(())
}

fn never() -> impl Fn(&NodeId, u64) -> bool {
    |_, _| false
}

#[test]
fn delegate_produces_a_chain_authorize_accepts() {
    let now = 10_000;
    let root = id("dp-root");
    let a = id("dp-a"); // seed, holds [R->A]
    let b = id("dp-b"); // child
    let chain = vec![root_cap(&root, a.node_id(), &["sync", "spawn"], now + 1000)];
    let onward = delegate(&chain, &a, b.node_id(), true, now, 100, 7).unwrap();
    assert_eq!(onward.len(), 2);
    // B is authorized for both abilities on a host that lists R as a root
    assert!(authorize(&[root.node_id()], now, &b.node_id(), "spawn", &onward, &never()).is_ok());
    assert!(authorize(&[root.node_id()], now, &b.node_id(), "sync", &onward, &never()).is_ok());
}

#[test]
fn leaf_delegation_cannot_spawn_but_can_sync() {
    let now = 10_000;
    let root = id("leaf-root");
    let a = id("leaf-a");
    let b = id("leaf-b");
    let chain = vec![root_cap(&root, a.node_id(), &["sync", "spawn"], 0)];
    // child_can_replicate = false → leaf
    let onward = delegate(&chain, &a, b.node_id(), false, now, 100, 7).unwrap();
    assert!(authorize(&[root.node_id()], now, &b.node_id(), "sync", &onward, &never()).is_ok());
    assert!(authorize(&[root.node_id()], now, &b.node_id(), "spawn", &onward, &never()).is_err());
}

#[test]
fn delegate_refuses_when_signer_is_not_the_holder() {
    let now = 10_000;
    let root = id("nh-root");
    let a = id("nh-a");
    let stranger = id("nh-stranger");
    let b = id("nh-b");
    let chain = vec![root_cap(&root, a.node_id(), &["sync", "spawn"], 0)];
    // stranger is not the audience of [R->A] → cannot delegate
    assert!(delegate(&chain, &stranger, b.node_id(), true, now, 100, 7).is_err());
    assert_eq!(
        delegate(&chain, &stranger, b.node_id(), true, now, 100, 7),
        Err(DelegateError::NotTheHolder)
    );
}

#[test]
fn delegated_expiry_strictly_shrinks_down_the_tree() {
    // Build a 3-level tree R->A->B->C and assert expiry decreases each hop and authorize holds.
    let now = 10_000;
    let root = id("tree-root");
    let a = id("tree-a");
    let b = id("tree-b");
    let c = id("tree-c");
    let l0 = vec![root_cap(&root, a.node_id(), &["sync", "spawn"], now + 10_000)];
    let l1 = delegate(&l0, &a, b.node_id(), true, now, 5_000, 11).unwrap();
    let l2 = delegate(&l1, &b, c.node_id(), false, now, 1_000, 12).unwrap(); // C is a leaf

    let e0 = l0[0].cap.caveats.not_after;
    let e1 = l1.last().unwrap().cap.caveats.not_after;
    let e2 = l2.last().unwrap().cap.caveats.not_after;
    assert!(e2 < e1 && e1 < e0, "expiry must shrink: {e2} < {e1} < {e0}");

    // Each delegatee is authorized on a host rooted at R; the leaf C cannot spawn.
    assert!(authorize(&[root.node_id()], now, &b.node_id(), "spawn", &l1, &never()).is_ok());
    assert!(authorize(&[root.node_id()], now, &c.node_id(), "sync", &l2, &never()).is_ok());
    assert!(authorize(&[root.node_id()], now, &c.node_id(), "spawn", &l2, &never()).is_err());
}

#[test]
fn a_third_party_cannot_use_a_delegated_chain() {
    // The delegated chain names B as audience; an impostor X presenting it is rejected.
    let now = 10_000;
    let root = id("imp-root");
    let a = id("imp-a");
    let b = id("imp-b");
    let x = id("imp-x");
    let chain = vec![root_cap(&root, a.node_id(), &["sync", "spawn"], 0)];
    let onward = delegate(&chain, &a, b.node_id(), true, now, 100, 7).unwrap();
    assert!(authorize(&[root.node_id()], now, &x.node_id(), "spawn", &onward, &never()).is_err());
}

#[test]
fn delegate_empty_chain_is_rejected() {
    let a = id("ec-a");
    let b = id("ec-b");
    assert!(delegate(&[], &a, b.node_id(), true, 10_000, 100, 7).is_err());
    assert_eq!(
        delegate(&[], &a, b.node_id(), true, 10_000, 100, 7),
        Err(DelegateError::EmptyChain)
    );
}

#[test]
fn delegate_with_no_replicable_abilities_is_rejected() {
    // Parent holds only non-replicable abilities → nothing to delegate.
    let now = 10_000;
    let root = id("nr-root");
    let a = id("nr-a");
    let b = id("nr-b");
    let chain = vec![root_cap(&root, a.node_id(), &["tunnel", "exec"], 0)];
    assert!(delegate(&chain, &a, b.node_id(), true, now, 100, 7).is_err());
    assert_eq!(
        delegate(&chain, &a, b.node_id(), true, now, 100, 7),
        Err(DelegateError::NothingToDelegate)
    );
}

#[test]
fn delegate_sync_only_parent_makes_sync_leaf_even_when_replicating() {
    // A parent that only holds `sync` cannot confer `spawn`, so even a "replicating"
    // child gets sync only — it is structurally a leaf.
    let now = 10_000;
    let root = id("so-root");
    let a = id("so-a");
    let b = id("so-b");
    let chain = vec![root_cap(&root, a.node_id(), &["sync"], 0)];
    let onward = delegate(&chain, &a, b.node_id(), true, now, 100, 7).unwrap();
    let leaf = onward.last().unwrap();
    assert_eq!(leaf.cap.abilities, vec!["sync".to_string()]);
    assert!(authorize(&[root.node_id()], now, &b.node_id(), "sync", &onward, &never()).is_ok());
    assert!(authorize(&[root.node_id()], now, &b.node_id(), "spawn", &onward, &never()).is_err());
}

#[test]
fn delegate_chain_grows_by_exactly_one_each_hop() {
    let now = 10_000;
    let root = id("len-root");
    let a = id("len-a");
    let b = id("len-b");
    let c = id("len-c");
    let l0 = vec![root_cap(&root, a.node_id(), &["sync", "spawn"], 0)];
    let l1 = delegate(&l0, &a, b.node_id(), true, now, 1000, 1).unwrap();
    let l2 = delegate(&l1, &b, c.node_id(), true, now, 1000, 2).unwrap();
    assert_eq!(l0.len(), 1);
    assert_eq!(l1.len(), 2);
    assert_eq!(l2.len(), 3);
    // parent prefix is preserved unchanged (compared by stable cap id)
    let ids = |chain: &[SignedCapability]| chain.iter().map(|c| c.seal.id).collect::<Vec<_>>();
    assert_eq!(ids(&l2)[..2], ids(&l1)[..]);
    assert_eq!(ids(&l1)[..1], ids(&l0)[..]);
    // and so is all of it
    assert_eq!(l2[..2], l1[..]);
    assert_eq!(l1[..1], l0[..]);
}

#[test]
fn delegate_each_child_cap_links_to_its_parent() {
    let now = 10_000;
    let root = id("link-root");
    let a = id("link-a");
    let b = id("link-b");
    let l0 = vec![root_cap(&root, a.node_id(), &["sync", "spawn"], 0)];
    let l1 = delegate(&l0, &a, b.node_id(), true, now, 1000, 1).unwrap();
    let parent = &l0[0];
    let child = l1.last().unwrap();
    assert_eq!(child.cap.parent, Some(parent.seal.id), "child must reference parent id");
    assert_eq!(child.cap.audience, b.node_id());
}

#[test]
fn authorize_rejects_expired_delegated_cap() {
    // A cap valid at issue time must be refused once the clock passes its expiry.
    let now = 10_000;
    let root = id("exp-root");
    let a = id("exp-a");
    let b = id("exp-b");
    let chain = vec![root_cap(&root, a.node_id(), &["sync", "spawn"], now + 10_000)];
    let onward = delegate(&chain, &a, b.node_id(), true, now, 100, 7).unwrap();
    // valid now
    assert!(authorize(&[root.node_id()], now, &b.node_id(), "sync", &onward, &never()).is_ok());
    // expired after now+100
    let later = now + 101;
    assert!(authorize(&[root.node_id()], later, &b.node_id(), "sync", &onward, &never()).is_err());
}

#[test]
fn authorize_rejects_unrooted_chain() {
    // Host that does NOT list R as a root rejects the chain even if every link is valid.
    let now = 10_000;
    let root = id("ur-root");
    let other_root = id("ur-other");
    let a = id("ur-a");
    let b = id("ur-b");
    let chain = vec![root_cap(&root, a.node_id(), &["sync", "spawn"], 0)];
    let onward = delegate(&chain, &a, b.node_id(), true, now, 100, 7).unwrap();
    // host trusts only `other_root`
    assert!(
        authorize(&[other_root.node_id()], now, &b.node_id(), "sync", &onward, &never()).is_err()
    );
}

#[test]
fn authorize_honors_revocation_predicate() {
    // Revocation is keyed by (issuer, nonce). The child link is issued by `a` with nonce 7;
    // revoking that (issuer, nonce) pair must make authorize fail.
    let now = 10_000;
    let root = id("rv-root");
    let a = id("rv-a");
    let b = id("rv-b");
    let chain = vec![root_cap(&root, a.node_id(), &["sync", "spawn"], 0)];
    let onward = delegate(&chain, &a, b.node_id(), true, now, 100, 7).unwrap();
    let revoked_issuer = a.node_id();
    let revoked = move |issuer: &NodeId, nonce: u64| *issuer == revoked_issuer && nonce == 7;
    assert!(authorize(&[root.node_id()], now, &b.node_id(), "sync", &onward, &revoked).is_err());
    // with no revocation it remains valid
    assert!(authorize(&[root.node_id()], now, &b.node_id(), "sync", &onward, &never()).is_ok());
}

#[test]
fn a_widened_link_is_refused() {
    // A leaf that signs itself `spawn` gains nothing by it.
    let now = 10_000;
    let root = id("w-root");
    let a = id("w-a");
    let b = id("w-b");
    let chain = vec![root_cap(&root, a.node_id(), &["sync", "spawn"], 0)];
    let leaf = delegate(&chain, &a, b.node_id(), false, now, 100, 7).unwrap();
    let mut cap = leaf.last().unwrap().cap.clone();
    cap.issuer = b.node_id();
    cap.parent = Some(leaf.last().unwrap().seal.id);
    cap.abilities.push("spawn".to_string());
    let seal = sign(&cap);
    let widened = extend_chain(&leaf, cap, seal);
    for ability in ["sync", "spawn"] {
        assert!(
            authorize(&[root.node_id()], now, &b.node_id(), ability, &widened, &never()).is_err()
        );
    }
}

#[test]
fn nothing_below_a_leaf_spawns() {
    let now = 10_000;
    let root = id("bl-root");
    let a = id("bl-a");
    let b = id("bl-b");
    let c = id("bl-c");
    let chain = vec![root_cap(&root, a.node_id(), &["sync", "spawn"], 0)];
    let leaf = delegate(&chain, &a, b.node_id(), false, now, 100, 7).unwrap();
    let below = delegate(&leaf, &b, c.node_id(), true, now, 100, 8).unwrap();
    assert_eq!(below.last().unwrap().cap.abilities, vec!["sync".to_string()]);
}

#[test]
fn delegated_capability_in_full() {
    let root = id("f-root");
    let a = id("f-a");
    let b = id("f-b");
    let mut held = root_cap(&root, a.node_id(), &["tunnel", "spawn", "sync"], 12_000);
    held.cap.caveats.others = vec![9, 8];
    let cap = replicator::delegation::delegate(
        std::slice::from_ref(&held),
        a.node_id(),
        b.node_id(),
        true,
        10_000,
        100,
        7,
    )
    .unwrap();
    let expected = Capability {
        issuer: a.node_id(),
        audience: b.node_id(),
        abilities: vec!["spawn".to_string(), "sync".to_string()],
        resource: b"any".to_vec(),
        caveats: Caveats { not_after: 10_100, others: vec![9, 8] },
        nonce: 7,
        parent: Some(held.seal.id),
    };
    assert_eq!(cap, expected);
}

#[test]
fn delegation_at_the_epoch_still_expires_within_the_parent() {
    let root = id("z-root");
    let a = id("z-a");
    let b = id("z-b");
    for held in [0, 1, 5_000] {
        let chain = vec![root_cap(&root, a.node_id(), &["sync"], held)];
        let onward = delegate(&chain, &a, b.node_id(), true, 0, 0, 7).unwrap();
        assert_eq!(onward[1].cap.caveats.not_after, 1);
        let at_the_end = authorize(&[root.node_id()], 1, &b.node_id(), "sync", &onward, &never());
        assert!(at_the_end.is_ok());
        let after = authorize(&[root.node_id()], 2, &b.node_id(), "sync", &onward, &never());
        assert!(after.is_err());
    }
}

#[test]
fn delegation_equals_its_parent_only_where_the_expiry_is_clamped() {
    let root = id("sw-root");
    let a = id("sw-a");
    let b = id("sw-b");
    let chain = vec![root_cap(&root, a.node_id(), &["sync", "spawn"], 12_000)];
    let granted = |child_can_replicate: bool, ttl: u64| {
        let onward = delegate(&chain, &a, b.node_id(), child_can_replicate, 10_000, ttl, 7).unwrap();
        (onward[1].cap.abilities.len(), onward[1].cap.caveats.not_after)
    };
    assert_eq!(granted(true, 1_999), (2, 11_999));
    assert_eq!(granted(false, 5_000), (1, 12_000));
    assert_eq!(granted(true, 5_000), (2, 12_000));
}

#[test]
fn delegation_errors_in_words() {
    assert_eq!(DelegateError::EmptyChain.message(), "empty capability chain");
    assert_eq!(
        DelegateError::NotTheHolder.message(),
        "cannot delegate: the signing identity is not the audience of the held capability"
    );
    assert_eq!(
        DelegateError::NothingToDelegate.message(),
        "nothing to delegate: parent holds none of [\"sync\", \"spawn\"]"
    );
}

#[test]
fn only_inner_levels_replicate() {
    assert!(!can_replicate(0));
    assert!(!can_replicate(1));
    assert!(can_replicate(2));
}
