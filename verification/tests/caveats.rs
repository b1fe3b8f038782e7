use replicator::caveats::attenuate;
use replicator::caveats::Caveats;

#[test]
fn attenuate_never_outlives_parent() {
    let now = 1_000;
    // finite parent, long ttl → clamped to parent
    let p = Caveats { not_after: 1_500, ..Default::default() };
    assert_eq!(attenuate(&p, now, 10_000).not_after, 1_500);
    // finite parent, short ttl → child shorter
    assert_eq!(attenuate(&p, now, 100).not_after, 1_100);
    // infinite parent → child still finite
    let inf = Caveats { not_after: 0, ..Default::default() };
    assert_eq!(attenuate(&inf, now, 50).not_after, 1_050);
}

#[test]
fn attenuate_expiry_is_monotone_narrowing() {
    let now = 1_000u64;
    for parent_exp in [0u64, 1, 999, 1_000, 1_001, 5_000, u64::MAX] {
        for ttl in [0u64, 1, 500, 100_000, u64::MAX] {
            let p = Caveats { not_after: parent_exp, ..Default::default() };
            let child = attenuate(&p, now, ttl);
            // child is always finite
            assert_ne!(child.not_after, 0, "child must get a finite expiry");
            if parent_exp != 0 {
                assert!(
                    child.not_after <= parent_exp,
                    "child {} outlives parent {} (ttl={ttl})",
                    child.not_after,
                    parent_exp
                );
            }
            // child never exceeds now+ttl (saturating)
            assert!(child.not_after <= now.saturating_add(ttl));
        }
    }
}

#[test]
fn attenuate_ttl_overflow_saturates_not_panics() {
    // now+ttl overflows u64 → saturating_add prevents wrap; infinite parent takes it.
    let inf = Caveats { not_after: 0, ..Default::default() };
    let c = attenuate(&inf, u64::MAX, u64::MAX);
    assert_eq!(c.not_after, u64::MAX);
}

#[test]
fn attenuate_preserves_other_caveats() {
    // Only not_after changes; the rest of the parent's caveats are inherited verbatim.
    let p = Caveats { not_after: 5_000, ..Default::default() };
    let c = attenuate(&p, 1_000, 100);
    let mut expected = p.clone();
    expected.not_after = 1_100;
    assert_eq!(c, expected);
}

#[test]
fn attenuate_hands_on_what_it_does_not_read() {
    let p = Caveats { not_after: 5_000, others: vec![1, 2, 3] };
    let c = attenuate(&p, 1_000, 100);
    assert_eq!(c, Caveats { not_after: 1_100, others: vec![1, 2, 3] });
}

#[test]
fn lifetime_of_no_length_at_the_epoch_still_ends() {
    let p = Caveats { not_after: 5_000, ..Default::default() };
    assert_eq!(attenuate(&p, 0, 0).not_after, 1);
    assert_eq!(attenuate(&p, 0, 1).not_after, 1);
    assert_eq!(attenuate(&p, 1, 0).not_after, 1);
    let inf = Caveats { not_after: 0, ..Default::default() };
    assert_eq!(attenuate(&inf, 0, 0).not_after, 1);
    let first = Caveats { not_after: 1, ..Default::default() };
    assert_eq!(attenuate(&first, 0, 0).not_after, 1);
}

#[test]
fn shorter_lifetime_expires_strictly_earlier() {
    let p = Caveats { not_after: 2, ..Default::default() };
    assert_eq!(attenuate(&p, 0, 0).not_after, 1);
    let p = Caveats { not_after: 1_500, ..Default::default() };
    assert_eq!(attenuate(&p, 1_000, 499).not_after, 1_499);
}

#[test]
fn narrowing_twice_ends_with_the_shortest_lifetime() {
    let p = Caveats { not_after: 5_000, ..Default::default() };
    let child = attenuate(&p, 1_000, 300);
    let grandchild = attenuate(&child, 1_000, 900);
    assert_eq!(child.not_after, 1_300);
    assert_eq!(grandchild.not_after, 1_300);
}
