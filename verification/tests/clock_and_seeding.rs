use std::time::SystemTime;
use std::time::UNIX_EPOCH;

use replicator::clock::now;
use replicator::clock::unix_seconds;
use replicator::seeding::count_seeded;
use replicator::seeding::nonce_for;
use replicator::seeding::seed_result;

#[test]
fn now_is_the_time_since_the_epoch() {
    let before = SystemTime::now().duration_since(UNIX_EPOCH).unwrap().as_secs();
    let read = now();
    let after = SystemTime::now().duration_since(UNIX_EPOCH).unwrap().as_secs();
    assert!(before <= read && read <= after);
}

#[test]
fn clock_before_the_epoch_reads_zero() {
    assert_eq!(unix_seconds(None), 0);
    assert_eq!(unix_seconds(Some(1_700_000_000)), 1_700_000_000);
}

#[test]
fn nonces_count_on_from_the_start() {
    assert_eq!(nonce_for(1_000, 0), 1_001);
    assert_eq!(nonce_for(1_000, 4), 1_005);
    assert_eq!(nonce_for(u64::MAX - 1, 0), u64::MAX);
}

#[test]
fn every_target_has_to_be_seeded() {
    assert_eq!(count_seeded(&[]), 0);
    assert_eq!(count_seeded(&[true, false, true]), 2);
    assert_eq!(seed_result(0, 0), Ok(()));
    assert_eq!(seed_result(3, 3), Ok(()));
    assert_eq!(seed_result(2, 3), Err(1));
}
