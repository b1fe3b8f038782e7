use replicator::abilities::onward_abilities;
use replicator::abilities::REPLICATION_ABILITIES;

fn strings(list: &[&str]) -> Vec<String> {
    list.iter().map(|s| s.to_string()).collect()
}

#[test]
fn onward_abilities_is_always_a_subset_and_drops_spawn_at_leaf() {
    let parent = vec!["sync".to_string(), "spawn".to_string(), "tunnel".to_string()];
    // non-leaf keeps sync+spawn, drops the non-replication ability (tunnel)
    let mid = onward_abilities(&parent, true);
    assert!(mid.contains(&"sync".to_string()) && mid.contains(&"spawn".to_string()));
    assert!(!mid.contains(&"tunnel".to_string()));
    // leaf loses spawn
    let leaf = onward_abilities(&parent, false);
    assert!(leaf.contains(&"sync".to_string()));
    assert!(!leaf.contains(&"spawn".to_string()));
    // a parent without spawn can never confer spawn (no escalation)
    let weak = onward_abilities(&["sync".to_string()], true);
    assert!(!weak.contains(&"spawn".to_string()));
}

#[test]
fn onward_abilities_never_introduces_new_powers() {
    let cases: &[&[&str]] = &[
        &[],
        &["sync"],
        &["spawn"],
        &["sync", "spawn"],
        &["tunnel", "exec"],                  // none replicable
        &["sync", "spawn", "tunnel", "exec"], // mixed
        &["spawn", "spawn"],                  // duplicate parent ability
    ];
    for parent in cases {
        let parent: Vec<String> = strings(parent);
        for replicate in [true, false] {
            let child = onward_abilities(&parent, replicate);
            for ability in &child {
                assert!(
                    parent.contains(ability),
                    "introduced {ability:?} not held by parent {parent:?}"
                );
                assert!(
                    REPLICATION_ABILITIES.contains(&ability.as_str()),
                    "non-replication ability {ability:?} leaked through"
                );
                if !replicate {
                    assert_ne!(ability, "spawn", "leaf must never carry spawn");
                }
            }
        }
    }
}

#[test]
fn onward_abilities_empty_parent_yields_nothing() {
    assert!(onward_abilities(&[], true).is_empty());
    assert!(onward_abilities(&[], false).is_empty());
}

#[test]
fn onward_abilities_only_non_replicable_yields_nothing() {
    let parent = vec!["tunnel".to_string(), "exec".to_string()];
    assert!(onward_abilities(&parent, true).is_empty());
    assert!(onward_abilities(&parent, false).is_empty());
}

#[test]
fn onward_abilities_keeps_order_and_repetition() {
    let parent = strings(&["spawn", "tunnel", "sync", "spawn"]);
    assert_eq!(onward_abilities(&parent, true), strings(&["spawn", "sync", "spawn"]));
    assert_eq!(onward_abilities(&parent, false), strings(&["sync"]));
}

#[test]
fn granting_twice_is_granting_once() {
    let parent = strings(&["spawn", "sync"]);
    for first in [true, false] {
        for second in [true, false] {
            let twice = onward_abilities(&onward_abilities(&parent, first), second);
            assert_eq!(twice, onward_abilities(&parent, first && second));
        }
    }
}
