//! The abilities that a replica is granted.

use crate::laws::granting::law_granted_abilities;
use vstd::prelude::*;

verus! {

/// The abilities a replica needs to keep replicating: to receive files, and to start processes.
pub const REPLICATION_ABILITIES: [&'static str; 2] = ["sync", "spawn"];

/// The texts of a list of strings.
pub open spec fn texts(list: Seq<String>) -> Seq<Seq<char>> {
    list.map_values(|s: String| s@)
}

/// Whether an ability is one that a replica needs.
pub open spec fn is_replication_ability(a: Seq<char>) -> bool {
    a == "sync"@ || a == "spawn"@
}

/// Whether a child is granted an ability that its parent holds: one that a replica needs, and
/// `spawn` only if the child may replicate further.
pub open spec fn passes_on(a: Seq<char>, child_can_replicate: bool) -> bool {
    is_replication_ability(a) && (child_can_replicate || a != "spawn"@)
}

/// What a child is granted of the abilities that its parent holds, in the parent's order.
pub open spec fn onward(held: Seq<Seq<char>>, child_can_replicate: bool) -> Seq<Seq<char>> {
    held.filter(|a: Seq<char>| passes_on(a, child_can_replicate))
}

/// The abilities to grant a child: those of the parent that a replica needs, without `spawn`
/// unless the child may replicate further.
pub fn onward_abilities(parent_abilities: &[String], child_can_replicate: bool) -> (granted: Vec<
    String,
>)
    ensures
        texts(granted@) == onward(texts(parent_abilities@), child_can_replicate),
        forall|a: Seq<char>| #[trigger]
            texts(granted@).contains(a) <==> texts(parent_abilities@).contains(a) && (a == "sync"@
                || (a == "spawn"@ && child_can_replicate)),
{
    let sync = String::from_str(REPLICATION_ABILITIES[0]);
    let spawn = String::from_str(REPLICATION_ABILITIES[1]);
    let mut granted: Vec<String> = Vec::new();
    let ghost held = texts(parent_abilities@);
    let ghost keep = |a: Seq<char>| passes_on(a, child_can_replicate);
    let mut i: usize = 0;
    assert(texts(granted@) == held.take(0).filter(keep)) by {
        reveal(Seq::filter);
    }
    while i < parent_abilities.len()
        invariant
            i <= parent_abilities@.len(),
            held == texts(parent_abilities@),
            keep == (|a: Seq<char>| passes_on(a, child_can_replicate)),
            sync@ == "sync"@,
            spawn@ == "spawn"@,
            texts(granted@) == held.take(i as int).filter(keep),
        decreases parent_abilities@.len() - i,
    {
        let ability = &parent_abilities[i];
        let ghost before = granted@;
        if *ability == sync || (*ability == spawn && child_can_replicate) {
            granted.push(ability.clone());
            assert(texts(granted@) =~= texts(before).push(ability@));
        }
        assert(held.take(i + 1).drop_last() =~= held.take(i as int));
        proof {
            reveal(Seq::filter);
            reveal_strlit("sync");
            reveal_strlit("spawn");
            assert("sync"@.len() != "spawn"@.len());
        }
        i += 1;
    }
    assert(held.take(i as int) =~= held);
    assert forall|a: Seq<char>| #[trigger]
        texts(granted@).contains(a) <==> held.contains(a) && (a == "sync"@ || (a == "spawn"@
        && child_can_replicate)) by {
        law_granted_abilities(held, child_can_replicate, a);
    }
    granted
}

/// A child is granted exactly the abilities that its parent holds and that may be passed on: none
/// is new, and none that may pass is withheld.
pub proof fn law_grant_is_what_may_pass(
    held: Seq<Seq<char>>,
    child_can_replicate: bool,
    a: Seq<char>,
)
    ensures
        onward(held, child_can_replicate).contains(a) <==> held.contains(a) && passes_on(
            a,
            child_can_replicate,
        ),
    decreases held.len(),
{
    let keep = |x: Seq<char>| passes_on(x, child_can_replicate);
    reveal(Seq::filter);
    if held.len() > 0 {
        let rest = held.drop_last();
        let last = held.last();
        law_grant_is_what_may_pass(rest, child_can_replicate, a);
        assert(held =~= rest.push(last));
        lemma_push_contains(rest, last, a);
        lemma_push_contains(rest.filter(keep), last, a);
    }
}

proof fn lemma_push_contains(s: Seq<Seq<char>>, last: Seq<char>, a: Seq<char>)
    ensures
        s.push(last).contains(a) <==> s.contains(a) || last == a,
{
    if s.contains(a) {
        let i = s.index_of(a);
        assert(s.push(last)[i] == a);
    }
    if last == a {
        assert(s.push(last)[s.len() as int] == a);
    }
    if s.push(last).contains(a) && last != a {
        let i = s.push(last).index_of(a);
        assert(s[i] == a);
    }
}

/// Granting in two steps grants what one step would, with `spawn` only if both steps allow it. So
/// an ability that is dropped once never comes back, and repeating a step changes nothing.
pub proof fn law_grants_compose(held: Seq<Seq<char>>, first: bool, second: bool)
    ensures
        onward(onward(held, first), second) == onward(held, first && second),
    decreases held.len(),
{
    reveal(Seq::filter);
    let keep = |x: Seq<char>| passes_on(x, first);
    if held.len() > 0 {
        let rest = held.drop_last();
        law_grants_compose(rest, first, second);
        if keep(held.last()) {
            assert(rest.filter(keep).push(held.last()).drop_last() =~= rest.filter(keep));
        }
    }
}

/// A leaf never holds `spawn`.
pub proof fn law_leaf_never_holds_spawn(held: Seq<Seq<char>>)
    ensures
        !onward(held, false).contains("spawn"@),
{
    law_grant_is_what_may_pass(held, false, "spawn"@);
}

/// A parent without `spawn` confers none, and so has leaves only: whether the child is meant to
/// replicate makes no difference.
pub proof fn law_no_spawn_without_spawn(held: Seq<Seq<char>>)
    requires
        !held.contains("spawn"@),
    ensures
        !onward(held, true).contains("spawn"@),
        onward(held, true) == onward(held, false),
    decreases held.len(),
{
    law_grant_is_what_may_pass(held, true, "spawn"@);
    reveal(Seq::filter);
    if held.len() > 0 {
        let rest = held.drop_last();
        assert(!rest.contains("spawn"@)) by {
            if rest.contains("spawn"@) {
                let i = rest.index_of("spawn"@);
                assert(held[i] == "spawn"@);
            }
        }
        assert(held.last() != "spawn"@) by {
            assert(held[held.len() - 1] == held.last());
        }
        law_no_spawn_without_spawn(rest);
    }
}

} // verus!
