//! Taking bodies out of a collection in one pass.
//!
//! Every removal in the game is a sweep: a rule says which bodies stay, and
//! those stay in their order.

use crate::entity::{Entity, Field};
use vstd::prelude::*;

verus! {

/// A rule that says which bodies stay when a collection is swept.
#[derive(Clone, Copy, Debug, PartialEq, Eq)]
pub enum Keep {
    /// Enemies that have not fallen out of the field.
    EnemiesOnField(Field),
    /// Projectiles that have not flown out of the field.
    ProjectilesOnField,
    /// Bodies that are not marked for removal.
    Unmarked,
}

impl Keep {
    /// Whether `e` stays under this rule.
    pub open spec fn admits(self, e: Entity) -> bool {
        match self {
            Keep::EnemiesOnField(field) => !e.fell_out(field),
            Keep::ProjectilesOnField => !e.flew_out(),
            Keep::Unmarked => !e.marked_for_removal,
        }
    }

    /// The rule as a predicate on bodies.
    pub open spec fn pred(self) -> spec_fn(Entity) -> bool {
        |e: Entity| self.admits(e)
    }

    /// Whether `e` stays under this rule.
    pub fn test(&self, e: &Entity) -> (stays: bool)
        ensures
            stays == self.admits(*e),
    {
        match self {
            Keep::EnemiesOnField(field) => !e.is_below(field),
            Keep::ProjectilesOnField => !e.is_above(),
            Keep::Unmarked => !e.marked_for_removal,
        }
    }
}

/// Removes from `bodies` those that `rule` does not admit.  The others stay
/// in their order.
pub fn sweep(bodies: &mut Vec<Entity>, rule: &Keep)
    ensures
        final(bodies)@ == old(bodies)@.filter(rule.pred()),
{
    let ghost before = bodies@;
    let mut kept: Vec<Entity> = Vec::new();
    let mut i: usize = 0;
    proof {
        reveal(Seq::filter);
    }
    while i < bodies.len()
        invariant
            bodies@ == before,
            0 <= i <= before.len(),
            kept@ == before.take(i as int).filter(rule.pred()),
        decreases before.len() - i,
    {
        let e: Entity = bodies[i];
        proof {
            assert(before.take(i + 1) =~= before.take(i as int).push(e));
            before.take(i as int).lemma_filter_push(e, rule.pred());
        }
        if rule.test(&e) {
            kept.push(e);
        }
        i = i + 1;
    }
    assert(before.take(i as int) =~= before);
    *bodies = kept;
}

/// A sweep keeps only bodies that its rule admits, keeps nothing that was
/// not there, and has nothing left to do when run again.
pub proof fn lemma_sweep_settles(bodies: Seq<Entity>, rule: Keep)
    ensures
        forall|i: int|
            0 <= i < bodies.filter(rule.pred()).len() ==> rule.admits(
                #[trigger] bodies.filter(rule.pred())[i],
            ),
        forall|i: int|
            0 <= i < bodies.filter(rule.pred()).len() ==> bodies.contains(
                #[trigger] bodies.filter(rule.pred())[i],
            ),
        bodies.filter(rule.pred()).filter(rule.pred()) == bodies.filter(rule.pred()),
{
    let kept = bodies.filter(rule.pred());
    assert forall|i: int| 0 <= i < kept.len() implies rule.admits(#[trigger] kept[i])
        && bodies.contains(kept[i]) by {
        bodies.lemma_filter_pred(rule.pred(), i);
        bodies.lemma_filter_contains_rev(rule.pred(), kept[i]);
    }
    lemma_sweep_of_admitted(kept, rule);
}

/// A sweep changes nothing where the rule admits every body.
pub proof fn lemma_sweep_of_admitted(bodies: Seq<Entity>, rule: Keep)
    requires
        forall|i: int| 0 <= i < bodies.len() ==> rule.admits(#[trigger] bodies[i]),
    ensures
        bodies.filter(rule.pred()) == bodies,
    decreases bodies.len(),
{
    reveal(Seq::filter);
    if bodies.len() > 0 {
        lemma_sweep_of_admitted(bodies.drop_last(), rule);
    }
}

} // verus!
