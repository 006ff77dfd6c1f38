//! One round of collision detection between projectiles and enemies.
//!
//! The round is stated as a model on sequences, [`resolved`], and the laws
//! below say what the model amounts to: it only sets marks, it pairs each
//! projectile with at most one enemy and each enemy with at most one
//! projectile, it leaves no pair that could still hit, and its hits add up to
//! the worth of the enemies it has marked.

use crate::entity::Entity;
use crate::score::total;
use crate::units::rounded_units;
use vstd::prelude::*;

verus! {

/// A projectile strikes an enemy when neither is marked for removal and the
/// two collide.
pub open spec fn strikes(projectile: Entity, enemy: Entity) -> bool {
    &&& !projectile.marked_for_removal
    &&& !enemy.marked_for_removal
    &&& projectile.collides(enemy)
}

/// The index of the first enemy at or after `from` that the projectile
/// strikes, or the number of enemies if it strikes none of them.
pub open spec fn first_struck(projectile: Entity, enemies: Seq<Entity>, from: int) -> int
    decreases enemies.len() - from,
{
    if from < 0 || from >= enemies.len() {
        enemies.len() as int
    } else if strikes(projectile, enemies[from]) {
        from
    } else {
        first_struck(projectile, enemies, from + 1)
    }
}

/// What [`first_struck`] finds is the least index from `from` on at which
/// the projectile strikes.
pub proof fn lemma_first_struck_is_least(projectile: Entity, enemies: Seq<Entity>, from: int)
    requires
        0 <= from <= enemies.len(),
    ensures
        from <= first_struck(projectile, enemies, from) <= enemies.len(),
        first_struck(projectile, enemies, from) < enemies.len() ==> strikes(
            projectile,
            enemies[first_struck(projectile, enemies, from)],
        ),
        forall|j: int|
            from <= j < first_struck(projectile, enemies, from) ==> !strikes(
                projectile,
                #[trigger] enemies[j],
            ),
    decreases enemies.len() - from,
{
    if from < enemies.len() && !strikes(projectile, enemies[from]) {
        lemma_first_struck_is_least(projectile, enemies, from + 1);
    }
}

/// Both collections with the marks of one round of collision detection, and
/// the points of each hit in the order in which the hits were found.
pub struct Resolution {
    pub projectiles: Seq<Entity>,
    pub enemies: Seq<Entity>,
    pub hits: Seq<u32>,
}

/// The state of a round of collision detection once the first `n`
/// projectiles have had their turn.
///
/// Projectiles take their turn in spawn order.  Each strikes the first enemy
/// it can; both are then marked and the enemy's size, in whole screen units,
/// is the hit.  So no body is hit twice in a round, and a marked body hits
/// nothing.
pub open spec fn resolved(projectiles: Seq<Entity>, enemies: Seq<Entity>, n: int) -> Resolution
    decreases n,
{
    if n <= 0 {
        Resolution { projectiles, enemies, hits: Seq::empty() }
    } else {
        let before = resolved(projectiles, enemies, n - 1);
        let shooter = projectiles[n - 1];
        let k = first_struck(shooter, before.enemies, 0);
        if k < before.enemies.len() {
            Resolution {
                projectiles: before.projectiles.update(n - 1, shooter.marked()),
                enemies: before.enemies.update(k, before.enemies[k].marked()),
                hits: before.hits.push(rounded_units(before.enemies[k].size) as u32),
            }
        } else {
            before
        }
    }
}

/// Whether `after` is `before` with at most the removal mark added.
pub open spec fn same_but_mark(before: Entity, after: Entity) -> bool {
    after == before || after == before.marked()
}

/// A round of collision detection moves nothing, adds nothing and removes
/// nothing: the most it does to a body is to mark it.  Projectiles whose turn
/// has not come are untouched.
pub proof fn lemma_resolution_only_marks(projectiles: Seq<Entity>, enemies: Seq<Entity>, n: int)
    requires
        0 <= n <= projectiles.len(),
    ensures
        resolved(projectiles, enemies, n).projectiles.len() == projectiles.len(),
        resolved(projectiles, enemies, n).enemies.len() == enemies.len(),
        forall|i: int|
            0 <= i < projectiles.len() ==> same_but_mark(
                projectiles[i],
                #[trigger] resolved(projectiles, enemies, n).projectiles[i],
            ),
        forall|i: int|
            n <= i < projectiles.len() ==> #[trigger] resolved(
                projectiles,
                enemies,
                n,
            ).projectiles[i] == projectiles[i],
        forall|j: int|
            0 <= j < enemies.len() ==> same_but_mark(
                enemies[j],
                #[trigger] resolved(projectiles, enemies, n).enemies[j],
            ),
    decreases n,
{
    if n > 0 {
        lemma_resolution_only_marks(projectiles, enemies, n - 1);
        let before = resolved(projectiles, enemies, n - 1);
        lemma_first_struck_is_least(projectiles[n - 1], before.enemies, 0);
    }
}

/// Once the first `n` projectiles have had their turn, none of them strikes
/// any enemy: every pair that collides has lost at least one body.
pub proof fn lemma_resolution_leaves_no_strike(
    projectiles: Seq<Entity>,
    enemies: Seq<Entity>,
    n: int,
)
    requires
        0 <= n <= projectiles.len(),
    ensures
        forall|i: int, j: int|
            0 <= i < n && 0 <= j < enemies.len() ==> !strikes(
                #[trigger] resolved(projectiles, enemies, n).projectiles[i],
                #[trigger] resolved(projectiles, enemies, n).enemies[j],
            ),
    decreases n,
{
    if n > 0 {
        lemma_resolution_leaves_no_strike(projectiles, enemies, n - 1);
        lemma_resolution_only_marks(projectiles, enemies, n - 1);
        let before = resolved(projectiles, enemies, n - 1);
        lemma_first_struck_is_least(projectiles[n - 1], before.enemies, 0);
    }
}

/// The enemy that the projectile at `i` hits in a round: the first it
/// strikes among the enemies as the projectiles before it left them.  The
/// number of enemies stands for none.
pub open spec fn hit_by(projectiles: Seq<Entity>, enemies: Seq<Entity>, i: int) -> int {
    first_struck(projectiles[i], resolved(projectiles, enemies, i).enemies, 0)
}

/// A mark that a round has set stays set for the rest of the round.
pub proof fn lemma_resolution_marks_stay(
    projectiles: Seq<Entity>,
    enemies: Seq<Entity>,
    m: int,
    n: int,
    k: int,
)
    requires
        0 <= m <= n <= projectiles.len(),
        0 <= k < enemies.len(),
        resolved(projectiles, enemies, m).enemies[k].marked_for_removal,
    ensures
        resolved(projectiles, enemies, n).enemies[k].marked_for_removal,
    decreases n - m,
{
    if m < n {
        lemma_resolution_only_marks(projectiles, enemies, m);
        let before = resolved(projectiles, enemies, m);
        lemma_first_struck_is_least(projectiles[m], before.enemies, 0);
        lemma_resolution_marks_stay(projectiles, enemies, m + 1, n, k);
    }
}

/// No enemy is hit twice in a round: two projectiles that both hit have hit
/// different enemies.
pub proof fn lemma_no_enemy_is_hit_twice(
    projectiles: Seq<Entity>,
    enemies: Seq<Entity>,
    i: int,
    j: int,
)
    requires
        0 <= i < j < projectiles.len(),
        hit_by(projectiles, enemies, i) < enemies.len(),
        hit_by(projectiles, enemies, j) < enemies.len(),
    ensures
        hit_by(projectiles, enemies, i) != hit_by(projectiles, enemies, j),
{
    let k = hit_by(projectiles, enemies, i);
    lemma_resolution_only_marks(projectiles, enemies, i);
    lemma_resolution_only_marks(projectiles, enemies, j);
    lemma_first_struck_is_least(projectiles[i], resolved(projectiles, enemies, i).enemies, 0);
    lemma_first_struck_is_least(projectiles[j], resolved(projectiles, enemies, j).enemies, 0);
    lemma_resolution_marks_stay(projectiles, enemies, i + 1, j, k);
}

/// The marks after a round tell who was hit.  A projectile is marked if it
/// was marked before or has hit an enemy.  An enemy is marked if it was
/// marked before or some projectile has hit it.  A projectile that has hit
/// an enemy collides with it, and neither was marked before the round.
pub proof fn lemma_marks_tell_hits(projectiles: Seq<Entity>, enemies: Seq<Entity>, n: int)
    requires
        0 <= n <= projectiles.len(),
    ensures
        forall|i: int|
            0 <= i < n ==> (#[trigger] resolved(
                projectiles,
                enemies,
                n,
            ).projectiles[i]).marked_for_removal == (projectiles[i].marked_for_removal || hit_by(
                projectiles,
                enemies,
                i,
            ) < enemies.len()),
        forall|k: int|
            0 <= k < enemies.len() ==> (#[trigger] resolved(
                projectiles,
                enemies,
                n,
            ).enemies[k]).marked_for_removal == (enemies[k].marked_for_removal || exists|i: int|
                0 <= i < n && #[trigger] hit_by(projectiles, enemies, i) == k),
        forall|i: int|
            0 <= i < n && #[trigger] hit_by(projectiles, enemies, i) < enemies.len() ==> (0
                <= hit_by(projectiles, enemies, i) && !projectiles[i].marked_for_removal
                && !enemies[hit_by(projectiles, enemies, i)].marked_for_removal
                && projectiles[i].collides(enemies[hit_by(projectiles, enemies, i)])),
    decreases n,
{
    if n > 0 {
        lemma_marks_tell_hits(projectiles, enemies, n - 1);
        lemma_resolution_only_marks(projectiles, enemies, n - 1);
        let before = resolved(projectiles, enemies, n - 1);
        let after = resolved(projectiles, enemies, n);
        lemma_first_struck_is_least(projectiles[n - 1], before.enemies, 0);
        assert forall|k: int|
            0 <= k < enemies.len() implies (#[trigger] after.enemies[k]).marked_for_removal == (
            enemies[k].marked_for_removal || exists|i: int|
                0 <= i < n && #[trigger] hit_by(projectiles, enemies, i) == k) by {
            // By induction this holds of the marks that the earlier
            // projectiles have left; the last projectile adds its own target.
            assert(before.enemies[k].marked_for_removal == (enemies[k].marked_for_removal
                || exists|i: int|
                0 <= i < n - 1 && #[trigger] hit_by(projectiles, enemies, i) == k));
            if after.enemies[k].marked_for_removal && !before.enemies[k].marked_for_removal {
                assert(hit_by(projectiles, enemies, n - 1) == k);
            }
        }
    }
}

/// What the first `n` enemies are worth that a round has marked: those not
/// marked in `before` and marked in `after`, each at its size in whole
/// screen units.
pub open spec fn worth_of_marked(before: Seq<Entity>, after: Seq<Entity>, n: int) -> nat
    decreases n,
{
    if n <= 0 {
        0
    } else {
        worth_of_marked(before, after, n - 1) + if !before[n - 1].marked_for_removal && after[n
            - 1].marked_for_removal {
            rounded_units(before[n - 1].size) as nat
        } else {
            0
        }
    }
}

/// Marking one more enemy adds its worth and no more.
proof fn lemma_worth_after_mark(before: Seq<Entity>, now: Seq<Entity>, k: int, n: int)
    requires
        0 <= k < now.len(),
        0 <= n <= now.len(),
        now.len() == before.len(),
        !before[k].marked_for_removal,
        !now[k].marked_for_removal,
    ensures
        k < n ==> worth_of_marked(before, now.update(k, now[k].marked()), n) == worth_of_marked(
            before,
            now,
            n,
        ) + rounded_units(before[k].size),
        k >= n ==> worth_of_marked(before, now.update(k, now[k].marked()), n) == worth_of_marked(
            before,
            now,
            n,
        ),
    decreases n,
{
    if n > 0 {
        lemma_worth_after_mark(before, now, k, n - 1);
    }
}

/// The hits of a round pay for exactly the enemies that the round has
/// marked: their total is the worth of those enemies.
pub proof fn lemma_hits_pay_for_marks(projectiles: Seq<Entity>, enemies: Seq<Entity>, n: int)
    requires
        0 <= n <= projectiles.len(),
    ensures
        total(resolved(projectiles, enemies, n).hits) == worth_of_marked(
            enemies,
            resolved(projectiles, enemies, n).enemies,
            enemies.len() as int,
        ),
    decreases n,
{
    if n > 0 {
        lemma_hits_pay_for_marks(projectiles, enemies, n - 1);
        lemma_resolution_only_marks(projectiles, enemies, n - 1);
        let before = resolved(projectiles, enemies, n - 1);
        let after = resolved(projectiles, enemies, n);
        let k = first_struck(projectiles[n - 1], before.enemies, 0);
        lemma_first_struck_is_least(projectiles[n - 1], before.enemies, 0);
        if k < before.enemies.len() {
            lemma_worth_after_mark(enemies, before.enemies, k, enemies.len() as int);
            assert(after.hits.drop_last() =~= before.hits);
        }
    } else {
        lemma_worth_of_unchanged(enemies, enemies.len() as int);
    }
}

/// Where nothing was marked, nothing is owed.
proof fn lemma_worth_of_unchanged(enemies: Seq<Entity>, n: int)
    requires
        0 <= n <= enemies.len(),
    ensures
        worth_of_marked(enemies, enemies, n) == 0,
    decreases n,
{
    if n > 0 {
        lemma_worth_of_unchanged(enemies, n - 1);
    }
}

} // verus!
