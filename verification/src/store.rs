//! The enemies and projectiles in play, and what one tick does to them.
//!
//! Both collections keep spawn order.  Collision detection only sets marks;
//! bodies leave in a pass of their own, so that no collision test ever sees a
//! collection that is half updated.

use crate::collision::{
    first_struck, lemma_first_struck_is_least, lemma_resolution_only_marks, resolved,
    same_but_mark, Resolution,
};
use crate::entity::{Entity, Field};
use crate::sweep::{lemma_sweep_settles, sweep, Keep};
use crate::units::{points_for, rounded_units, SUBUNITS};
use vstd::prelude::*;

verus! {

/// The side of a projectile's box.
pub const PROJECTILE_SIZE: u32 = 5 * SUBUNITS;

/// The projectile that a player at this position fires: it starts on the
/// player and is twice as fast.
pub open spec fn shot_from(player: Entity) -> Entity {
    Entity {
        x: player.x,
        y: player.y,
        size: PROJECTILE_SIZE,
        speed: if 2 * player.speed > u32::MAX {
            u32::MAX
        } else {
            (2 * player.speed) as u32
        },
        marked_for_removal: false,
    }
}

/// Each body of `bodies` after it has fallen for `dt` microseconds.
pub open spec fn all_fallen(bodies: Seq<Entity>, dt: u32) -> Seq<Entity> {
    Seq::new(bodies.len(), |i: int| bodies[i].fallen(dt))
}

/// Each body of `bodies` after it has risen for `dt` microseconds.
pub open spec fn all_risen(bodies: Seq<Entity>, dt: u32) -> Seq<Entity> {
    Seq::new(bodies.len(), |i: int| bodies[i].risen(dt))
}

/// Whether some enemy collides with the player.
pub open spec fn any_reaches(enemies: Seq<Entity>, player: Entity) -> bool {
    exists|i: int| 0 <= i < enemies.len() && #[trigger] enemies[i].collides(player)
}

/// The state of one tick's round of collision detection: every body has
/// moved for `dt` microseconds, those that left the field are gone, and every
/// projectile has had its turn.
pub open spec fn round(
    enemies: Seq<Entity>,
    projectiles: Seq<Entity>,
    dt: u32,
    field: Field,
) -> Resolution {
    let falling = all_fallen(enemies, dt).filter(Keep::EnemiesOnField(field).pred());
    let rising = all_risen(projectiles, dt).filter(Keep::ProjectilesOnField.pred());
    resolved(rising, falling, rising.len() as int)
}

/// What one tick found: the points of each hit, and whether an enemy reached
/// the player.
#[derive(Debug)]
pub struct Outcome {
    pub hits: Vec<u32>,
    pub loss: bool,
}

/// The enemies in play after a tick: those of the round that are not marked.
pub open spec fn enemies_after(
    enemies: Seq<Entity>,
    projectiles: Seq<Entity>,
    dt: u32,
    field: Field,
) -> Seq<Entity> {
    round(enemies, projectiles, dt, field).enemies.filter(Keep::Unmarked.pred())
}

/// The projectiles in play after a tick: those of the round that are not
/// marked.
pub open spec fn projectiles_after(
    enemies: Seq<Entity>,
    projectiles: Seq<Entity>,
    dt: u32,
    field: Field,
) -> Seq<Entity> {
    round(enemies, projectiles, dt, field).projectiles.filter(Keep::Unmarked.pred())
}

/// `e` is unmarked, on the field, and is one of `enemies` after it has
/// fallen for `dt` microseconds.
pub open spec fn survives_as_enemy(e: Entity, enemies: Seq<Entity>, dt: u32, field: Field) -> bool {
    &&& !e.marked_for_removal
    &&& !e.fell_out(field)
    &&& exists|k: int| 0 <= k < enemies.len() && e == #[trigger] enemies[k].fallen(dt)
}

/// `p` is unmarked, on the field, and is one of `projectiles` after it has
/// risen for `dt` microseconds.
pub open spec fn survives_as_projectile(p: Entity, projectiles: Seq<Entity>, dt: u32) -> bool {
    &&& !p.marked_for_removal
    &&& !p.flew_out()
    &&& exists|k: int| 0 <= k < projectiles.len() && p == #[trigger] projectiles[k].risen(dt)
}

/// What is in play after a tick.  Every enemy is unmarked, on the field,
/// and is one of the enemies from before the tick, moved.  Every projectile
/// likewise.  A body that has left does not come back, and nothing appears
/// out of nowhere.
pub proof fn lemma_round_survivors(
    enemies: Seq<Entity>,
    projectiles: Seq<Entity>,
    dt: u32,
    field: Field,
)
    ensures
        forall|i: int|
            0 <= i < enemies_after(enemies, projectiles, dt, field).len() ==> survives_as_enemy(
                #[trigger] enemies_after(enemies, projectiles, dt, field)[i],
                enemies,
                dt,
                field,
            ),
        forall|i: int|
            0 <= i < projectiles_after(enemies, projectiles, dt, field).len()
                ==> survives_as_projectile(
                #[trigger] projectiles_after(enemies, projectiles, dt, field)[i],
                projectiles,
                dt,
            ),
{
    let falling = all_fallen(enemies, dt).filter(Keep::EnemiesOnField(field).pred());
    let rising = all_risen(projectiles, dt).filter(Keep::ProjectilesOnField.pred());
    let found = resolved(rising, falling, rising.len() as int);
    let foes = found.enemies.filter(Keep::Unmarked.pred());
    let shots = found.projectiles.filter(Keep::Unmarked.pred());
    lemma_resolution_only_marks(rising, falling, rising.len() as int);
    lemma_sweep_settles(all_fallen(enemies, dt), Keep::EnemiesOnField(field));
    lemma_sweep_settles(all_risen(projectiles, dt), Keep::ProjectilesOnField);
    lemma_sweep_settles(found.enemies, Keep::Unmarked);
    lemma_sweep_settles(found.projectiles, Keep::Unmarked);
    assert forall|i: int| 0 <= i < foes.len() implies survives_as_enemy(
        #[trigger] foes[i],
        enemies,
        dt,
        field,
    ) by {
        // An unmarked body of the round stood at the same place `j` before
        // the round, and came there from some place `k` before the tick.
        let j = choose|j: int| 0 <= j < found.enemies.len() && found.enemies[j] == foes[i];
        let k = choose|k: int|
            0 <= k < enemies.len() && all_fallen(enemies, dt)[k] == falling[j];
        assert(foes[i] == enemies[k].fallen(dt));
    }
    assert forall|i: int| 0 <= i < shots.len() implies survives_as_projectile(
        #[trigger] shots[i],
        projectiles,
        dt,
    ) by {
        let j = choose|j: int|
            0 <= j < found.projectiles.len() && found.projectiles[j] == shots[i];
        let k = choose|k: int|
            0 <= k < projectiles.len() && all_risen(projectiles, dt)[k] == rising[j];
        assert(shots[i] == projectiles[k].risen(dt));
    }
}

/// The enemies and the projectiles in play, each in spawn order.
#[derive(Debug)]
pub struct EntityStore {
    pub enemies: Vec<Entity>,
    pub projectiles: Vec<Entity>,
}

impl EntityStore {
    /// A store with nothing in play.
    pub fn new() -> (store: EntityStore)
        ensures
            store.enemies@ == Seq::<Entity>::empty(),
            store.projectiles@ == Seq::<Entity>::empty(),
    {
        EntityStore { enemies: Vec::new(), projectiles: Vec::new() }
    }

    /// Takes every enemy and every projectile out of play.
    pub fn clear(&mut self)
        ensures
            final(self).enemies@ == Seq::<Entity>::empty(),
            final(self).projectiles@ == Seq::<Entity>::empty(),
    {
        self.enemies.clear();
        self.projectiles.clear();
    }

    /// Puts a new enemy in play, behind those already there.
    pub fn spawn_enemy(&mut self, enemy: Entity)
        ensures
            final(self).enemies@ == old(self).enemies@.push(enemy),
            final(self).projectiles@ == old(self).projectiles@,
    {
        self.enemies.push(enemy);
    }

    /// Fires a projectile from where the player stands.
    pub fn spawn_projectile(&mut self, player: &Entity)
        ensures
            final(self).projectiles@ == old(self).projectiles@.push(shot_from(*player)),
            final(self).enemies@ == old(self).enemies@,
    {
        let speed: u32 = if player.speed > u32::MAX / 2 {
            u32::MAX
        } else {
            2 * player.speed
        };
        self.projectiles.push(
            Entity {
                x: player.x,
                y: player.y,
                size: PROJECTILE_SIZE,
                speed,
                marked_for_removal: false,
            },
        );
    }

    /// Moves every body for `dt` microseconds: enemies fall, projectiles
    /// rise.
    pub fn integrate(&mut self, dt: u32)
        ensures
            final(self).enemies@ == all_fallen(old(self).enemies@, dt),
            final(self).projectiles@ == all_risen(old(self).projectiles@, dt),
    {
        let ghost enemies = self.enemies@;
        let ghost projectiles = self.projectiles@;
        let mut i: usize = 0;
        while i < self.enemies.len()
            invariant
                self.projectiles@ == projectiles,
                self.enemies@.len() == enemies.len(),
                0 <= i <= enemies.len(),
                forall|j: int| 0 <= j < i ==> self.enemies@[j] == #[trigger] enemies[j].fallen(dt),
                forall|j: int| i <= j < enemies.len() ==> self.enemies@[j] == enemies[j],
            decreases enemies.len() - i,
        {
            let mut e: Entity = self.enemies[i];
            e.descend(dt);
            self.enemies.set(i, e);
            i = i + 1;
        }
        let mut k: usize = 0;
        while k < self.projectiles.len()
            invariant
                self.enemies@ == all_fallen(enemies, dt),
                self.projectiles@.len() == projectiles.len(),
                0 <= k <= projectiles.len(),
                forall|j: int|
                    0 <= j < k ==> self.projectiles@[j] == #[trigger] projectiles[j].risen(dt),
                forall|j: int|
                    k <= j < projectiles.len() ==> self.projectiles@[j] == projectiles[j],
            decreases projectiles.len() - k,
        {
            let mut p: Entity = self.projectiles[k];
            p.ascend(dt);
            self.projectiles.set(k, p);
            k = k + 1;
        }
    }

    /// Removes the enemies that have fallen out of the field and the
    /// projectiles that have flown out of it.
    pub fn cull_off_field(&mut self, field: &Field)
        ensures
            final(self).enemies@ == old(self).enemies@.filter(
                Keep::EnemiesOnField(*field).pred(),
            ),
            final(self).projectiles@ == old(self).projectiles@.filter(
                Keep::ProjectilesOnField.pred(),
            ),
    {
        sweep(&mut self.enemies, &Keep::EnemiesOnField(*field));
        sweep(&mut self.projectiles, &Keep::ProjectilesOnField);
    }

    /// Removes every body that is marked for removal.
    pub fn remove_flagged(&mut self)
        ensures
            final(self).enemies@ == old(self).enemies@.filter(Keep::Unmarked.pred()),
            final(self).projectiles@ == old(self).projectiles@.filter(Keep::Unmarked.pred()),
    {
        sweep(&mut self.enemies, &Keep::Unmarked);
        sweep(&mut self.projectiles, &Keep::Unmarked);
    }

    /// Tests every projectile against every enemy, marks both bodies of each
    /// hit and returns the points of the hits.  Nothing is removed here.
    pub fn resolve_collisions(&mut self) -> (hits: Vec<u32>)
        ensures
            ({
                let outcome = resolved(
                    old(self).projectiles@,
                    old(self).enemies@,
                    old(self).projectiles@.len() as int,
                );
                &&& final(self).projectiles@ == outcome.projectiles
                &&& final(self).enemies@ == outcome.enemies
                &&& hits@ == outcome.hits
            }),
    {
        let ghost projectiles = self.projectiles@;
        let ghost enemies = self.enemies@;
        let mut hits: Vec<u32> = Vec::new();
        let mut pi: usize = 0;
        while pi < self.projectiles.len()
            invariant
                0 <= pi <= projectiles.len(),
                self.projectiles@.len() == projectiles.len(),
                self.enemies@.len() == enemies.len(),
                forall|j: int|
                    pi <= j < projectiles.len() ==> self.projectiles@[j] == projectiles[j],
                self.projectiles@ == resolved(projectiles, enemies, pi as int).projectiles,
                self.enemies@ == resolved(projectiles, enemies, pi as int).enemies,
                hits@ == resolved(projectiles, enemies, pi as int).hits,
            decreases projectiles.len() - pi,
        {
            let ghost row_projectiles = self.projectiles@;
            let ghost row_enemies = self.enemies@;
            let ghost row_hits = hits@;
            let shooter: Entity = self.projectiles[pi];
            let ghost target = first_struck(shooter, row_enemies, 0);
            let mut spent: bool = shooter.marked_for_removal;
            proof {
                lemma_first_struck_is_least(shooter, row_enemies, 0);
            }
            let mut ei: usize = 0;
            while ei < self.enemies.len()
                invariant
                    0 <= ei <= row_enemies.len(),
                    pi < row_projectiles.len(),
                    shooter == row_projectiles[pi as int],
                    target == first_struck(shooter, row_enemies, 0),
                    self.projectiles@.len() == row_projectiles.len(),
                    self.enemies@.len() == row_enemies.len(),
                    !spent ==> {
                        &&& !shooter.marked_for_removal
                        &&& target == first_struck(shooter, row_enemies, ei as int)
                        &&& self.projectiles@ == row_projectiles
                        &&& self.enemies@ == row_enemies
                        &&& hits@ == row_hits
                    },
                    spent && !shooter.marked_for_removal ==> {
                        &&& 0 <= target < ei
                        &&& self.projectiles@ == row_projectiles.update(pi as int, shooter.marked())
                        &&& self.enemies@ == row_enemies.update(
                            target,
                            row_enemies[target].marked(),
                        )
                        &&& hits@ == row_hits.push(rounded_units(row_enemies[target].size) as u32)
                    },
                    shooter.marked_for_removal ==> {
                        &&& spent
                        &&& target == row_enemies.len()
                        &&& self.projectiles@ == row_projectiles
                        &&& self.enemies@ == row_enemies
                        &&& hits@ == row_hits
                    },
                decreases row_enemies.len() - ei,
            {
                let enemy: Entity = self.enemies[ei];
                if !spent && !enemy.marked_for_removal && shooter.overlaps(&enemy) {
                    let mut struck: Entity = enemy;
                    struck.marked_for_removal = true;
                    self.enemies.set(ei, struck);
                    let mut used: Entity = shooter;
                    used.marked_for_removal = true;
                    self.projectiles.set(pi, used);
                    hits.push(points_for(enemy.size));
                    spent = true;
                }
                ei = ei + 1;
            }
            pi = pi + 1;
        }
        hits
    }

    /// One tick of the bodies in play, in this order: move every body, drop
    /// those that left the field, detect the hits, test whether an enemy
    /// reached the player, and only then remove what was marked.
    pub fn update(&mut self, dt: u32, field: &Field, player: &Entity) -> (outcome: Outcome)
        ensures
            outcome.hits@ == round(old(self).enemies@, old(self).projectiles@, dt, *field).hits,
            outcome.loss == any_reaches(
                round(old(self).enemies@, old(self).projectiles@, dt, *field).enemies,
                *player,
            ),
            final(self).enemies@ == enemies_after(
                old(self).enemies@,
                old(self).projectiles@,
                dt,
                *field,
            ),
            final(self).projectiles@ == projectiles_after(
                old(self).enemies@,
                old(self).projectiles@,
                dt,
                *field,
            ),
            forall|i: int|
                0 <= i < final(self).enemies@.len() ==> survives_as_enemy(
                    #[trigger] final(self).enemies@[i],
                    old(self).enemies@,
                    dt,
                    *field,
                ),
            forall|i: int|
                0 <= i < final(self).projectiles@.len() ==> survives_as_projectile(
                    #[trigger] final(self).projectiles@[i],
                    old(self).projectiles@,
                    dt,
                ),
    {
        self.integrate(dt);
        self.cull_off_field(field);
        let hits: Vec<u32> = self.resolve_collisions();
        let loss: bool = self.reaches(player);
        self.remove_flagged();
        proof {
            lemma_round_survivors(old(self).enemies@, old(self).projectiles@, dt, *field);
            assert(self.enemies@ == enemies_after(
                old(self).enemies@,
                old(self).projectiles@,
                dt,
                *field,
            ));
            assert(self.projectiles@ == projectiles_after(
                old(self).enemies@,
                old(self).projectiles@,
                dt,
                *field,
            ));
        }
        Outcome { hits, loss }
    }

    /// Whether some enemy has reached the player, which ends the life.
    /// Marks play no part: an enemy that was hit on this tick still counts.
    pub fn reaches(&self, player: &Entity) -> (loss: bool)
        ensures
            loss == any_reaches(self.enemies@, *player),
    {
        let mut i: usize = 0;
        while i < self.enemies.len()
            invariant
                0 <= i <= self.enemies@.len(),
                forall|j: int| 0 <= j < i ==> !(#[trigger] self.enemies@[j].collides(*player)),
            decreases self.enemies@.len() - i,
        {
            if self.enemies[i].overlaps(player) {
                return true;
            }
            i = i + 1;
        }
        false
    }
}

} // verus!
