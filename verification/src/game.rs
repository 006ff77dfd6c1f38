//! The game as a whole: its four states and what one tick does in each.
//!
//! The caller owns the loop.  Once per frame it polls the keys, measures the
//! time step and the field, calls [`GameStateMachine::tick`], writes what the
//! tick asks to have written, and draws what the game then holds.

use crate::entity::{Entity, Field};
use crate::input::Input;
use crate::score::{
    lemma_hits_never_lower_high_score, lemma_written_score_is_loaded, stored_score, text_of,
    ScoreLedger,
};
use crate::spawn::{draw_enemy, is_newcomer};
use crate::store::{any_reaches, round, shot_from, EntityStore, Outcome};
use crate::sweep::Keep;
use crate::units::SUBUNITS;
use vstd::prelude::*;

verus! {

/// The side of the player's box.
pub const PLAYER_SIZE: u32 = 32 * SUBUNITS;

/// The speed at which the held keys move the player.
pub const PLAYER_SPEED: u32 = 200 * SUBUNITS;

/// Where the game stands.
#[derive(Clone, Copy, Debug, PartialEq, Eq, Structural)]
pub enum GameState {
    /// Waiting for the first life to start.
    MainMenu,
    /// A life is under way.
    Running,
    /// A life is held still.
    Paused,
    /// A life has ended.
    GameOver,
}

impl GameState {
    /// The state that follows `self`.
    ///
    /// The menu and the game-over screen wait for fire, a pause waits for
    /// resume.  A running life ends when an enemy reaches the player, and is
    /// paused on request otherwise; if both happen on one tick, it ends.
    pub open spec fn followed_by(self, input: Input, loss: bool) -> GameState {
        match self {
            GameState::MainMenu => if input.fire {
                GameState::Running
            } else {
                GameState::MainMenu
            },
            GameState::Paused => if input.resume {
                GameState::Running
            } else {
                GameState::Paused
            },
            GameState::GameOver => if input.fire {
                GameState::Running
            } else {
                GameState::GameOver
            },
            GameState::Running => if loss {
                GameState::GameOver
            } else if input.pause {
                GameState::Paused
            } else {
                GameState::Running
            },
        }
    }

    /// Computes the state that follows `self`.  `loss` says whether an enemy
    /// reached the player on this tick; it is read only while running.
    pub fn next(self, input: &Input, loss: bool) -> (state: GameState)
        ensures
            state == self.followed_by(*input, loss),
    {
        match self {
            GameState::MainMenu => if input.fire {
                GameState::Running
            } else {
                GameState::MainMenu
            },
            GameState::Paused => if input.resume {
                GameState::Running
            } else {
                GameState::Paused
            },
            GameState::GameOver => if input.fire {
                GameState::Running
            } else {
                GameState::GameOver
            },
            GameState::Running => if loss {
                GameState::GameOver
            } else if input.pause {
                GameState::Paused
            } else {
                GameState::Running
            },
        }
    }
}

/// The player as a life starts: in the middle of the field.
pub open spec fn player_at_centre(field: Field) -> Entity {
    Entity {
        x: (field.width / 2) as i32,
        y: (field.height / 2) as i32,
        size: PLAYER_SIZE,
        speed: PLAYER_SPEED,
        marked_for_removal: false,
    }
}

/// All that the game holds, as plain mathematical values.
pub struct Snapshot {
    pub state: GameState,
    pub player: Entity,
    pub enemies: Seq<Entity>,
    pub projectiles: Seq<Entity>,
    pub ledger: ScoreLedger,
}

/// What one tick leads to: the game after it, and the text that is to be
/// written to the store, if any.
pub struct Turn {
    pub next: Snapshot,
    pub write: Option<Seq<u8>>,
}

impl Snapshot {
    /// One tick of a running life.
    ///
    /// The player moves as the held keys ask and, on fire, leaves a
    /// projectile where it then stands; only then is it brought back onto
    /// the field.  A newcomer joins the enemies.  Then the bodies have their
    /// tick: they move, those off the field go, hits are detected and
    /// counted, and an enemy that reaches the player ends the life.  On such
    /// a loss the ledger says what is to be written, with the hits of this
    /// tick already counted.  Marked bodies leave last.
    pub open spec fn after_running_tick(
        self,
        input: Input,
        dt: u32,
        field: Field,
        newcomer: Option<Entity>,
    ) -> Turn {
        let moved = self.player.steered(input, dt);
        let shots = if input.fire {
            self.projectiles.push(shot_from(moved))
        } else {
            self.projectiles
        };
        let player = moved.clamped(field);
        let foes = match newcomer {
            Some(e) => self.enemies.push(e),
            None => self.enemies,
        };
        let found = round(foes, shots, dt, field);
        let ledger = self.ledger.after_hits(found.hits);
        let loss = any_reaches(found.enemies, player);
        Turn {
            next: Snapshot {
                state: GameState::Running.followed_by(input, loss),
                player,
                enemies: found.enemies.filter(Keep::Unmarked.pred()),
                projectiles: found.projectiles.filter(Keep::Unmarked.pred()),
                ledger,
            },
            write: if loss {
                ledger.to_store()
            } else {
                None
            },
        }
    }

    /// The game as a new life starts after a loss: nothing in play, the
    /// score at zero, the player in the middle of the field.
    pub open spec fn restarted(self, field: Field) -> Snapshot {
        Snapshot {
            state: GameState::Running,
            player: Entity {
                x: (field.width / 2) as i32,
                y: (field.height / 2) as i32,
                ..self.player
            },
            enemies: Seq::empty(),
            projectiles: Seq::empty(),
            ledger: self.ledger.after_reset(),
        }
    }

    /// One tick of the game.  `newcomer` is the enemy that chance sends on
    /// this tick; it is looked at only while a life is running.
    pub open spec fn after_tick(
        self,
        input: Input,
        dt: u32,
        field: Field,
        newcomer: Option<Entity>,
    ) -> Turn {
        match self.state {
            GameState::Running => self.after_running_tick(input, dt, field, newcomer),
            GameState::GameOver => if input.fire {
                Turn { next: self.restarted(field), write: None }
            } else {
                Turn { next: self, write: None }
            },
            _ => Turn {
                next: Snapshot { state: self.state.followed_by(input, false), ..self },
                write: None,
            },
        }
    }
}

/// Whether `after` and `write` are what one tick makes of `before` when
/// chance sends `newcomer`, and `newcomer` is a proper one.
pub open spec fn is_tick(
    before: GameStateMachine,
    input: Input,
    dt: u32,
    field: Field,
    newcomer: Option<Entity>,
    after: GameStateMachine,
    write: Option<Vec<u8>>,
) -> bool {
    &&& newcomer matches Some(e) ==> is_newcomer(field, e)
    &&& after@ == before@.after_tick(input, dt, field, newcomer).next
    &&& text_of(write) == before@.after_tick(input, dt, field, newcomer).write
}

/// The game: its state, the player, the bodies in play and the ledger.
#[derive(Debug)]
pub struct GameStateMachine {
    pub state: GameState,
    pub player: Entity,
    pub store: EntityStore,
    pub ledger: ScoreLedger,
}

impl View for GameStateMachine {
    type V = Snapshot;

    open spec fn view(&self) -> Snapshot {
        Snapshot {
            state: self.state,
            player: self.player,
            enemies: self.store.enemies@,
            projectiles: self.store.projectiles@,
            ledger: self.ledger,
        }
    }
}

impl GameStateMachine {
    /// A game in its menu, with nothing in play, the player in the middle
    /// of the field and the high score that was loaded.
    pub fn new(field: &Field, high_score: u32) -> (game: GameStateMachine)
        ensures
            game@ == (Snapshot {
                state: GameState::MainMenu,
                player: player_at_centre(*field),
                enemies: Seq::empty(),
                projectiles: Seq::empty(),
                ledger: ScoreLedger { score: 0, high_score },
            }),
    {
        GameStateMachine {
            state: GameState::MainMenu,
            player: Entity {
                x: (field.width / 2) as i32,
                y: (field.height / 2) as i32,
                size: PLAYER_SIZE,
                speed: PLAYER_SPEED,
                marked_for_removal: false,
            },
            store: EntityStore::new(),
            ledger: ScoreLedger::new(high_score),
        }
    }

    /// One tick of the game with the enemy that chance sent, if it sent one.
    /// Returns the text that is to be written to the store, if any.
    pub fn advance(
        &mut self,
        input: &Input,
        dt: u32,
        field: &Field,
        newcomer: Option<Entity>,
    ) -> (write: Option<Vec<u8>>)
        ensures
            final(self)@ == old(self)@.after_tick(*input, dt, *field, newcomer).next,
            text_of(write) == old(self)@.after_tick(*input, dt, *field, newcomer).write,
    {
        match self.state {
            GameState::Running => {
                self.player.steer(input, dt);
                if input.fire {
                    self.store.spawn_projectile(&self.player);
                }
                self.player.clamp_to(field);
                match newcomer {
                    Some(e) => {
                        self.store.spawn_enemy(e);
                    },
                    None => {},
                }
                let outcome: Outcome = self.store.update(dt, field, &self.player);
                self.ledger.apply_hits(&outcome.hits);
                self.state = self.state.next(input, outcome.loss);
                if outcome.loss {
                    self.ledger.on_loss()
                } else {
                    None
                }
            },
            GameState::GameOver => {
                if input.fire {
                    self.store.clear();
                    self.ledger.reset_life();
                    self.player.x = (field.width / 2) as i32;
                    self.player.y = (field.height / 2) as i32;
                    self.state = GameState::Running;
                }
                None
            },
            _ => {
                self.state = self.state.next(input, false);
                None
            },
        }
    }

    /// One tick of the game.  While a life is running, chance decides
    /// whether an enemy spawns and which.
    ///
    /// Whatever chance sends, the tick is [`Snapshot::after_tick`] for some
    /// newcomer that is a proper one.  Outside a running life no draw is
    /// made and the result is exact.  The player's move does not hang on
    /// chance, the high score never goes down, and a write is asked for only
    /// as a running life ends.
    pub fn tick(&mut self, input: &Input, dt: u32, field: &Field) -> (write: Option<Vec<u8>>)
        ensures
            exists|newcomer: Option<Entity>| #[trigger]
                is_tick(*old(self), *input, dt, *field, newcomer, *final(self), write),
            old(self).state != GameState::Running ==> write.is_none(),
            old(self).state != GameState::Running ==> final(self)@ == old(self)@.after_tick(
                *input,
                dt,
                *field,
                None,
            ).next,
            old(self).state == GameState::Running ==> final(self).player.within(*field),
            old(self).state == GameState::Running ==> final(self).player == old(
                self
            ).player.steered(*input, dt).clamped(*field),
            final(self).ledger.high_score >= old(self).ledger.high_score,
            write.is_some() ==> old(self).state == GameState::Running,
            write.is_some() ==> final(self).state == GameState::GameOver,
            write.is_some() ==> final(self).ledger.score == final(self).ledger.high_score,
            write.is_some() ==> stored_score(write.unwrap()@) == Some(
                final(self).ledger.high_score,
            ),
    {
        let newcomer: Option<Entity> = match self.state {
            GameState::Running => draw_enemy(field),
            _ => None,
        };
        proof {
            lemma_tick_never_lowers_high_score(self@, *input, dt, *field, newcomer);
            lemma_write_only_on_loss(self@, *input, dt, *field, newcomer);
        }
        let write: Option<Vec<u8>> = self.advance(input, dt, field, newcomer);
        assert(is_tick(*old(self), *input, dt, *field, newcomer, *self, write));
        write
    }
}

/// After a tick of a running life the player stands on the field, wherever
/// it stood before and whatever keys were held.
pub proof fn lemma_player_stays_on_field(
    game: Snapshot,
    input: Input,
    dt: u32,
    field: Field,
    newcomer: Option<Entity>,
)
    requires
        game.state == GameState::Running,
    ensures
        game.after_tick(input, dt, field, newcomer).next.player.within(field),
{
}

/// No tick lowers the high score, and no tick leaves the score above it
/// where it was not above it before.
pub proof fn lemma_tick_never_lowers_high_score(
    game: Snapshot,
    input: Input,
    dt: u32,
    field: Field,
    newcomer: Option<Entity>,
)
    ensures
        game.after_tick(input, dt, field, newcomer).next.ledger.high_score
            >= game.ledger.high_score,
        game.ledger.settled() ==> game.after_tick(input, dt, field, newcomer).next.ledger.settled(),
{
    if game.state == GameState::Running {
        let moved = game.player.steered(input, dt);
        let shots = if input.fire {
            game.projectiles.push(shot_from(moved))
        } else {
            game.projectiles
        };
        let foes = match newcomer {
            Some(e) => game.enemies.push(e),
            None => game.enemies,
        };
        lemma_hits_never_lower_high_score(game.ledger, round(foes, shots, dt, field).hits);
    }
}

/// A write is asked for only on the tick on which a running life ends, so
/// each loss is written at most once.  What is then written is the score,
/// which stands at the high score.
pub proof fn lemma_write_only_on_loss(
    game: Snapshot,
    input: Input,
    dt: u32,
    field: Field,
    newcomer: Option<Entity>,
)
    ensures
        game.after_tick(input, dt, field, newcomer).write.is_some() ==> game.state
            == GameState::Running && game.after_tick(input, dt, field, newcomer).next.state
            == GameState::GameOver,
        game.after_tick(input, dt, field, newcomer).write.is_some() ==> game.after_tick(
            input,
            dt,
            field,
            newcomer,
        ).next.ledger.score == game.after_tick(input, dt, field, newcomer).next.ledger.high_score,
        game.after_tick(input, dt, field, newcomer).write.is_some() ==> stored_score(
            game.after_tick(input, dt, field, newcomer).write.unwrap(),
        ) == Some(game.after_tick(input, dt, field, newcomer).next.ledger.high_score),
{
    if game.state == GameState::Running {
        let next = game.after_tick(input, dt, field, newcomer).next;
        if next.ledger.score == next.ledger.high_score {
            lemma_written_score_is_loaded(next.ledger);
        }
    }
}

/// While the game is not running, nothing in play moves, the player stays
/// and the ledger stays, unless fire starts a new life after a loss.
pub proof fn lemma_nothing_moves_outside_a_life(
    game: Snapshot,
    input: Input,
    dt: u32,
    field: Field,
    newcomer: Option<Entity>,
)
    requires
        game.state != GameState::Running,
        !(game.state == GameState::GameOver && input.fire),
    ensures
        game.after_tick(input, dt, field, newcomer).next == (Snapshot {
            state: game.state.followed_by(input, false),
            ..game
        }),
        game.after_tick(input, dt, field, newcomer).write.is_none(),
{
}

} // verus!
