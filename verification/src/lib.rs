//! The rules of a small arcade shooter, with every rule stated and proved.
//!
//! A player dodges falling squares and shoots at them.  This crate holds what
//! the game decides: how bodies move and collide, how the score is kept and
//! stored, and how the game passes between its menu, play, pause and game-over
//! states.  Drawing, keyboard polling and file access are left to the caller,
//! which hands in plain values and gets plain values back.
//!
//! All lengths are fixed-point integers (see [`units`]), so that every result
//! is exact and every contract is stated over mathematical integers.
//!
//! * [`units`]: sub-units, microseconds and saturating positions.
//! * [`input`]: the keys of one tick.
//! * [`entity`]: a body, its box, its moves and the collision test.
//! * [`sweep`]: removing bodies from a collection by a rule.
//! * [`collision`]: the model of one round of hits, and its laws.
//! * [`store`]: the enemies and projectiles in play and their tick.
//! * [`spawn`]: new enemies, and the one place where chance comes in.
//! * [`score`]: the ledger and the text in which the high score is stored.
//! * [`game`]: the state machine that ties the others together.

pub mod collision;
pub mod entity;
pub mod game;
pub mod input;
pub mod score;
pub mod spawn;
pub mod store;
pub mod sweep;
pub mod units;
