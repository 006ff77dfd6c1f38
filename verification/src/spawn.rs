//! How new enemies come into play.
//!
//! Chance enters the game here and nowhere else.  The draws are made by one
//! small function whose contract is taken on trust; what is made of the draws
//! is computed, and proved, for every value a draw could have.

use crate::entity::{Entity, Field};
use crate::units::SUBUNITS;
use vstd::prelude::*;

verus! {

/// The smallest side of an enemy's box.
pub const ENEMY_SIZE_MIN: u32 = 16 * SUBUNITS;

/// The largest side of an enemy's box.
pub const ENEMY_SIZE_MAX: u32 = 64 * SUBUNITS;

/// The speed of the slowest enemy.
pub const ENEMY_SPEED_MIN: u32 = 50 * SUBUNITS;

/// The speed of the fastest enemy.
pub const ENEMY_SPEED_MAX: u32 = 150 * SUBUNITS;

/// The roll that decides on a spawn is drawn between zero and this.
pub const ROLL_SPAN: i32 = 99;

/// An enemy spawns when the roll is above this.
pub const ROLL_ABOVE: i32 = 95;

/// `v` brought into `low ..= high`; `low` wins where the range is empty.
pub open spec fn clamped(v: int, low: int, high: int) -> int {
    if v < low || high < low {
        low
    } else if v > high {
        high
    } else {
        v
    }
}

/// Half of `size`, rounded up: the least distance from an edge of the field
/// at which a box of that size lies wholly on the field's side of the edge.
pub open spec fn half_up(size: u32) -> int {
    (size + 1) / 2
}

/// The least centre x at which an enemy of this size may spawn.
pub open spec fn least_x(size: u32) -> int {
    clamped(half_up(size), 0, i32::MAX as int)
}

/// The greatest centre x at which an enemy of this size may spawn.  On a
/// field too narrow for the box this is [`least_x`], so the range is never
/// empty.
pub open spec fn greatest_x(field: Field, size: u32) -> int {
    clamped(field.width - half_up(size), least_x(size), i32::MAX as int)
}

/// What holds of every enemy that spawns: it is unmarked, its size and speed
/// lie in their ranges, its centre is one full size above the top edge, and
/// its x lies in the range for its size.
pub open spec fn is_newcomer(field: Field, e: Entity) -> bool {
    &&& !e.marked_for_removal
    &&& ENEMY_SIZE_MIN <= e.size <= ENEMY_SIZE_MAX
    &&& ENEMY_SPEED_MIN <= e.speed <= ENEMY_SPEED_MAX
    &&& e.y == -(e.size as int)
    &&& least_x(e.size) <= e.x <= greatest_x(field, e.size)
}

/// The enemy that three draws stand for.  Each draw is brought into its
/// range first, so every triple of draws gives a proper newcomer.
pub open spec fn newcomer(field: Field, size_draw: i32, x_draw: i32, speed_draw: i32) -> Entity {
    let size = clamped(size_draw as int, ENEMY_SIZE_MIN as int, ENEMY_SIZE_MAX as int) as u32;
    Entity {
        x: clamped(x_draw as int, least_x(size), greatest_x(field, size)) as i32,
        y: (-(size as int)) as i32,
        size,
        speed: clamped(speed_draw as int, ENEMY_SPEED_MIN as int, ENEMY_SPEED_MAX as int) as u32,
        marked_for_removal: false,
    }
}

/// Draws from the process-wide generator of `macroquad::rand` by calling
/// `gen_range` on two `i32` bounds.
///
/// Nothing is proved here.  The contract claims only what the generator's
/// arithmetic shows: it scales a fraction in `[0, 1)` onto the span between
/// the bounds and truncates, so with `low <= high` the draw lies in
/// `low ..= high`.  Which value comes out is left open.
#[verifier::external_body]
fn draw_between(low: i32, high: i32) -> (r: i32)
    ensures
        low <= high ==> low <= r <= high,
{
    macroquad::rand::gen_range(low, high)
}

/// Brings a draw into `low ..= high`.
pub fn clamp_draw(draw: i32, low: i32, high: i32) -> (r: i32)
    ensures
        r == clamped(draw as int, low as int, high as int),
{
    if draw < low || high < low {
        low
    } else if draw > high {
        high
    } else {
        draw
    }
}

/// Whether a roll lets an enemy spawn.
pub fn spawns(roll: i32) -> (yes: bool)
    ensures
        yes == (roll > ROLL_ABOVE),
{
    roll > ROLL_ABOVE
}

/// The range of centre x for an enemy of this size, ends included.
pub fn x_range(field: &Field, size: u32) -> (range: (i32, i32))
    ensures
        range.0 == least_x(size),
        range.1 == greatest_x(*field, size),
        range.0 <= range.1,
{
    let half: i64 = (size as i64 + 1) / 2;
    let low: i32 = if half > i32::MAX as i64 {
        i32::MAX
    } else {
        half as i32
    };
    let far: i64 = field.width as i64 - half;
    let high: i32 = if far < low as i64 {
        low
    } else if far > i32::MAX as i64 {
        i32::MAX
    } else {
        far as i32
    };
    (low, high)
}

/// Makes an enemy of three draws: its size, its x and its speed.
pub fn enemy_from_draws(field: &Field, size_draw: i32, x_draw: i32, speed_draw: i32) -> (e:
    Entity)
    ensures
        e == newcomer(*field, size_draw, x_draw, speed_draw),
        is_newcomer(*field, e),
{
    let size: u32 = clamp_draw(size_draw, ENEMY_SIZE_MIN as i32, ENEMY_SIZE_MAX as i32) as u32;
    let range: (i32, i32) = x_range(field, size);
    let x: i32 = clamp_draw(x_draw, range.0, range.1);
    let speed: u32 = clamp_draw(speed_draw, ENEMY_SPEED_MIN as i32, ENEMY_SPEED_MAX as i32) as u32;
    Entity { x, y: -(size as i32), size, speed, marked_for_removal: false }
}

/// What the draws of one tick bring: the enemy that the three draws stand
/// for where the roll is above [`ROLL_ABOVE`], and no enemy otherwise.
pub open spec fn spawned(
    field: Field,
    roll: i32,
    size_draw: i32,
    x_draw: i32,
    speed_draw: i32,
) -> Option<Entity> {
    if roll > ROLL_ABOVE {
        Some(newcomer(field, size_draw, x_draw, speed_draw))
    } else {
        None
    }
}

/// Decides on a spawn by the roll and makes the enemy of the three draws.
pub fn spawn_from_draws(
    field: &Field,
    roll: i32,
    size_draw: i32,
    x_draw: i32,
    speed_draw: i32,
) -> (drawn: Option<Entity>)
    ensures
        drawn == spawned(*field, roll, size_draw, x_draw, speed_draw),
        drawn matches Some(e) ==> is_newcomer(*field, e),
{
    if spawns(roll) {
        Some(enemy_from_draws(field, size_draw, x_draw, speed_draw))
    } else {
        None
    }
}

/// Draws the roll, the size, the x and the speed of one tick and hands them
/// to [`spawn_from_draws`].  The x is drawn from the range for the size that
/// was drawn.
///
/// Which enemy comes, if any, is a matter of chance.  Whatever the draws,
/// an enemy that comes is a proper newcomer.
pub fn draw_enemy(field: &Field) -> (drawn: Option<Entity>)
    ensures
        drawn matches Some(e) ==> is_newcomer(*field, e),
{
    let roll: i32 = draw_between(0, ROLL_SPAN);
    let size_draw: i32 = draw_between(ENEMY_SIZE_MIN as i32, ENEMY_SIZE_MAX as i32);
    let size: u32 = clamp_draw(size_draw, ENEMY_SIZE_MIN as i32, ENEMY_SIZE_MAX as i32) as u32;
    let range: (i32, i32) = x_range(field, size);
    let x_draw: i32 = draw_between(range.0, range.1);
    let speed_draw: i32 = draw_between(ENEMY_SPEED_MIN as i32, ENEMY_SPEED_MAX as i32);
    spawn_from_draws(field, roll, size_draw, x_draw, speed_draw)
}

/// On a field that is wide enough for it, a newcomer's box lies between the
/// left and the right edge of the field.
pub proof fn lemma_newcomer_fits(field: Field, e: Entity)
    requires
        is_newcomer(field, e),
        2 * half_up(e.size) <= field.width,
    ensures
        0 <= e.frame().twice_left(),
        e.frame().twice_right() <= 2 * field.width,
{
}

} // verus!
