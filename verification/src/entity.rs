//! Bodies on the play field: the player, the enemies and the projectiles.
//!
//! All three have the same shape.  A body is a square box around a centre
//! point; whether it is drawn as a circle or a square does not matter here.

use crate::input::Input;
use crate::units::{distance, saturate, saturated, travel};
use vstd::prelude::*;

verus! {

/// The size of the play field.  Its corner is the origin, x grows to the
/// right and y grows downward.
#[derive(Clone, Copy, Debug, PartialEq, Eq)]
pub struct Field {
    pub width: u32,
    pub height: u32,
}

/// An axis-aligned box, held by its centre and its side lengths.
///
/// A box of odd width has edges that fall between two sub-units.  The edges
/// are therefore stated doubled: [`Rect::twice_left`] is twice the left edge.
#[derive(Clone, Copy, Debug, PartialEq, Eq)]
pub struct Rect {
    pub cx: i32,
    pub cy: i32,
    pub w: u32,
    pub h: u32,
}

impl Rect {
    /// Twice the x of the left edge.
    pub open spec fn twice_left(self) -> int {
        2 * self.cx - self.w
    }

    /// Twice the x of the right edge.
    pub open spec fn twice_right(self) -> int {
        2 * self.cx + self.w
    }

    /// Twice the y of the top edge.
    pub open spec fn twice_top(self) -> int {
        2 * self.cy - self.h
    }

    /// Twice the y of the bottom edge.
    pub open spec fn twice_bottom(self) -> int {
        2 * self.cy + self.h
    }

    /// Two boxes intersect when they share more than an edge on both axes.
    pub open spec fn intersects(self, other: Rect) -> bool {
        &&& self.twice_left() < other.twice_right()
        &&& other.twice_left() < self.twice_right()
        &&& self.twice_top() < other.twice_bottom()
        &&& other.twice_top() < self.twice_bottom()
    }

    /// Whether the two boxes intersect; boxes that only touch do not.
    pub fn overlaps(&self, other: &Rect) -> (hit: bool)
        ensures
            hit == self.intersects(*other),
    {
        let left: i64 = 2 * (self.cx as i64) - self.w as i64;
        let right: i64 = 2 * (self.cx as i64) + self.w as i64;
        let top: i64 = 2 * (self.cy as i64) - self.h as i64;
        let bottom: i64 = 2 * (self.cy as i64) + self.h as i64;
        let other_left: i64 = 2 * (other.cx as i64) - other.w as i64;
        let other_right: i64 = 2 * (other.cx as i64) + other.w as i64;
        let other_top: i64 = 2 * (other.cy as i64) - other.h as i64;
        let other_bottom: i64 = 2 * (other.cy as i64) + other.h as i64;
        left < other_right && other_left < right && top < other_bottom && other_top < bottom
    }
}

/// The distance between two coordinates.
pub open spec fn gap(a: int, b: int) -> int {
    if a <= b {
        b - a
    } else {
        a - b
    }
}

/// A body: its centre, the side of its box, how fast it moves, and whether
/// it is due to be removed.
///
/// `speed` is a magnitude.  The direction belongs to the role: the player
/// follows the held keys, an enemy falls, a projectile rises.
#[derive(Clone, Copy, Debug, PartialEq, Eq)]
pub struct Entity {
    pub x: i32,
    pub y: i32,
    pub size: u32,
    pub speed: u32,
    pub marked_for_removal: bool,
}

impl Entity {
    /// A body that is not marked for removal.
    pub fn new(x: i32, y: i32, size: u32, speed: u32) -> (e: Entity)
        ensures
            e == (Entity { x, y, size, speed, marked_for_removal: false }),
    {
        Entity { x, y, size, speed, marked_for_removal: false }
    }

    /// The square of side `size` centred on the body.
    pub open spec fn frame(self) -> Rect {
        Rect { cx: self.x, cy: self.y, w: self.size, h: self.size }
    }

    /// The box that stands for the body in every collision test.
    pub fn bounding_box(&self) -> (r: Rect)
        ensures
            r == self.frame(),
    {
        Rect { cx: self.x, cy: self.y, w: self.size, h: self.size }
    }

    /// Two bodies collide when their centres are closer than half the sum of
    /// their sizes on both axes.
    pub open spec fn collides(self, other: Entity) -> bool {
        &&& 2 * gap(self.x as int, other.x as int) < self.size + other.size
        &&& 2 * gap(self.y as int, other.y as int) < self.size + other.size
    }

    /// Whether the boxes of the two bodies intersect.
    pub fn overlaps(&self, other: &Entity) -> (hit: bool)
        ensures
            hit == self.collides(*other),
            hit == self.frame().intersects(other.frame()),
    {
        let reach: i64 = self.size as i64 + other.size as i64;
        let dx: i64 = self.x as i64 - other.x as i64;
        let dy: i64 = self.y as i64 - other.y as i64;
        let gap_x: i64 = if dx < 0 { -dx } else { dx };
        let gap_y: i64 = if dy < 0 { -dy } else { dy };
        2 * gap_x < reach && 2 * gap_y < reach
    }

    /// The body after it has fallen for `dt` microseconds.
    pub open spec fn fallen(self, dt: u32) -> Entity {
        Entity { y: saturated(self.y + distance(self.speed, dt)) as i32, ..self }
    }

    /// The body after it has risen for `dt` microseconds.
    pub open spec fn risen(self, dt: u32) -> Entity {
        Entity { y: saturated(self.y - distance(self.speed, dt)) as i32, ..self }
    }

    /// Moves the body down the field by what it covers in `dt` microseconds.
    pub fn descend(&mut self, dt: u32)
        ensures
            *final(self) == old(self).fallen(dt),
    {
        let step: u64 = travel(self.speed, dt);
        self.y = saturate(self.y as i64 + step as i64);
    }

    /// Moves the body up the field by what it covers in `dt` microseconds.
    pub fn ascend(&mut self, dt: u32)
        ensures
            *final(self) == old(self).risen(dt),
    {
        let step: u64 = travel(self.speed, dt);
        self.y = saturate(self.y as i64 - step as i64);
    }

    /// The body after the held keys have moved it for `dt` microseconds.
    /// Opposite keys cancel.
    pub open spec fn steered(self, input: Input, dt: u32) -> Entity {
        Entity {
            x: saturated(self.x + input.shift_x(distance(self.speed, dt))) as i32,
            y: saturated(self.y + input.shift_y(distance(self.speed, dt))) as i32,
            ..self
        }
    }

    /// Moves the body as the held keys ask, at its own speed.
    pub fn steer(&mut self, input: &Input, dt: u32)
        ensures
            *final(self) == old(self).steered(*input, dt),
    {
        let step: i64 = travel(self.speed, dt) as i64;
        let mut dx: i64 = 0;
        let mut dy: i64 = 0;
        if input.left {
            dx = dx - step;
        }
        if input.right {
            dx = dx + step;
        }
        if input.up {
            dy = dy - step;
        }
        if input.down {
            dy = dy + step;
        }
        self.x = saturate(self.x as i64 + dx);
        self.y = saturate(self.y as i64 + dy);
    }

    /// Whether the centre lies on the field, edges included.
    pub open spec fn within(self, field: Field) -> bool {
        0 <= self.x <= field.width && 0 <= self.y <= field.height
    }

    /// The body with its centre brought onto the field.
    pub open spec fn clamped(self, field: Field) -> Entity {
        Entity {
            x: if self.x < 0 {
                0
            } else if self.x > field.width {
                field.width as i32
            } else {
                self.x
            },
            y: if self.y < 0 {
                0
            } else if self.y > field.height {
                field.height as i32
            } else {
                self.y
            },
            ..self
        }
    }

    /// Brings the centre onto the field: a coordinate below zero becomes
    /// zero, one past the far edge becomes that edge, any other stays.
    pub fn clamp_to(&mut self, field: &Field)
        ensures
            *final(self) == old(self).clamped(*field),
            final(self).within(*field),
    {
        if self.x < 0 {
            self.x = 0;
        } else if self.x as i64 > field.width as i64 {
            self.x = field.width as i32;
        }
        if self.y < 0 {
            self.y = 0;
        } else if self.y as i64 > field.height as i64 {
            self.y = field.height as i32;
        }
    }

    /// An enemy has left the field once its centre is a full size below the
    /// bottom edge.
    pub open spec fn fell_out(self, field: Field) -> bool {
        self.y >= field.height + self.size
    }

    /// A projectile has left the field once its centre is more than a full
    /// size above the top edge.
    pub open spec fn flew_out(self) -> bool {
        self.y < -(self.size as int)
    }

    /// Whether the body, taken as an enemy, has left the field.
    pub fn is_below(&self, field: &Field) -> (gone: bool)
        ensures
            gone == self.fell_out(*field),
    {
        self.y as i64 >= field.height as i64 + self.size as i64
    }

    /// Whether the body, taken as a projectile, has left the field.
    pub fn is_above(&self) -> (gone: bool)
        ensures
            gone == self.flew_out(),
    {
        (self.y as i64) < -(self.size as i64)
    }

    /// The body with its removal mark set.
    pub open spec fn marked(self) -> Entity {
        Entity { marked_for_removal: true, ..self }
    }
}

/// Which of two bodies is asked about the other does not matter.
pub proof fn lemma_overlap_symmetric(a: Entity, b: Entity)
    ensures
        a.collides(b) == b.collides(a),
{
}

/// The distance rule and the intersection of the two boxes say the same.
pub proof fn lemma_collision_is_box_intersection(a: Entity, b: Entity)
    ensures
        a.collides(b) == a.frame().intersects(b.frame()),
{
}

/// Clamping a body that is on the field changes nothing, so clamping twice
/// is clamping once.
pub proof fn lemma_clamp_settles(e: Entity, field: Field)
    ensures
        e.clamped(field).within(field),
        e.within(field) ==> e.clamped(field) == e,
        e.clamped(field).clamped(field) == e.clamped(field),
{
}

} // verus!
