//! What the player asked for during one tick.

use vstd::prelude::*;

verus! {

/// The input of one tick, as plain flags.
///
/// `fire`, `pause` and `resume` are presses: true on the tick on which the
/// key went down.  The four directions are held states.
#[derive(Clone, Copy, Debug, PartialEq, Eq)]
pub struct Input {
    pub fire: bool,
    pub pause: bool,
    pub resume: bool,
    pub left: bool,
    pub right: bool,
    pub up: bool,
    pub down: bool,
}

impl Input {
    /// No key pressed and none held.
    pub fn idle() -> (input: Input)
        ensures
            input == (Input {
                fire: false,
                pause: false,
                resume: false,
                left: false,
                right: false,
                up: false,
                down: false,
            }),
    {
        Input {
            fire: false,
            pause: false,
            resume: false,
            left: false,
            right: false,
            up: false,
            down: false,
        }
    }

    /// The move along x that the held keys ask for, where one key moves by
    /// `step`: right adds, left takes away, both together cancel.
    pub open spec fn shift_x(self, step: int) -> int {
        (if self.right { step } else { 0 }) - (if self.left { step } else { 0 })
    }

    /// The move along y that the held keys ask for.  Down adds, since y
    /// grows downward.
    pub open spec fn shift_y(self, step: int) -> int {
        (if self.down { step } else { 0 }) - (if self.up { step } else { 0 })
    }
}

} // verus!
