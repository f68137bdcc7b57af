//! One frame of the game: the four systems in their fixed order.
//!
//! Paddle control and ball motion do not read each other's components, so
//! their order does not matter and an embedding application may run them side
//! by side. Collision resolution needs the outcome of both, and win detection
//! needs the balls as collision resolution has left them.

use vstd::prelude::*;
use crate::collision::{collisions_resolved, collisions_skipped};
use crate::control::{control_skipped, paddles_controlled};
use crate::fixed::Fixed;
use crate::motion::{balls_moved, motion_skipped};
use crate::scoring::{scorer, winner_detected};
use crate::state::{Side, World, WorldModel};

verus! {

/// What happened in a frame besides the changes to the world.
#[derive(Clone, Copy, Debug, PartialEq, Eq)]
pub struct FrameReport {
    /// Paddles whose new position could not be stored; they did not move.
    pub paddles_skipped: usize,
    /// Balls whose new position could not be stored; they did not move.
    pub balls_unmoved: usize,
    /// Balls whose bounce could not be stored; they were not bounced.
    pub collisions_skipped: usize,
    /// The side that scored in this frame, if one did.
    pub scored: Option<Side>,
}

/// The world when the paddles and the balls have moved.
pub open spec fn after_motion(w: WorldModel, left_axis: int, right_axis: int, dt: int) -> WorldModel {
    balls_moved(paddles_controlled(w, left_axis, right_axis, dt), dt)
}

/// The world when the collisions of the frame are resolved.
pub open spec fn after_collisions(
    w: WorldModel,
    left_axis: int,
    right_axis: int,
    dt: int,
) -> WorldModel {
    collisions_resolved(after_motion(w, left_axis, right_axis, dt))
}

/// The world at the end of the frame.
pub open spec fn ticked(w: WorldModel, left_axis: int, right_axis: int, dt: int) -> WorldModel {
    winner_detected(after_collisions(w, left_axis, right_axis, dt))
}

impl World {
    /// Runs one frame: paddle control and ball motion, then collision
    /// resolution, then win detection.
    pub fn tick(&mut self, left_axis: Fixed, right_axis: Fixed, dt: Fixed) -> (report: FrameReport)
        ensures
            final(self)@ == ticked(old(self)@, left_axis@, right_axis@, dt@),
            report.paddles_skipped == control_skipped(old(self)@, left_axis@, right_axis@, dt@),
            report.balls_unmoved == motion_skipped(
                paddles_controlled(old(self)@, left_axis@, right_axis@, dt@),
                dt@,
            ),
            report.collisions_skipped == collisions_skipped(
                after_motion(old(self)@, left_axis@, right_axis@, dt@),
            ),
            report.scored == scorer(after_collisions(old(self)@, left_axis@, right_axis@, dt@)),
    {
        let paddles_skipped = self.control_paddles(left_axis, right_axis, dt);
        let balls_unmoved = self.move_balls(dt);
        let collisions_skipped = self.resolve_collisions();
        let scored = self.detect_winner();
        FrameReport { paddles_skipped, balls_unmoved, collisions_skipped, scored }
    }
}

} // verus!
