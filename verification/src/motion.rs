//! Ball motion: each ball travels along its velocity for the elapsed time.

use vstd::prelude::*;
use crate::fixed::{Fixed, fx_mul, lemma_product_bounds};
use crate::state::{Ball, BallModel, DegenerateState, World, WorldModel, ball_models};
use crate::scan::{count, lemma_count_ends, lemma_count_step};

verus! {

/// The ball after it has travelled for `dt`: `position + velocity * dt`, with
/// each product rounded toward zero. Walls and paddles are not looked at.
pub open spec fn moved(b: BallModel, dt: int) -> BallModel {
    BallModel { x: b.x + fx_mul(b.vx, dt), y: b.y + fx_mul(b.vy, dt), ..b }
}

/// The ball after ball motion, left as it was where its new position cannot
/// be stored.
pub open spec fn advanced(b: BallModel, dt: int) -> BallModel {
    if moved(b, dt).storable() {
        moved(b, dt)
    } else {
        b
    }
}

/// The world after ball motion: every ball has travelled for `dt`; nothing
/// else changes.
pub open spec fn balls_moved(w: WorldModel, dt: int) -> WorldModel {
    WorldModel { balls: w.balls.map_values(|b: BallModel| advanced(b, dt)), ..w }
}

/// Number of balls that ball motion leaves as they were because their new
/// position cannot be stored.
pub open spec fn motion_skipped(w: WorldModel, dt: int) -> nat {
    count(w.balls, |b: BallModel| !moved(b, dt).storable())
}

impl Ball {
    /// Moves the ball along its velocity for `dt`.
    pub fn advance(&self, dt: Fixed) -> (r: Result<Ball, DegenerateState>)
        ensures
            r is Ok <==> moved(self@, dt@).storable(),
            r matches Ok(b) ==> b@ == moved(self@, dt@),
    {
        proof {
            lemma_product_bounds(self.vx@, dt@);
            lemma_product_bounds(self.vy@, dt@);
        }
        Ball::from_wide(
            self.x.wide() + self.vx.times(dt),
            self.y.wide() + self.vy.times(dt),
            self.vx.wide(),
            self.vy.wide(),
            self.radius.wide(),
        )
    }
}

impl World {
    /// Ball motion for every ball of the world; with no ball it does nothing.
    /// Returns how many balls were left untouched because their new position
    /// cannot be stored.
    pub fn move_balls(&mut self, dt: Fixed) -> (skipped: usize)
        ensures
            final(self)@ == balls_moved(old(self)@, dt@),
            skipped == motion_skipped(old(self)@, dt@),
    {
        let ghost before = self@;
        let ghost unstorable = |b: BallModel| !moved(b, dt@).storable();
        let mut skipped: usize = 0;
        let mut i: usize = 0;
        proof {
            lemma_count_ends(before.balls, unstorable);
        }
        while i < self.balls.len()
            invariant
                i <= self.balls.len(),
                self.balls.len() == before.balls.len(),
                self.arena == old(self).arena,
                self.paddles == old(self).paddles,
                self.phase == old(self).phase,
                self.winner == old(self).winner,
                self.max_deflection == old(self).max_deflection,
                before == old(self)@,
                unstorable == (|b: BallModel| !moved(b, dt@).storable()),
                forall|j: int|
                    0 <= j < i ==> (#[trigger] self.balls[j])@ == advanced(before.balls[j], dt@),
                forall|j: int|
                    i <= j < self.balls.len() ==> (#[trigger] self.balls[j])@ == before.balls[j],
                skipped == count(before.balls.take(i as int), unstorable),
                skipped <= i,
            decreases self.balls.len() - i,
        {
            proof {
                lemma_count_step(before.balls, unstorable, i as int);
            }
            let ball = self.balls[i];
            match ball.advance(dt) {
                Ok(next) => {
                    self.balls.set(i, next);
                },
                Err(_) => {
                    skipped += 1;
                },
            }
            i += 1;
        }
        proof {
            lemma_count_ends(before.balls, unstorable);
            assert(ball_models(self.balls@) =~= balls_moved(before, dt@).balls);
        }
        skipped
    }
}

} // verus!
