//! Win detection and the round's state machine.
//!
//! A round is `Playing` until a ball leaves the arena on the left or on the
//! right. Win detection then records the side that scored and the round is
//! `PointScored`, where detection rests, so that a point is counted once.
//! What follows is the embedding application's choice: it serves again, which
//! returns the round to `Playing`, or it declares the round over.

use vstd::prelude::*;
use crate::fixed::{Fixed, trunc_div};
use crate::scan::{first_index, lemma_first_index};
use crate::state::{
    Arena, ArenaModel, Ball, BallModel, Phase, Side, World, WorldModel, ball_models,
};

verus! {

/// The side that scores when the ball is where it is: the right side once
/// the ball has crossed the left edge, the left side once it has crossed the
/// right edge.
pub open spec fn exit_side(b: BallModel, arena: ArenaModel) -> Option<Side> {
    if b.x < 0 {
        Some(Side::Right)
    } else if b.x > arena.width {
        Some(Side::Left)
    } else {
        None
    }
}

/// Index of the first ball, in storage order, that has left the arena.
pub open spec fn first_out(balls: Seq<BallModel>, arena: ArenaModel) -> Option<int> {
    first_index(balls, |b: BallModel| exit_side(b, arena) is Some)
}

/// The side that win detection reports: while the round is being played,
/// the side that the first ball outside the arena scores for.
pub open spec fn scorer(w: WorldModel) -> Option<Side> {
    if w.phase == Phase::Playing {
        match first_out(w.balls, w.arena) {
            Some(i) => exit_side(w.balls[i], w.arena),
            None => None,
        }
    } else {
        None
    }
}

/// The world after win detection: where a side scores, it is recorded as
/// the winner and the point is marked as scored.
pub open spec fn winner_detected(w: WorldModel) -> WorldModel {
    match scorer(w) {
        Some(side) => WorldModel { phase: Phase::PointScored, winner: Some(side), ..w },
        None => w,
    }
}

/// The ball at the centre of the arena with the given velocity.
pub open spec fn centred(b: BallModel, arena: ArenaModel, vx: int, vy: int) -> BallModel {
    BallModel { x: trunc_div(arena.width, 2), y: trunc_div(arena.height, 2), vx, vy, ..b }
}

/// The ball after a serve: a ball outside the arena returns to the centre
/// with the given velocity, a ball inside stays as it is.
pub open spec fn served_ball(b: BallModel, arena: ArenaModel, vx: int, vy: int) -> BallModel {
    if exit_side(b, arena) is Some {
        centred(b, arena, vx, vy)
    } else {
        b
    }
}

/// The world after a serve: once a point is scored, the balls outside the
/// arena are served and play resumes. In any other phase nothing changes.
pub open spec fn served(w: WorldModel, vx: int, vy: int) -> WorldModel {
    if w.phase == Phase::PointScored {
        WorldModel {
            balls: w.balls.map_values(|b: BallModel| served_ball(b, w.arena, vx, vy)),
            phase: Phase::Playing,
            ..w
        }
    } else {
        w
    }
}

/// The world after the round has been declared over, which can be done once
/// a point is scored. In any other phase nothing changes.
pub open spec fn round_ended(w: WorldModel) -> WorldModel {
    if w.phase == Phase::PointScored {
        WorldModel { phase: Phase::RoundOver, ..w }
    } else {
        w
    }
}

/// `first_out` names the least index of a ball outside the arena, and is
/// `None` exactly when every ball is inside.
pub proof fn lemma_first_out(balls: Seq<BallModel>, arena: ArenaModel)
    ensures
        match first_out(balls, arena) {
            Some(i) => {
                &&& 0 <= i < balls.len()
                &&& exit_side(balls[i], arena) is Some
                &&& forall|j: int| 0 <= j < i ==> exit_side(#[trigger] balls[j], arena) is None
            },
            None => forall|j: int|
                0 <= j < balls.len() ==> exit_side(#[trigger] balls[j], arena) is None,
        },
{
    lemma_first_index(balls, |b: BallModel| exit_side(b, arena) is Some);
}

impl Ball {
    /// The side that scores if the ball has left the arena.
    pub fn exit_side(&self, arena: &Arena) -> (side: Option<Side>)
        ensures
            side == exit_side(self@, arena@),
    {
        if self.x.raw < 0 {
            Some(Side::Right)
        } else if self.x.raw > arena.width.raw {
            Some(Side::Left)
        } else {
            None
        }
    }

    /// Puts the ball at the centre of the arena with the given velocity.
    pub fn centre(&self, arena: &Arena, vx: Fixed, vy: Fixed) -> (b: Ball)
        ensures
            b@ == centred(self@, arena@, vx@, vy@),
    {
        Ball {
            x: Fixed { raw: arena.width.raw / 2 },
            y: Fixed { raw: arena.height.raw / 2 },
            vx,
            vy,
            radius: self.radius,
        }
    }
}

impl World {
    /// Win detection. While the round is being played, the first ball that
    /// has left the arena decides the point: the side it scores for is
    /// recorded and returned, and the round waits for a serve. Otherwise
    /// nothing changes and nothing is returned.
    pub fn detect_winner(&mut self) -> (event: Option<Side>)
        ensures
            final(self)@ == winner_detected(old(self)@),
            event == scorer(old(self)@),
    {
        match self.phase {
            Phase::Playing => {},
            _ => {
                return None;
            },
        }
        let mut i: usize = 0;
        while i < self.balls.len()
            invariant
                i <= self.balls.len(),
                *self == *old(self),
                self.phase == Phase::Playing,
                forall|j: int|
                    0 <= j < i ==> exit_side(#[trigger] ball_models(self.balls@)[j], self.arena@)
                        is None,
            decreases self.balls.len() - i,
        {
            match self.balls[i].exit_side(&self.arena) {
                Some(side) => {
                    proof {
                        lemma_first_out(ball_models(self.balls@), self.arena@);
                        assert(exit_side(ball_models(self.balls@)[i as int], self.arena@) is Some);
                    }
                    self.phase = Phase::PointScored;
                    self.winner = Some(side);
                    return Some(side);
                },
                None => {},
            }
            i += 1;
        }
        proof {
            lemma_first_out(ball_models(self.balls@), self.arena@);
        }
        None
    }

    /// Serves after a point: every ball outside the arena returns to the
    /// centre with the velocity `(vx, vy)`, which the caller chooses afresh,
    /// and play resumes. Returns whether a point was waiting to be served.
    pub fn serve(&mut self, vx: Fixed, vy: Fixed) -> (resumed: bool)
        ensures
            final(self)@ == served(old(self)@, vx@, vy@),
            resumed == (old(self).phase == Phase::PointScored),
    {
        match self.phase {
            Phase::PointScored => {},
            _ => {
                return false;
            },
        }
        let ghost before = self@;
        let mut i: usize = 0;
        while i < self.balls.len()
            invariant
                i <= self.balls.len(),
                self.balls.len() == before.balls.len(),
                self.arena == old(self).arena,
                self.paddles == old(self).paddles,
                self.phase == old(self).phase,
                self.winner == old(self).winner,
                self.max_deflection == old(self).max_deflection,
                before == old(self)@,
                forall|j: int|
                    0 <= j < i ==> (#[trigger] self.balls[j])@ == served_ball(
                        before.balls[j],
                        before.arena,
                        vx@,
                        vy@,
                    ),
                forall|j: int|
                    i <= j < self.balls.len() ==> (#[trigger] self.balls[j])@ == before.balls[j],
            decreases self.balls.len() - i,
        {
            let ball = self.balls[i];
            if ball.exit_side(&self.arena).is_some() {
                let fresh = ball.centre(&self.arena, vx, vy);
                self.balls.set(i, fresh);
            }
            i += 1;
        }
        self.phase = Phase::Playing;
        proof {
            assert(ball_models(self.balls@) =~= served(before, vx@, vy@).balls);
        }
        true
    }

    /// Declares the round over, which can be done once a point is scored.
    /// Returns whether the round has ended by this call.
    pub fn end_round(&mut self) -> (ended: bool)
        ensures
            final(self)@ == round_ended(old(self)@),
            ended == (old(self).phase == Phase::PointScored),
    {
        match self.phase {
            Phase::PointScored => {
                self.phase = Phase::RoundOver;
                true
            },
            _ => false,
        }
    }
}

} // verus!
