//! Collision resolution: walls first, then paddles.
//!
//! Overlap is tested once per frame, on the position that the ball has after
//! it has moved. A ball that travels farther in one frame than a paddle is
//! thick can therefore pass through it; the embedding application keeps the
//! time step small enough for the speeds it allows.

use vstd::prelude::*;
use crate::fixed::{Fixed, clamp, lemma_product_bounds, lemma_trunc_div_within, trunc_div};
use crate::state::{
    Arena, ArenaModel, Ball, BallModel, DegenerateState, Paddle, PaddleModel, World, WorldModel,
    ball_models, paddle_models,
};
use crate::scan::{count, first_index, lemma_count_ends, lemma_count_step, lemma_first_index};

verus! {

/// How far the ball reaches beyond the top wall, the line `y == 0`.
pub open spec fn top_penetration(b: BallModel) -> int {
    b.radius - b.y
}

/// How far the ball reaches beyond the bottom wall, the line `y == height`.
pub open spec fn bottom_penetration(b: BallModel, arena: ArenaModel) -> int {
    b.y + b.radius - arena.height
}

/// The ball reaches beyond one of the two walls.
pub open spec fn hits_wall(b: BallModel, arena: ArenaModel) -> bool {
    top_penetration(b) > 0 || bottom_penetration(b, arena) > 0
}

/// The ball after the walls have been resolved: where it penetrates a wall
/// it is pushed back by the depth of the penetration and `vy` is reversed.
/// The top wall is looked at first.
pub open spec fn wall_bounced(b: BallModel, arena: ArenaModel) -> BallModel {
    if top_penetration(b) > 0 {
        BallModel { y: b.y + top_penetration(b), vy: -b.vy, ..b }
    } else if bottom_penetration(b, arena) > 0 {
        BallModel { y: b.y - bottom_penetration(b, arena), vy: -b.vy, ..b }
    } else {
        b
    }
}

/// Distance between two coordinates.
pub open spec fn gap(a: int, b: int) -> int {
    if a >= b {
        a - b
    } else {
        b - a
    }
}

/// The ball's bounding square and the paddle's rectangle share an area.
pub open spec fn overlap(b: BallModel, p: PaddleModel) -> bool {
    &&& gap(b.x, p.x) < p.half_width + b.radius
    &&& gap(b.y, p.y) < p.half_height + b.radius
}

/// Where along the paddle's height the ball struck: its offset from the
/// paddle's centre, no farther than an edge.
pub open spec fn strike_offset(b: BallModel, p: PaddleModel) -> int {
    clamp(b.y - p.y, -p.half_height, p.half_height)
}

/// The change that a strike makes to `vy`: `max` times the strike offset as
/// a fraction of the paddle's half height, rounded toward zero. A paddle
/// without height deflects nothing.
pub open spec fn deflection(b: BallModel, p: PaddleModel, max: int) -> int {
    if p.half_height > 0 {
        trunc_div(max * strike_offset(b, p), p.half_height)
    } else {
        0
    }
}

/// The ball after it has struck the paddle: `vx` reversed, `vy` deflected.
pub open spec fn paddle_bounced(b: BallModel, p: PaddleModel, max: int) -> BallModel {
    BallModel { vx: -b.vx, vy: b.vy + deflection(b, p, max), ..b }
}

/// Index of the first paddle, in storage order, that the ball overlaps.
pub open spec fn first_struck(b: BallModel, paddles: Seq<PaddleModel>) -> Option<int> {
    first_index(paddles, |p: PaddleModel| overlap(b, p))
}

/// The ball after the paddles have been resolved: it bounces off the first
/// paddle that it overlaps, and off no other in the same frame.
pub open spec fn paddles_resolved(b: BallModel, paddles: Seq<PaddleModel>, max: int) -> BallModel {
    match first_struck(b, paddles) {
        Some(i) => paddle_bounced(b, paddles[i], max),
        None => b,
    }
}

/// Outcome of collision resolution for one ball. The walls are resolved
/// first and the paddles are tested against the corrected position. `None`
/// where one of the two steps gives a ball that cannot be stored.
pub open spec fn collision_outcome(
    b: BallModel,
    arena: ArenaModel,
    paddles: Seq<PaddleModel>,
    max: int,
) -> Option<BallModel> {
    let walled = wall_bounced(b, arena);
    let done = paddles_resolved(walled, paddles, max);
    if walled.storable() && done.storable() {
        Some(done)
    } else {
        None
    }
}

/// The ball after collision resolution, left as it was where the outcome
/// cannot be stored.
pub open spec fn settled(
    b: BallModel,
    arena: ArenaModel,
    paddles: Seq<PaddleModel>,
    max: int,
) -> BallModel {
    match collision_outcome(b, arena, paddles, max) {
        Some(done) => done,
        None => b,
    }
}

/// The world after collision resolution: every ball is settled against the
/// walls and the paddles; nothing else changes.
pub open spec fn collisions_resolved(w: WorldModel) -> WorldModel {
    WorldModel {
        balls: w.balls.map_values(|b: BallModel| settled(b, w.arena, w.paddles, w.max_deflection)),
        ..w
    }
}

/// Number of balls that collision resolution leaves as they were because
/// their outcome cannot be stored.
pub open spec fn collisions_skipped(w: WorldModel) -> nat {
    count(
        w.balls,
        |b: BallModel| collision_outcome(b, w.arena, w.paddles, w.max_deflection) is None,
    )
}

/// `first_struck` names the least index of an overlapping paddle, and is
/// `None` exactly when there is no such paddle.
pub proof fn lemma_first_struck(b: BallModel, paddles: Seq<PaddleModel>)
    ensures
        match first_struck(b, paddles) {
            Some(i) => {
                &&& 0 <= i < paddles.len()
                &&& overlap(b, paddles[i])
                &&& forall|j: int| 0 <= j < i ==> !overlap(b, #[trigger] paddles[j])
            },
            None => forall|j: int| 0 <= j < paddles.len() ==> !overlap(b, #[trigger] paddles[j]),
        },
{
    lemma_first_index(paddles, |p: PaddleModel| overlap(b, p));
}

/// A deflection is never larger than the configured maximum.
pub proof fn lemma_deflection_bounds(b: BallModel, p: PaddleModel, max: int)
    ensures
        max >= 0 ==> -max <= deflection(b, p, max) <= max,
        max <= 0 ==> max <= deflection(b, p, max) <= -max,
{
    let h = p.half_height;
    if h > 0 {
        let s = strike_offset(b, p);
        let n = max * s;
        let bound = if max >= 0 { max } else { -max };
        assert(-(bound * h) <= n <= bound * h) by (nonlinear_arith)
            requires
                n == max * s,
                bound == if max >= 0 { max } else { -max },
                -h <= s <= h,
                h > 0,
        ;
        lemma_trunc_div_within(n, h, bound);
    }
}

impl Ball {
    /// Resolves the top and bottom walls for this ball.
    pub fn bounce_off_walls(&self, arena: &Arena) -> (r: Result<Ball, DegenerateState>)
        ensures
            r is Ok <==> wall_bounced(self@, arena@).storable(),
            r matches Ok(b) ==> b@ == wall_bounced(self@, arena@),
    {
        let y = self.y.wide();
        let radius = self.radius.wide();
        let height = arena.height.wide();
        if radius - y > 0 {
            Ball::from_wide(self.x.wide(), radius, self.vx.wide(), -self.vy.wide(), radius)
        } else if y + radius - height > 0 {
            Ball::from_wide(self.x.wide(), height - radius, self.vx.wide(), -self.vy.wide(), radius)
        } else {
            Ok(*self)
        }
    }

    /// Whether the ball overlaps the paddle.
    pub fn overlaps(&self, paddle: &Paddle) -> (hit: bool)
        ensures
            hit == overlap(self@, paddle@),
    {
        let dx = if self.x.raw >= paddle.x.raw {
            self.x.wide() - paddle.x.wide()
        } else {
            paddle.x.wide() - self.x.wide()
        };
        let dy = if self.y.raw >= paddle.y.raw {
            self.y.wide() - paddle.y.wide()
        } else {
            paddle.y.wide() - self.y.wide()
        };
        dx < paddle.half_width.wide() + self.radius.wide() && dy < paddle.half_height.wide()
            + self.radius.wide()
    }

    /// The change that a strike on this paddle makes to the ball's `vy`.
    pub fn deflection(&self, paddle: &Paddle, max_deflection: Fixed) -> (d: i128)
        ensures
            d == deflection(self@, paddle@, max_deflection@),
    {
        let half = paddle.half_height.wide();
        if half <= 0 {
            return 0;
        }
        let offset = self.y.wide() - paddle.y.wide();
        let struck = if offset > half {
            half
        } else if offset < -half {
            -half
        } else {
            offset
        };
        proof {
            lemma_product_bounds(max_deflection@, struck as int);
        }
        (max_deflection.wide() * struck) / half
    }

    /// Bounces the ball off a paddle that it has struck.
    pub fn bounce_off_paddle(&self, paddle: &Paddle, max_deflection: Fixed) -> (r: Result<
        Ball,
        DegenerateState,
    >)
        ensures
            r is Ok <==> paddle_bounced(self@, paddle@, max_deflection@).storable(),
            r matches Ok(b) ==> b@ == paddle_bounced(self@, paddle@, max_deflection@),
    {
        let turn = self.deflection(paddle, max_deflection);
        proof {
            lemma_deflection_bounds(self@, paddle@, max_deflection@);
        }
        Ball::from_wide(
            self.x.wide(),
            self.y.wide(),
            -self.vx.wide(),
            self.vy.wide() + turn,
            self.radius.wide(),
        )
    }

    /// Index of the first paddle that the ball overlaps, if it overlaps one.
    pub fn first_struck(&self, paddles: &Vec<Paddle>) -> (r: Option<usize>)
        ensures
            r is Some <==> first_struck(self@, paddle_models(paddles@)) is Some,
            r matches Some(i) ==> i < paddles.len() && first_struck(
                self@,
                paddle_models(paddles@),
            ) == Some(i as int),
    {
        let mut i: usize = 0;
        while i < paddles.len()
            invariant
                i <= paddles.len(),
                forall|j: int| 0 <= j < i ==> !overlap(self@, #[trigger] paddle_models(paddles@)[j]),
            decreases paddles.len() - i,
        {
            if self.overlaps(&paddles[i]) {
                proof {
                    lemma_first_struck(self@, paddle_models(paddles@));
                    assert(overlap(self@, paddle_models(paddles@)[i as int]));
                }
                return Some(i);
            }
            i += 1;
        }
        proof {
            lemma_first_struck(self@, paddle_models(paddles@));
        }
        None
    }

    /// Resolves this ball against the walls and then against the paddles.
    pub fn collide(&self, arena: &Arena, paddles: &Vec<Paddle>, max_deflection: Fixed) -> (r:
        Result<Ball, DegenerateState>)
        ensures
            r is Ok <==> collision_outcome(
                self@,
                arena@,
                paddle_models(paddles@),
                max_deflection@,
            ) is Some,
            r matches Ok(b) ==> collision_outcome(
                self@,
                arena@,
                paddle_models(paddles@),
                max_deflection@,
            ) == Some(b@),
    {
        match self.bounce_off_walls(arena) {
            Err(e) => Err(e),
            Ok(walled) => match walled.first_struck(paddles) {
                None => Ok(walled),
                Some(i) => walled.bounce_off_paddle(&paddles[i], max_deflection),
            },
        }
    }
}

impl World {
    /// Collision resolution for every ball of the world. Returns how many
    /// balls were left untouched because their outcome cannot be stored.
    pub fn resolve_collisions(&mut self) -> (skipped: usize)
        ensures
            final(self)@ == collisions_resolved(old(self)@),
            skipped == collisions_skipped(old(self)@),
    {
        let ghost before = self@;
        let ghost unstorable = |b: BallModel|
            collision_outcome(b, before.arena, before.paddles, before.max_deflection) is None;
        let mut skipped: usize = 0;
        let mut i: usize = 0;
        proof {
            lemma_count_ends(before.balls, unstorable);
        }
        while i < self.balls.len()
            invariant
                i <= self.balls.len(),
                self.balls.len() == before.balls.len(),
                self.arena == old(self).arena,
                self.paddles == old(self).paddles,
                self.phase == old(self).phase,
                self.winner == old(self).winner,
                self.max_deflection == old(self).max_deflection,
                before == old(self)@,
                unstorable == (|b: BallModel|
                    collision_outcome(
                        b,
                        before.arena,
                        before.paddles,
                        before.max_deflection,
                    ) is None),
                forall|j: int|
                    0 <= j < i ==> (#[trigger] self.balls[j])@ == settled(
                        before.balls[j],
                        before.arena,
                        before.paddles,
                        before.max_deflection,
                    ),
                forall|j: int|
                    i <= j < self.balls.len() ==> (#[trigger] self.balls[j])@ == before.balls[j],
                skipped == count(before.balls.take(i as int), unstorable),
                skipped <= i,
            decreases self.balls.len() - i,
        {
            proof {
                lemma_count_step(before.balls, unstorable, i as int);
            }
            let ball = self.balls[i];
            match ball.collide(&self.arena, &self.paddles, self.max_deflection) {
                Ok(next) => {
                    self.balls.set(i, next);
                },
                Err(_) => {
                    skipped += 1;
                },
            }
            i += 1;
        }
        proof {
            lemma_count_ends(before.balls, unstorable);
            assert(ball_models(self.balls@) =~= collisions_resolved(before).balls);
        }
        skipped
    }
}

} // verus!
