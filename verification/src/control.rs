//! Paddle control: a paddle follows its input axis and stays in the arena.

use vstd::prelude::*;
use crate::fixed::{Fixed, SCALE, clamp, fx_mul, lemma_product_bounds, representable};
use crate::state::{
    Arena, ArenaModel, DegenerateState, Paddle, PaddleModel, Side, World, WorldModel,
    paddle_models,
};
use crate::scan::{count, lemma_count_ends, lemma_count_step};

verus! {

/// Distance that a paddle is asked to travel: `axis * speed * dt`, each
/// product rounded toward zero.
pub open spec fn travel(axis: int, speed: int, dt: int) -> int {
    fx_mul(fx_mul(axis, speed), dt)
}

/// The paddle after it has followed its axis for `dt`: it travels along y
/// and is held at the wall that it would cross.
pub open spec fn steered(p: PaddleModel, arena: ArenaModel, axis: int, dt: int) -> PaddleModel {
    PaddleModel {
        y: clamp(p.y + travel(axis, p.speed, dt), p.lowest(), p.highest(arena)),
        ..p
    }
}

/// The axis that steers a paddle of the given side.
pub open spec fn axis_of(side: Side, left_axis: int, right_axis: int) -> int {
    match side {
        Side::Left => left_axis,
        Side::Right => right_axis,
    }
}

/// The paddle after paddle control, left as it was where its new position
/// cannot be stored.
pub open spec fn controlled(
    p: PaddleModel,
    arena: ArenaModel,
    left_axis: int,
    right_axis: int,
    dt: int,
) -> PaddleModel {
    let next = steered(p, arena, axis_of(p.side, left_axis, right_axis), dt);
    if representable(next.y) {
        next
    } else {
        p
    }
}

/// The world after paddle control: every paddle has followed the axis of its
/// side; nothing else changes.
pub open spec fn paddles_controlled(
    w: WorldModel,
    left_axis: int,
    right_axis: int,
    dt: int,
) -> WorldModel {
    WorldModel {
        paddles: w.paddles.map_values(
            |p: PaddleModel| controlled(p, w.arena, left_axis, right_axis, dt),
        ),
        ..w
    }
}

/// Number of paddles that paddle control leaves as they were because their
/// new position cannot be stored.
pub open spec fn control_skipped(w: WorldModel, left_axis: int, right_axis: int, dt: int) -> nat {
    count(
        w.paddles,
        |p: PaddleModel|
            !representable(steered(p, w.arena, axis_of(p.side, left_axis, right_axis), dt).y),
    )
}

/// The sign of a product of two nonzero factors.
proof fn lemma_product_sign(a: int, b: int)
    ensures
        (a > 0 && b > 0) || (a < 0 && b < 0) ==> a * b > 0,
        (a > 0 && b < 0) || (a < 0 && b > 0) ==> a * b < 0,
        a == 0 || b == 0 ==> a * b == 0,
{
    assert((a > 0 && b > 0) || (a < 0 && b < 0) ==> a * b > 0) by (nonlinear_arith);
    assert((a > 0 && b < 0) || (a < 0 && b > 0) ==> a * b < 0) by (nonlinear_arith);
    assert(a == 0 || b == 0 ==> a * b == 0) by (nonlinear_arith);
}

impl Paddle {
    /// Moves the paddle along y by `axis * speed * dt` and holds it between
    /// the walls. An axis value of any magnitude is accepted.
    pub fn steer(&self, arena: &Arena, axis: Fixed, dt: Fixed) -> (r: Result<
        Paddle,
        DegenerateState,
    >)
        ensures
            r is Ok <==> representable(steered(self@, arena@, axis@, dt@).y),
            r matches Ok(p) ==> p@ == steered(self@, arena@, axis@, dt@),
            self@.fits(arena@) ==> (r matches Ok(p) && p@.in_range(arena@)),
    {
        let push = axis.times(self.speed);
        let lowest = self.half_height.wide();
        let highest = arena.height.wide() - self.half_height.wide();
        proof {
            lemma_product_bounds(axis@, self.speed@);
            lemma_product_sign(push as int, dt@);
        }
        let target: i128 = match push.checked_mul(dt.wide()) {
            Some(product) => {
                let wish = self.y.wide() + product / (SCALE as i128);
                let capped = if wish > highest {
                    highest
                } else {
                    wish
                };
                if capped < lowest {
                    lowest
                } else {
                    capped
                }
            },
            None => {
                // The product has left 128 bits, so the paddle is asked to go
                // far beyond a wall: which one, the signs tell.
                if (push > 0) == (dt.raw > 0) && highest >= lowest {
                    highest
                } else {
                    lowest
                }
            },
        };
        match Fixed::narrow(target) {
            Some(y) => Ok(
                Paddle {
                    side: self.side,
                    x: self.x,
                    y,
                    half_width: self.half_width,
                    half_height: self.half_height,
                    speed: self.speed,
                },
            ),
            None => Err(DegenerateState),
        }
    }
}

impl World {
    /// Paddle control for every paddle of the world: a left paddle follows
    /// `left_axis`, a right paddle `right_axis`. Returns how many paddles
    /// were left untouched because their new position cannot be stored.
    pub fn control_paddles(&mut self, left_axis: Fixed, right_axis: Fixed, dt: Fixed) -> (skipped:
        usize)
        ensures
            final(self)@ == paddles_controlled(old(self)@, left_axis@, right_axis@, dt@),
            skipped == control_skipped(old(self)@, left_axis@, right_axis@, dt@),
    {
        let ghost before = self@;
        let ghost unstorable = |p: PaddleModel|
            !representable(
                steered(p, before.arena, axis_of(p.side, left_axis@, right_axis@), dt@).y,
            );
        let mut skipped: usize = 0;
        let mut i: usize = 0;
        proof {
            lemma_count_ends(before.paddles, unstorable);
        }
        while i < self.paddles.len()
            invariant
                i <= self.paddles.len(),
                self.paddles.len() == before.paddles.len(),
                self.arena == old(self).arena,
                self.balls == old(self).balls,
                self.phase == old(self).phase,
                self.winner == old(self).winner,
                self.max_deflection == old(self).max_deflection,
                before == old(self)@,
                unstorable == (|p: PaddleModel|
                    !representable(
                        steered(
                            p,
                            before.arena,
                            axis_of(p.side, left_axis@, right_axis@),
                            dt@,
                        ).y,
                    )),
                forall|j: int|
                    0 <= j < i ==> (#[trigger] self.paddles[j])@ == controlled(
                        before.paddles[j],
                        before.arena,
                        left_axis@,
                        right_axis@,
                        dt@,
                    ),
                forall|j: int|
                    i <= j < self.paddles.len() ==> (#[trigger] self.paddles[j])@
                        == before.paddles[j],
                skipped == count(before.paddles.take(i as int), unstorable),
                skipped <= i,
            decreases self.paddles.len() - i,
        {
            proof {
                lemma_count_step(before.paddles, unstorable, i as int);
            }
            let paddle = self.paddles[i];
            let axis = match paddle.side {
                Side::Left => left_axis,
                Side::Right => right_axis,
            };
            match paddle.steer(&self.arena, axis, dt) {
                Ok(next) => {
                    self.paddles.set(i, next);
                },
                Err(_) => {
                    skipped += 1;
                },
            }
            i += 1;
        }
        proof {
            lemma_count_ends(before.paddles, unstorable);
            assert(paddle_models(self.paddles@) =~= paddles_controlled(
                before,
                left_axis@,
                right_axis@,
                dt@,
            ).paddles);
        }
        skipped
    }
}

} // verus!
