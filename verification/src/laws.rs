//! What holds of the rules for every input, proved from their definitions.

use vstd::prelude::*;
use crate::collision::{
    collisions_resolved, deflection, first_struck, hits_wall, lemma_deflection_bounds,
    paddle_bounced, settled, wall_bounced,
};
use crate::control::{axis_of, control_skipped, paddles_controlled, steered};
use crate::fixed::{SCALE, fx_mul, representable};
use crate::frame::{after_collisions, ticked};
use crate::motion::{balls_moved, motion_skipped, moved};
use crate::scoring::{
    exit_side, lemma_first_out, round_ended, scorer, served, served_ball, winner_detected,
};
use crate::state::{ArenaModel, BallModel, PaddleModel, Phase, WorldModel};

verus! {

/// Size of a number without its sign.
pub open spec fn magnitude(v: int) -> int {
    if v >= 0 {
        v
    } else {
        -v
    }
}

/// Fixed-point products treat both directions alike and know their unit:
/// reversing a factor reverses the product, the factors can change places,
/// and a product with one or with zero is exact.
pub proof fn law_product_is_symmetric(a: int, b: int)
    ensures
        fx_mul(-a, b) == -fx_mul(a, b),
        fx_mul(a, -b) == -fx_mul(a, b),
        fx_mul(a, b) == fx_mul(b, a),
        fx_mul(a, SCALE as int) == a,
        fx_mul(a, 0) == 0,
{
    assert((-a) * b == -(a * b) && a * (-b) == -(a * b) && a * b == b * a && a * 0 == 0)
        by (nonlinear_arith);
}

/// Motion integrates exactly: the new position is the old one plus velocity
/// times elapsed time, and nothing else about the ball changes.
pub proof fn law_motion_is_exact(b: BallModel, dt: int)
    ensures
        moved(b, dt).x == b.x + fx_mul(b.vx, dt),
        moved(b, dt).y == b.y + fx_mul(b.vy, dt),
        moved(b, dt).vx == b.vx,
        moved(b, dt).vy == b.vy,
        moved(b, dt).radius == b.radius,
        moved(b, 0) == b,
{
}

/// A ball that meets neither a wall nor a paddle ends the frame exactly where
/// its velocity has taken it, with its velocity unchanged, provided that the
/// new position can be stored.
pub proof fn law_free_flight(w: WorldModel, left_axis: int, right_axis: int, dt: int, i: int)
    requires
        0 <= i < w.balls.len(),
        moved(w.balls[i], dt).storable(),
        !hits_wall(moved(w.balls[i], dt), w.arena),
        first_struck(
            moved(w.balls[i], dt),
            paddles_controlled(w, left_axis, right_axis, dt).paddles,
        ) is None,
    ensures
        ticked(w, left_axis, right_axis, dt).balls[i] == moved(w.balls[i], dt),
{
}

/// A wall bounce reverses `vy` and keeps its size; `vx` and the speed of the
/// ball stay as they were.
pub proof fn law_wall_bounce_reverses_vy(b: BallModel, arena: ArenaModel)
    requires
        hits_wall(b, arena),
    ensures
        wall_bounced(b, arena).vy == -b.vy,
        magnitude(wall_bounced(b, arena).vy) == magnitude(b.vy),
        wall_bounced(b, arena).vx == b.vx,
        wall_bounced(b, arena).speed_squared() == b.speed_squared(),
{
    assert((-b.vy) * (-b.vy) == b.vy * b.vy) by (nonlinear_arith);
}

/// After the walls are resolved, a ball that fits between them touches a
/// wall at most, so resolving them again changes nothing.
pub proof fn law_wall_bounce_clears_wall(b: BallModel, arena: ArenaModel)
    requires
        b.fits(arena),
    ensures
        !hits_wall(wall_bounced(b, arena), arena),
        wall_bounced(wall_bounced(b, arena), arena) == wall_bounced(b, arena),
{
}

/// A paddle bounce reverses `vx` and leaves the position alone. Where the
/// strike deflects nothing, it keeps the speed of the ball as well.
pub proof fn law_paddle_bounce_reverses_vx(b: BallModel, p: PaddleModel, max: int)
    ensures
        paddle_bounced(b, p, max).vx == -b.vx,
        paddle_bounced(b, p, max).vy == b.vy + deflection(b, p, max),
        paddle_bounced(b, p, max).x == b.x,
        paddle_bounced(b, p, max).y == b.y,
        deflection(b, p, max) == 0 ==> paddle_bounced(b, p, max).speed_squared()
            == b.speed_squared(),
{
    assert((-b.vx) * (-b.vx) == b.vx * b.vx) by (nonlinear_arith);
}

/// With no deflection configured, collision resolution as a whole keeps the
/// speed of every ball.
pub proof fn law_collision_keeps_speed(
    b: BallModel,
    arena: ArenaModel,
    paddles: Seq<PaddleModel>,
)
    ensures
        settled(b, arena, paddles, 0).speed_squared() == b.speed_squared(),
{
    let walled = wall_bounced(b, arena);
    assert((-b.vy) * (-b.vy) == b.vy * b.vy) by (nonlinear_arith);
    assert(walled.speed_squared() == b.speed_squared());
    match first_struck(walled, paddles) {
        Some(i) => {
            lemma_deflection_bounds(walled, paddles[i], 0);
            assert((-walled.vx) * (-walled.vx) == walled.vx * walled.vx) by (nonlinear_arith);
        },
        None => {},
    }
}

/// The deflection grows with the distance of the strike from the paddle's
/// centre: none at the centre, the configured maximum at an edge and beyond,
/// with the sign of the side that was struck, and never more than that.
pub proof fn law_deflection_scale(b: BallModel, p: PaddleModel, max: int)
    requires
        p.half_height > 0,
    ensures
        b.y == p.y ==> deflection(b, p, max) == 0,
        b.y - p.y >= p.half_height ==> deflection(b, p, max) == max,
        b.y - p.y <= -p.half_height ==> deflection(b, p, max) == -max,
        magnitude(deflection(b, p, max)) <= magnitude(max),
{
    let h = p.half_height;
    lemma_deflection_bounds(b, p, max);
    assert(max * 0 == 0) by (nonlinear_arith);
    assert((max * h) / h == max && ((-max) * h) / h == -max) by (nonlinear_arith)
        requires
            h > 0,
    ;
    assert(max * (-h) == -(max * h) && (-max) * h == -(max * h)) by (nonlinear_arith);
    assert(max >= 0 ==> max * h >= 0) by (nonlinear_arith)
        requires
            h > 0,
    ;
    assert(max < 0 ==> max * h < 0) by (nonlinear_arith)
        requires
            h > 0,
    ;
}

/// A paddle that fits its arena is steered to a position between the walls,
/// whatever the axis value and the elapsed time, and keeps its dimensions.
pub proof fn law_steered_paddle_is_in_range(
    p: PaddleModel,
    arena: ArenaModel,
    axis: int,
    dt: int,
)
    requires
        p.fits(arena),
    ensures
        steered(p, arena, axis, dt).in_range(arena),
        steered(p, arena, axis, dt).fits(arena),
        steered(p, arena, axis, dt) == (PaddleModel { y: steered(p, arena, axis, dt).y, ..p }),
{
}

/// A paddle that fits the arena is held between the walls by paddle control,
/// whatever the axis value and the elapsed time, and paddle control never has
/// to leave it untouched.
pub proof fn law_paddle_stays_in_arena(
    w: WorldModel,
    left_axis: int,
    right_axis: int,
    dt: int,
    i: int,
)
    requires
        0 <= i < w.paddles.len(),
        w.paddles[i].fits(w.arena),
        representable(w.arena.height),
    ensures
        paddles_controlled(w, left_axis, right_axis, dt).paddles[i] == steered(
            w.paddles[i],
            w.arena,
            axis_of(w.paddles[i].side, left_axis, right_axis),
            dt,
        ),
        paddles_controlled(w, left_axis, right_axis, dt).paddles[i].in_range(w.arena),
        ticked(w, left_axis, right_axis, dt).paddles[i].in_range(w.arena),
{
}

/// Only paddle control moves a paddle, and it moves it along y alone; the
/// arena and the configured deflection never change in a frame, and no
/// paddle or ball appears or disappears.
pub proof fn law_frame_keeps_layout(w: WorldModel, left_axis: int, right_axis: int, dt: int)
    ensures
        ticked(w, left_axis, right_axis, dt).arena == w.arena,
        ticked(w, left_axis, right_axis, dt).max_deflection == w.max_deflection,
        ticked(w, left_axis, right_axis, dt).paddles == paddles_controlled(
            w,
            left_axis,
            right_axis,
            dt,
        ).paddles,
        ticked(w, left_axis, right_axis, dt).paddles.len() == w.paddles.len(),
        ticked(w, left_axis, right_axis, dt).balls.len() == w.balls.len(),
        forall|i: int|
            0 <= i < w.paddles.len() ==> (#[trigger] ticked(
                w,
                left_axis,
                right_axis,
                dt,
            ).paddles[i]) == (PaddleModel {
                y: ticked(w, left_axis, right_axis, dt).paddles[i].y,
                ..w.paddles[i]
            }),
{
}

/// A system with no entity of its kind does nothing: paddle control
/// without paddles, and ball motion, collision resolution and win detection
/// without balls, leave the world as it is.
pub proof fn law_no_entity_no_change(w: WorldModel, left_axis: int, right_axis: int, dt: int)
    ensures
        w.paddles.len() == 0 ==> paddles_controlled(w, left_axis, right_axis, dt) == w,
        w.balls.len() == 0 ==> balls_moved(w, dt) == w,
        w.balls.len() == 0 ==> collisions_resolved(w) == w,
        w.balls.len() == 0 ==> winner_detected(w) == w,
{
    if w.paddles.len() == 0 {
        assert(paddles_controlled(w, left_axis, right_axis, dt).paddles =~= w.paddles);
    }
    if w.balls.len() == 0 {
        assert(balls_moved(w, dt).balls =~= w.balls);
        assert(collisions_resolved(w).balls =~= w.balls);
        lemma_first_out(w.balls, w.arena);
    }
}

/// Paddle control and ball motion do not depend on each other: in either
/// order they give the same world and leave the same entities untouched.
pub proof fn law_control_and_motion_commute(
    w: WorldModel,
    left_axis: int,
    right_axis: int,
    dt: int,
)
    ensures
        balls_moved(paddles_controlled(w, left_axis, right_axis, dt), dt) == paddles_controlled(
            balls_moved(w, dt),
            left_axis,
            right_axis,
            dt,
        ),
        motion_skipped(paddles_controlled(w, left_axis, right_axis, dt), dt) == motion_skipped(
            w,
            dt,
        ),
        control_skipped(balls_moved(w, dt), left_axis, right_axis, dt) == control_skipped(
            w,
            left_axis,
            right_axis,
            dt,
        ),
{
    let one = balls_moved(paddles_controlled(w, left_axis, right_axis, dt), dt);
    let other = paddles_controlled(balls_moved(w, dt), left_axis, right_axis, dt);
    assert(one.paddles =~= other.paddles);
    assert(one.balls =~= other.balls);
}

/// A well-formed world is well formed after every frame, and after a serve.
pub proof fn law_frame_keeps_well_formed(
    w: WorldModel,
    left_axis: int,
    right_axis: int,
    dt: int,
    vx: int,
    vy: int,
)
    requires
        w.well_formed(),
    ensures
        ticked(w, left_axis, right_axis, dt).well_formed(),
        served(w, vx, vy).well_formed(),
{
    let next = ticked(w, left_axis, right_axis, dt);
    assert forall|i: int| 0 <= i < next.balls.len() implies (#[trigger] next.balls[i]).fits(
        next.arena,
    ) by {
        assert(w.balls[i].fits(w.arena));
    }
    assert forall|i: int| 0 <= i < next.paddles.len() implies (#[trigger] next.paddles[i]).fits(
        next.arena,
    ) && next.paddles[i].in_range(next.arena) by {
        assert(w.paddles[i].fits(w.arena) && w.paddles[i].in_range(w.arena));
    }
    let again = served(w, vx, vy);
    assert forall|i: int| 0 <= i < again.balls.len() implies (#[trigger] again.balls[i]).fits(
        again.arena,
    ) by {
        assert(w.balls[i].fits(w.arena));
    }
    assert forall|i: int| 0 <= i < again.paddles.len() implies (#[trigger] again.paddles[i]).fits(
        again.arena,
    ) && again.paddles[i].in_range(again.arena) by {
        assert(w.paddles[i].fits(w.arena) && w.paddles[i].in_range(w.arena));
    }
}

/// The round moves from playing to a scored point by win detection alone,
/// from a scored point back to playing by a serve alone, and to its end by
/// a declaration alone. A finished round stays finished, and only win
/// detection names a winner.
pub proof fn law_round_follows_its_phases(
    w: WorldModel,
    left_axis: int,
    right_axis: int,
    dt: int,
    vx: int,
    vy: int,
)
    ensures
        winner_detected(w).phase == (if scorer(w) is Some {
            Phase::PointScored
        } else {
            w.phase
        }),
        winner_detected(w).winner == (if scorer(w) is Some {
            scorer(w)
        } else {
            w.winner
        }),
        scorer(w) is Some ==> w.phase == Phase::Playing,
        served(w, vx, vy).phase == (if w.phase == Phase::PointScored {
            Phase::Playing
        } else {
            w.phase
        }),
        round_ended(w).phase == (if w.phase == Phase::PointScored {
            Phase::RoundOver
        } else {
            w.phase
        }),
        w.phase == Phase::RoundOver ==> ticked(w, left_axis, right_axis, dt).phase
            == Phase::RoundOver && served(w, vx, vy) == w && round_ended(w) == w,
        served(w, vx, vy).winner == w.winner,
        round_ended(w).winner == w.winner,
        after_collisions(w, left_axis, right_axis, dt).winner == w.winner,
        after_collisions(w, left_axis, right_axis, dt).phase == w.phase,
{
}

/// Win detection counts a point once: run again on its own outcome it
/// reports nothing and changes nothing.
pub proof fn law_detection_counts_once(w: WorldModel)
    ensures
        scorer(winner_detected(w)) is None,
        winner_detected(winner_detected(w)) == winner_detected(w),
{
    lemma_first_out(w.balls, w.arena);
}

/// A served ball is inside the arena.
pub proof fn law_served_ball_is_inside(b: BallModel, arena: ArenaModel, vx: int, vy: int)
    requires
        arena.width >= 0,
    ensures
        exit_side(served_ball(b, arena, vx, vy), arena) is None,
{
}

/// After a point has been detected and served, win detection reports
/// nothing: the ball that scored is back inside and is not counted again.
pub proof fn law_no_point_after_serve(w: WorldModel, vx: int, vy: int)
    requires
        w.arena.width >= 0,
    ensures
        scorer(served(winner_detected(w), vx, vy)) is None,
        winner_detected(served(winner_detected(w), vx, vy)) == served(winner_detected(w), vx, vy),
{
    let detected = winner_detected(w);
    let again = served(detected, vx, vy);
    lemma_first_out(w.balls, w.arena);
    lemma_first_out(detected.balls, detected.arena);
    lemma_first_out(again.balls, again.arena);
    if detected.phase == Phase::PointScored {
        assert forall|j: int| 0 <= j < again.balls.len() implies exit_side(
            #[trigger] again.balls[j],
            again.arena,
        ) is None by {
            law_served_ball_is_inside(detected.balls[j], detected.arena, vx, vy);
        }
    }
}

} // verus!
