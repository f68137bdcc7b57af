use pong_core::{Arena, Ball, Fixed, FrameReport, Paddle, Phase, Side, World};

fn ball(x: i32, y: i32, vx: i32, vy: i32) -> Ball {
    Ball {
        x: Fixed::from_int(x),
        y: Fixed::from_int(y),
        vx: Fixed::from_int(vx),
        vy: Fixed::from_int(vy),
        radius: Fixed::from_int(10),
    }
}

fn paddle(side: Side, x: i32, y: i32) -> Paddle {
    Paddle {
        side,
        x: Fixed::from_int(x),
        y: Fixed::from_int(y),
        half_width: Fixed::from_int(4),
        half_height: Fixed::from_int(40),
        speed: Fixed::from_int(300),
    }
}

fn world() -> World {
    let arena = Arena { width: Fixed::from_int(640), height: Fixed::from_int(480) };
    let mut world = World::new(arena, Fixed::from_int(120));
    world.paddles.push(paddle(Side::Left, 8, 240));
    world.paddles.push(paddle(Side::Right, 632, 240));
    world
}

const QUIET: FrameReport =
    FrameReport { paddles_skipped: 0, balls_unmoved: 0, collisions_skipped: 0, scored: None };

#[test]
fn free_ball_ends_the_frame_where_its_velocity_takes_it() {
    let mut w = world();
    w.balls.push(ball(320, 240, 100, -50));
    // (320, 240) + (100, -50) * 0.1
    let report = w.tick(Fixed::from_int(0), Fixed::from_int(0), Fixed::from_raw(100_000));
    assert_eq!(report, QUIET);
    assert_eq!(w.balls, vec![ball(330, 235, 100, -50)]);
    assert_eq!(w.paddles, world().paddles);
    assert_eq!(w.phase, Phase::Playing);
    assert_eq!(w.winner, None);
}

#[test]
fn frame_moves_then_bounces() {
    let mut w = world();
    // Reaches (100, -10) and is returned by the top wall.
    w.balls.push(ball(100, 10, 0, -50));
    let report = w.tick(Fixed::from_int(0), Fixed::from_int(0), Fixed::from_raw(400_000));
    assert_eq!(report, QUIET);
    assert_eq!(w.balls, vec![ball(100, 10, 0, 50)]);
}

#[test]
fn collision_sees_the_paddles_where_control_has_put_them() {
    let mut w = world();
    // The ball reaches (15, 300). The left paddle reaches y = 270, where it
    // spans 230..310; from y = 240 it would not have met the ball.
    w.balls.push(ball(25, 300, -100, 0));
    let report = w.tick(Fixed::from_int(1), Fixed::from_int(-1), Fixed::from_raw(100_000));
    assert_eq!(report, QUIET);
    assert_eq!(w.paddles, vec![paddle(Side::Left, 8, 270), paddle(Side::Right, 632, 210)]);
    // 120 * (300 - 270) / 40 = 90
    assert_eq!(w.balls, vec![ball(15, 300, 100, 90)]);
}

#[test]
fn frame_reports_the_point() {
    let mut w = world();
    w.balls.push(ball(3, 100, -100, 0));
    let report = w.tick(Fixed::from_int(0), Fixed::from_int(0), Fixed::from_raw(100_000));
    assert_eq!(report, FrameReport { scored: Some(Side::Right), ..QUIET });
    assert_eq!(w.balls, vec![ball(-7, 100, -100, 0)]);
    assert_eq!(w.phase, Phase::PointScored);
    assert_eq!(w.winner, Some(Side::Right));
    // The ball flies on, and the point is not counted again.
    let report = w.tick(Fixed::from_int(0), Fixed::from_int(0), Fixed::from_raw(100_000));
    assert_eq!(report, QUIET);
    assert_eq!(w.balls, vec![ball(-17, 100, -100, 0)]);
    assert_eq!(w.phase, Phase::PointScored);
}

#[test]
fn frame_reports_what_it_could_not_store() {
    let mut w = world();
    w.arena.height = Fixed::from_raw(i64::MAX);
    w.paddles[0].half_height = Fixed::from_raw(-1);
    w.paddles[0].speed = Fixed::from_raw(i64::MAX);
    let unmoved = Ball { x: Fixed::from_raw(i64::MAX), ..ball(0, 240, 1, 0) };
    let unbounced = Ball { vy: Fixed::from_raw(i64::MIN), ..ball(320, -50, 0, 0) };
    w.balls.push(unmoved);
    w.balls.push(unbounced);
    w.balls.push(ball(320, 240, 10, 10));
    let before = w.clone();
    let far = Fixed::from_raw(i64::MAX);
    let report = w.tick(far, Fixed::from_int(0), Fixed::from_raw(0));
    assert_eq!(
        report,
        FrameReport {
            paddles_skipped: 0,
            balls_unmoved: 0,
            collisions_skipped: 1,
            scored: Some(Side::Left),
        }
    );
    assert_eq!(w.balls, before.balls);
    let report = {
        let mut w = before.clone();
        w.tick(far, Fixed::from_int(0), Fixed::from_int(1))
    };
    assert_eq!(report.paddles_skipped, 1);
    assert_eq!(report.balls_unmoved, 2);
}

#[test]
fn paddles_stay_in_the_arena_frame_after_frame() {
    let mut w = world();
    w.balls.push(ball(320, 240, 3, 4));
    let dt = Fixed::from_raw(16_667);
    for frame in 0..600 {
        let axis = if frame % 200 < 150 { 3 } else { -7 };
        w.tick(Fixed::from_int(axis), Fixed::from_int(-axis), dt);
        for p in &w.paddles {
            assert!(p.y.raw() >= 40_000_000 && p.y.raw() <= 440_000_000);
        }
    }
}

#[test]
fn ball_between_the_walls_keeps_its_speed_without_deflection() {
    let mut w = world();
    w.max_deflection = Fixed::from_int(0);
    w.balls.push(ball(320, 240, 170, -230));
    let dt = Fixed::from_raw(16_667);
    for _ in 0..2000 {
        w.tick(Fixed::from_int(0), Fixed::from_int(0), dt);
        if w.phase == Phase::PointScored {
            w.serve(Fixed::from_int(-170), Fixed::from_int(230));
        }
        let b = w.balls[0];
        assert_eq!(b.vx.raw().abs(), 170_000_000);
        assert_eq!(b.vy.raw().abs(), 230_000_000);
        assert!(b.y.raw() >= 10_000_000 && b.y.raw() <= 470_000_000);
    }
}

#[test]
fn frame_is_reproducible() {
    let mut first = world();
    first.balls.push(ball(320, 240, 170, -230));
    let mut second = first.clone();
    let dt = Fixed::from_raw(16_667);
    for frame in 0..500 {
        let axis = Fixed::from_raw((frame % 7 - 3) * 250_000);
        let a = first.tick(axis, axis, dt);
        let b = second.tick(axis, axis, dt);
        assert_eq!(a, b);
        if first.phase == Phase::PointScored {
            first.serve(Fixed::from_int(170), Fixed::from_int(230));
            second.serve(Fixed::from_int(170), Fixed::from_int(230));
        }
    }
    assert_eq!(first, second);
}

#[test]
fn frame_without_entities_does_nothing() {
    let arena = Arena { width: Fixed::from_int(640), height: Fixed::from_int(480) };
    let mut w = World::new(arena, Fixed::from_int(120));
    let before = w.clone();
    assert_eq!(w.tick(Fixed::from_int(1), Fixed::from_int(1), Fixed::from_int(1)), QUIET);
    assert_eq!(w, before);
}
