use pong_core::{Arena, Ball, DegenerateState, Fixed, Paddle, Side, World};

fn arena() -> Arena {
    Arena { width: Fixed::from_int(640), height: Fixed::from_int(480) }
}

fn paddle(y: i32, half_height: i32) -> Paddle {
    Paddle {
        side: Side::Left,
        x: Fixed::from_int(8),
        y: Fixed::from_int(y),
        half_width: Fixed::from_int(4),
        half_height: Fixed::from_int(half_height),
        speed: Fixed::from_int(300),
    }
}

fn ball(radius: i32) -> Ball {
    Ball {
        x: Fixed::from_int(320),
        y: Fixed::from_int(240),
        vx: Fixed::from_int(100),
        vy: Fixed::from_int(50),
        radius: Fixed::from_int(radius),
    }
}

#[test]
fn arena_needs_two_positive_dimensions() {
    assert!(arena().is_valid());
    assert!(Arena { width: Fixed::from_raw(1), height: Fixed::from_raw(1) }.is_valid());
    assert!(!Arena { width: Fixed::from_int(0), height: Fixed::from_int(480) }.is_valid());
    assert!(!Arena { width: Fixed::from_int(640), height: Fixed::from_int(0) }.is_valid());
    assert!(!Arena { width: Fixed::from_int(-640), height: Fixed::from_int(480) }.is_valid());
    assert!(!Arena { width: Fixed::from_int(640), height: Fixed::from_int(-480) }.is_valid());
}

#[test]
fn paddle_fits_up_to_the_height_of_the_arena() {
    assert!(paddle(240, 40).fits(&arena()));
    assert!(paddle(240, 0).fits(&arena()));
    assert!(paddle(240, 240).fits(&arena()));
    assert!(!paddle(240, 241).fits(&arena()));
    assert!(!paddle(240, -1).fits(&arena()));
    let tall = Paddle { half_height: Fixed::from_raw(i64::MAX), ..paddle(240, 0) };
    assert!(!tall.fits(&arena()));
}

#[test]
fn paddle_is_in_range_between_its_two_limits() {
    assert!(paddle(40, 40).in_range(&arena()));
    assert!(paddle(240, 40).in_range(&arena()));
    assert!(paddle(440, 40).in_range(&arena()));
    assert!(!paddle(39, 40).in_range(&arena()));
    assert!(!paddle(441, 40).in_range(&arena()));
    assert!(!paddle(-240, 40).in_range(&arena()));
}

#[test]
fn ball_fits_up_to_the_gap_between_the_walls() {
    assert!(ball(10).fits(&arena()));
    assert!(ball(0).fits(&arena()));
    assert!(ball(240).fits(&arena()));
    assert!(!ball(241).fits(&arena()));
    assert!(!ball(-1).fits(&arena()));
    let wide = Ball { radius: Fixed::from_raw(i64::MAX), ..ball(0) };
    assert!(!wide.fits(&arena()));
}

#[test]
fn world_is_well_formed_when_every_entity_is_placed_well() {
    let mut world = World::new(arena(), Fixed::from_int(120));
    assert!(world.is_well_formed());
    world.paddles.push(paddle(240, 40));
    world.paddles.push(paddle(40, 40));
    world.balls.push(ball(10));
    world.balls.push(ball(240));
    assert!(world.is_well_formed());
}

#[test]
fn one_misplaced_entity_spoils_the_world() {
    let mut sound = World::new(arena(), Fixed::from_int(120));
    sound.paddles.push(paddle(240, 40));
    sound.balls.push(ball(10));

    let mut world = sound.clone();
    world.arena.width = Fixed::from_int(0);
    assert!(!world.is_well_formed());

    let mut world = sound.clone();
    world.paddles.push(paddle(240, 300));
    assert!(!world.is_well_formed());

    let mut world = sound.clone();
    world.paddles.push(paddle(500, 40));
    assert!(!world.is_well_formed());

    let mut world = sound.clone();
    world.paddles.insert(0, paddle(10, 40));
    assert!(!world.is_well_formed());

    let mut world = sound.clone();
    world.balls.push(ball(-3));
    assert!(!world.is_well_formed());

    let mut world = sound.clone();
    world.balls.insert(0, ball(300));
    assert!(!world.is_well_formed());
}

#[test]
fn ball_outside_the_arena_does_not_spoil_the_world() {
    let mut world = World::new(arena(), Fixed::from_int(120));
    world.balls.push(Ball { x: Fixed::from_int(-50), y: Fixed::from_int(900), ..ball(10) });
    assert!(world.is_well_formed());
}

#[test]
fn well_formed_world_stays_well_formed() {
    let mut world = World::new(arena(), Fixed::from_int(120));
    world.paddles.push(paddle(240, 40));
    world.paddles.push(Paddle { side: Side::Right, x: Fixed::from_int(632), ..paddle(240, 40) });
    world.balls.push(ball(10));
    for frame in 0..400 {
        let axis = Fixed::from_raw((frame % 11 - 5) * 900_000);
        world.tick(axis, axis, Fixed::from_raw(33_333));
        assert!(world.is_well_formed());
        if world.serve(Fixed::from_int(-120), Fixed::from_int(75)) {
            assert!(world.is_well_formed());
        }
    }
}

#[test]
fn ball_is_built_from_components_that_fit() {
    let built = Ball::from_wide(1, -2, 3, -4, 5);
    assert_eq!(
        built,
        Ok(Ball {
            x: Fixed::from_raw(1),
            y: Fixed::from_raw(-2),
            vx: Fixed::from_raw(3),
            vy: Fixed::from_raw(-4),
            radius: Fixed::from_raw(5),
        })
    );
    let top = i64::MAX as i128;
    let bottom = i64::MIN as i128;
    assert!(Ball::from_wide(top, bottom, top, bottom, top).is_ok());
}

#[test]
fn ball_with_one_component_too_large_is_degenerate() {
    let over = i64::MAX as i128 + 1;
    let under = i64::MIN as i128 - 1;
    assert_eq!(Ball::from_wide(over, 0, 0, 0, 0), Err(DegenerateState));
    assert_eq!(Ball::from_wide(0, under, 0, 0, 0), Err(DegenerateState));
    assert_eq!(Ball::from_wide(0, 0, over, 0, 0), Err(DegenerateState));
    assert_eq!(Ball::from_wide(0, 0, 0, under, 0), Err(DegenerateState));
    assert_eq!(Ball::from_wide(0, 0, 0, 0, over), Err(DegenerateState));
}
