//! The shared game state: arena, paddles, balls and the round.
//!
//! Each record is plain data. In contracts a record is seen through its view,
//! a record of unbounded integers of the same shape, so that the outcome of a
//! rule can be stated before asking whether it can be stored.

use vstd::prelude::*;
use crate::fixed::{Fixed, representable};

verus! {

/// The side of the arena that a paddle defends.
#[derive(Clone, Copy, Debug, PartialEq, Eq, Structural)]
pub enum Side {
    Left,
    Right,
}

/// Where the round stands.
#[derive(Clone, Copy, Debug, PartialEq, Eq, Structural)]
pub enum Phase {
    /// Balls are in play and a point can be scored.
    Playing,
    /// A ball has left the arena; the point waits to be served again.
    PointScored,
    /// The embedding application has declared the round finished.
    RoundOver,
}

/// An update was not made, because its outcome cannot be stored in the
/// entity's components.
#[derive(Clone, Copy, Debug, PartialEq, Eq, Structural)]
pub struct DegenerateState;

/// The playing field: the rectangle from `(0, 0)` to `(width, height)`.
#[derive(Clone, Copy, Debug, PartialEq, Eq, Structural)]
pub struct Arena {
    pub width: Fixed,
    pub height: Fixed,
}

/// A paddle: a rectangle centred at `(x, y)` that moves along the y axis.
#[derive(Clone, Copy, Debug, PartialEq, Eq, Structural)]
pub struct Paddle {
    pub side: Side,
    pub x: Fixed,
    pub y: Fixed,
    pub half_width: Fixed,
    pub half_height: Fixed,
    /// Distance per unit of time at full axis deflection.
    pub speed: Fixed,
}

/// A ball: a centre, a velocity and a radius.
#[derive(Clone, Copy, Debug, PartialEq, Eq, Structural)]
pub struct Ball {
    pub x: Fixed,
    pub y: Fixed,
    pub vx: Fixed,
    pub vy: Fixed,
    pub radius: Fixed,
}

/// Everything the systems read and write in one frame.
#[derive(Clone, Debug, PartialEq, Eq)]
pub struct World {
    pub arena: Arena,
    pub paddles: Vec<Paddle>,
    pub balls: Vec<Ball>,
    pub phase: Phase,
    /// The side that scored last, if any has.
    pub winner: Option<Side>,
    /// The largest change that a paddle strike makes to a ball's `vy`.
    pub max_deflection: Fixed,
}

/// The arena as the contracts see it.
pub struct ArenaModel {
    pub width: int,
    pub height: int,
}

/// A paddle as the contracts see it.
pub struct PaddleModel {
    pub side: Side,
    pub x: int,
    pub y: int,
    pub half_width: int,
    pub half_height: int,
    pub speed: int,
}

/// A ball as the contracts see it.
pub struct BallModel {
    pub x: int,
    pub y: int,
    pub vx: int,
    pub vy: int,
    pub radius: int,
}

/// The world as the contracts see it.
pub struct WorldModel {
    pub arena: ArenaModel,
    pub paddles: Seq<PaddleModel>,
    pub balls: Seq<BallModel>,
    pub phase: Phase,
    pub winner: Option<Side>,
    pub max_deflection: int,
}

impl View for Arena {
    type V = ArenaModel;

    open spec fn view(&self) -> ArenaModel {
        ArenaModel { width: self.width@, height: self.height@ }
    }
}

impl View for Paddle {
    type V = PaddleModel;

    open spec fn view(&self) -> PaddleModel {
        PaddleModel {
            side: self.side,
            x: self.x@,
            y: self.y@,
            half_width: self.half_width@,
            half_height: self.half_height@,
            speed: self.speed@,
        }
    }
}

impl View for Ball {
    type V = BallModel;

    open spec fn view(&self) -> BallModel {
        BallModel {
            x: self.x@,
            y: self.y@,
            vx: self.vx@,
            vy: self.vy@,
            radius: self.radius@,
        }
    }
}

/// The views of a run of paddles, in order.
pub open spec fn paddle_models(paddles: Seq<Paddle>) -> Seq<PaddleModel> {
    paddles.map_values(|p: Paddle| p@)
}

/// The views of a run of balls, in order.
pub open spec fn ball_models(balls: Seq<Ball>) -> Seq<BallModel> {
    balls.map_values(|b: Ball| b@)
}

impl View for World {
    type V = WorldModel;

    open spec fn view(&self) -> WorldModel {
        WorldModel {
            arena: self.arena@,
            paddles: paddle_models(self.paddles@),
            balls: ball_models(self.balls@),
            phase: self.phase,
            winner: self.winner,
            max_deflection: self.max_deflection@,
        }
    }
}

impl ArenaModel {
    /// Both dimensions are positive.
    pub open spec fn valid(self) -> bool {
        self.width > 0 && self.height > 0
    }
}

impl PaddleModel {
    /// Lowest legal `y` of the paddle's centre.
    pub open spec fn lowest(self) -> int {
        self.half_height
    }

    /// Highest legal `y` of the paddle's centre in an arena of this height.
    pub open spec fn highest(self, arena: ArenaModel) -> int {
        arena.height - self.half_height
    }

    /// The paddle is no taller than the arena, so it has a legal position.
    pub open spec fn fits(self, arena: ArenaModel) -> bool {
        0 <= self.half_height && self.lowest() <= self.highest(arena)
    }

    /// The paddle lies between the top and the bottom wall.
    pub open spec fn in_range(self, arena: ArenaModel) -> bool {
        self.lowest() <= self.y <= self.highest(arena)
    }
}

impl BallModel {
    /// Every component can be stored in a [`Ball`].
    pub open spec fn storable(self) -> bool {
        &&& representable(self.x)
        &&& representable(self.y)
        &&& representable(self.vx)
        &&& representable(self.vy)
        &&& representable(self.radius)
    }

    /// The ball is no wider than the gap between the walls.
    pub open spec fn fits(self, arena: ArenaModel) -> bool {
        0 <= self.radius && 2 * self.radius <= arena.height
    }

    /// The square of the ball's speed.
    pub open spec fn speed_squared(self) -> int {
        self.vx * self.vx + self.vy * self.vy
    }
}

impl WorldModel {
    /// The arena has an extent, every paddle fits it and lies between its
    /// walls, and every ball fits between its walls.
    pub open spec fn well_formed(self) -> bool {
        &&& self.arena.valid()
        &&& forall|i: int|
            0 <= i < self.paddles.len() ==> (#[trigger] self.paddles[i]).fits(self.arena)
                && self.paddles[i].in_range(self.arena)
        &&& forall|i: int| 0 <= i < self.balls.len() ==> (#[trigger] self.balls[i]).fits(self.arena)
    }
}

impl Arena {
    /// Whether both dimensions are positive.
    pub fn is_valid(&self) -> (ok: bool)
        ensures
            ok == self@.valid(),
    {
        self.width.raw > 0 && self.height.raw > 0
    }
}

impl Paddle {
    /// Whether the paddle is no taller than the arena.
    pub fn fits(&self, arena: &Arena) -> (ok: bool)
        ensures
            ok == self@.fits(arena@),
    {
        self.half_height.raw >= 0 && self.half_height.wide() <= arena.height.wide()
            - self.half_height.wide()
    }

    /// Whether the paddle lies between the top and the bottom wall.
    pub fn in_range(&self, arena: &Arena) -> (ok: bool)
        ensures
            ok == self@.in_range(arena@),
    {
        self.half_height.raw <= self.y.raw && self.y.wide() <= arena.height.wide()
            - self.half_height.wide()
    }
}

impl Ball {
    /// Whether the ball is no wider than the gap between the walls.
    pub fn fits(&self, arena: &Arena) -> (ok: bool)
        ensures
            ok == self@.fits(arena@),
    {
        self.radius.raw >= 0 && 2 * self.radius.wide() <= arena.height.wide()
    }

    /// Builds a ball from wide intermediate results, if each of them can be
    /// stored.
    pub fn from_wide(x: i128, y: i128, vx: i128, vy: i128, radius: i128) -> (r: Result<
        Ball,
        DegenerateState,
    >)
        ensures
            r is Ok <==> (BallModel {
                x: x as int,
                y: y as int,
                vx: vx as int,
                vy: vy as int,
                radius: radius as int,
            }).storable(),
            r matches Ok(b) ==> b@ == (BallModel {
                x: x as int,
                y: y as int,
                vx: vx as int,
                vy: vy as int,
                radius: radius as int,
            }),
    {
        match (
            Fixed::narrow(x),
            Fixed::narrow(y),
            Fixed::narrow(vx),
            Fixed::narrow(vy),
            Fixed::narrow(radius),
        ) {
            (Some(x), Some(y), Some(vx), Some(vy), Some(radius)) => Ok(
                Ball { x, y, vx, vy, radius },
            ),
            _ => Err(DegenerateState),
        }
    }
}

impl World {
    /// A world with the given arena and no paddle or ball yet, ready to play.
    pub fn new(arena: Arena, max_deflection: Fixed) -> (world: World)
        ensures
            world@ == (WorldModel {
                arena: arena@,
                paddles: Seq::empty(),
                balls: Seq::empty(),
                phase: Phase::Playing,
                winner: None,
                max_deflection: max_deflection@,
            }),
            world.paddles@ == Seq::<Paddle>::empty(),
            world.balls@ == Seq::<Ball>::empty(),
    {
        let world = World {
            arena,
            paddles: Vec::new(),
            balls: Vec::new(),
            phase: Phase::Playing,
            winner: None,
            max_deflection,
        };
        assert(paddle_models(world.paddles@) =~= Seq::empty());
        assert(ball_models(world.balls@) =~= Seq::empty());
        world
    }

    /// Whether the placement of the world's entities is well formed.
    pub fn is_well_formed(&self) -> (ok: bool)
        ensures
            ok == self@.well_formed(),
    {
        if !self.arena.is_valid() {
            return false;
        }
        let mut i: usize = 0;
        while i < self.paddles.len()
            invariant
                i <= self.paddles.len(),
                forall|j: int|
                    0 <= j < i ==> (#[trigger] self@.paddles[j]).fits(self@.arena)
                        && self@.paddles[j].in_range(self@.arena),
            decreases self.paddles.len() - i,
        {
            if !self.paddles[i].fits(&self.arena) || !self.paddles[i].in_range(&self.arena) {
                assert(!(self@.paddles[i as int].fits(self@.arena) && self@.paddles[i as int].in_range(
                    self@.arena,
                )));
                return false;
            }
            i += 1;
        }
        let mut k: usize = 0;
        while k < self.balls.len()
            invariant
                k <= self.balls.len(),
                forall|j: int| 0 <= j < k ==> (#[trigger] self@.balls[j]).fits(self@.arena),
            decreases self.balls.len() - k,
        {
            if !self.balls[k].fits(&self.arena) {
                assert(!self@.balls[k as int].fits(self@.arena));
                return false;
            }
            k += 1;
        }
        true
    }
}

} // verus!
