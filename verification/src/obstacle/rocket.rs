//! The projectile: a square that enters at one edge of the arena and flies
//! straight to the opposite one.

use vstd::prelude::*;
use rand::rngs::ThreadRng;
use crate::constants::{
    MAX_OBSTACLE_SIZE, MAX_ROCKET_SPEED, MIN_OBSTACLE_SIZE, MIN_ROCKET_SPEED, RESOLUTION_X,
    RESOLUTION_Y,
};
use crate::fixed::{fx_add, fx_mul, fx_sub, sat_add, sat_mul, sat_sub, UNIT};
use crate::frame::FrameInfo;
use crate::obstacle::{AnyObstacle, Obstacle};
use crate::rng::{choose_index, random_range};
use crate::utils::{square_collides, Vector2};

verus! {

/// The edge of the arena at which a projectile enters.
#[derive(Clone, Copy, Debug, PartialEq, Eq, Structural)]
pub enum Base {
    Left,
    Right,
    Top,
    Bottom,
}

impl Base {
    /// The edge of index `i` among the four.
    pub open spec fn of_index(i: int) -> Base {
        if i == 0 {
            Base::Left
        } else if i == 1 {
            Base::Right
        } else if i == 2 {
            Base::Top
        } else {
            Base::Bottom
        }
    }

    /// The edge of index `i` among the four; the last one for an index
    /// beyond them.
    pub fn from_index(i: usize) -> (base: Base)
        ensures
            base == Base::of_index(i as int),
    {
        if i == 0 {
            Base::Left
        } else if i == 1 {
            Base::Right
        } else if i == 2 {
            Base::Top
        } else {
            Base::Bottom
        }
    }

    /// A random edge.
    pub fn random(rng: &mut ThreadRng) -> (base: Base)
        ensures
            exists|i: int| 0 <= i < 4 && base == #[trigger] Base::of_index(i),
    {
        match choose_index(rng, 4) {
            Some(i) => Base::from_index(i),
            None => Base::Bottom,
        }
    }
}

/// A projectile.
#[derive(Clone, Copy, Debug, PartialEq, Eq, Structural)]
pub struct Rocket {
    pub id: u16,
    pub pos: Vector2,
    pub size: Vector2,
    /// The distance that the projectile covers in a reference tick.
    pub velocity: i64,
    pub base: Base,
    pub dead: bool,
}

impl Rocket {
    /// The projectile of side `side` that enters at `pos`.
    pub open spec fn launched(id: u16, pos: Vector2, base: Base, side: i64, velocity: i64) -> Rocket {
        Rocket { id, pos, size: Vector2 { x: side, y: side }, velocity, base, dead: false }
    }

    /// The distance that the projectile covers in a tick that lasts
    /// `delta_time`.
    pub open spec fn stride(self, delta_time: i64) -> int {
        sat_mul(self.velocity as int, delta_time as int)
    }

    /// The projectile after a tick that lasts `delta_time`: moved by its
    /// stride away from its edge, along the axis that the edge fixes.
    pub open spec fn stepped(self, delta_time: i64) -> Rocket {
        let pos = match self.base {
            Base::Left => Vector2 { x: sat_add(self.pos.x as int, self.stride(delta_time)) as i64, y: self.pos.y },
            Base::Right => Vector2 { x: sat_sub(self.pos.x as int, self.stride(delta_time)) as i64, y: self.pos.y },
            Base::Top => Vector2 { x: self.pos.x, y: sat_add(self.pos.y as int, self.stride(delta_time)) as i64 },
            Base::Bottom => Vector2 { x: self.pos.x, y: sat_sub(self.pos.y as int, self.stride(delta_time)) as i64 },
        };
        Rocket { pos, ..self }
    }

    /// Whether the projectile has not reached the edge opposite to its own.
    pub open spec fn in_flight(self) -> bool {
        match self.base {
            Base::Left => self.pos.x < RESOLUTION_X,
            Base::Right => self.pos.x > 0,
            Base::Top => self.pos.y < RESOLUTION_Y,
            Base::Bottom => self.pos.y > 0,
        }
    }

    /// The projectile marked as killed.
    pub open spec fn killed(self) -> Rocket {
        Rocket { dead: true, ..self }
    }

    /// Creates the projectile of side `side` that enters at `pos`.
    pub fn with_shape(id: u16, pos: Vector2, base: Base, side: i64, velocity: i64) -> (rocket: Rocket)
        ensures
            rocket == Rocket::launched(id, pos, base, side, velocity),
    {
        Rocket { id, pos, size: Vector2 { x: side, y: side }, velocity, base, dead: false }
    }

    /// Creates a projectile that enters at `pos`, of a random side between
    /// the least and the greatest obstacle size and a random speed between
    /// the slowest and the fastest.
    pub fn new(rng: &mut ThreadRng, id: u16, pos: Vector2, base: Base) -> (rocket: Rocket)
        ensures
            MIN_OBSTACLE_SIZE <= rocket.size.x <= MAX_OBSTACLE_SIZE,
            MIN_ROCKET_SPEED <= rocket.velocity <= MAX_ROCKET_SPEED,
            rocket == Rocket::launched(id, pos, base, rocket.size.x, rocket.velocity),
    {
        let side: i64 = random_range(rng, MIN_OBSTACLE_SIZE, MAX_OBSTACLE_SIZE);
        let velocity: i64 = random_range(rng, MIN_ROCKET_SPEED, MAX_ROCKET_SPEED);
        Rocket::with_shape(id, pos, base, side, velocity)
    }
}

/// The projectile `rocket` after `ticks` reference ticks.
pub open spec fn flown(rocket: Rocket, ticks: nat) -> Rocket
    decreases ticks,
{
    if ticks == 0 {
        rocket
    } else {
        flown(rocket, (ticks - 1) as nat).stepped(UNIT)
    }
}

/// A projectile that enters at the left edge with the speed `velocity` has
/// covered `ticks` times that distance after `ticks` reference ticks, and is
/// in the game just as long as that is less than the width of the arena: it
/// leaves the game at the tick at which it reaches the right wall, and not
/// before.
pub proof fn lemma_rocket_lifetime(rocket: Rocket, ticks: nat)
    requires
        rocket.base == Base::Left,
        rocket.pos.x == 0,
        !rocket.dead,
        0 < rocket.velocity <= RESOLUTION_X,
        (ticks - 1) * rocket.velocity < RESOLUTION_X,
    ensures
        flown(rocket, ticks).pos.x == ticks * rocket.velocity,
        flown(rocket, ticks).living() <==> ticks * rocket.velocity < RESOLUTION_X,
    decreases ticks,
{
    let v = rocket.velocity as int;
    if ticks > 0 {
        assert((ticks - 2) * v <= (ticks - 1) * v) by (nonlinear_arith)
            requires
                v > 0,
        ;
        lemma_rocket_lifetime(rocket, (ticks - 1) as nat);
        let before = flown(rocket, (ticks - 1) as nat);
        assert(before.velocity == rocket.velocity && before.base == rocket.base && before.dead == rocket.dead) by {
            lemma_flown_keeps(rocket, (ticks - 1) as nat);
        }
        assert(v * UNIT / (UNIT as int) == v) by (nonlinear_arith);
        assert(before.stride(UNIT) == v);
        assert(ticks * v == (ticks - 1) * v + v) by (nonlinear_arith);
        lemma_flown_keeps(rocket, ticks);
    }
}

/// A flight changes the place of a projectile only.
pub proof fn lemma_flown_keeps(rocket: Rocket, ticks: nat)
    ensures
        flown(rocket, ticks) == (Rocket { pos: flown(rocket, ticks).pos, ..rocket }),
    decreases ticks,
{
    if ticks > 0 {
        lemma_flown_keeps(rocket, (ticks - 1) as nat);
    }
}

impl Obstacle for Rocket {
    open spec fn collidable(&self) -> bool {
        true
    }

    open spec fn place(&self) -> Vector2 {
        self.pos
    }

    open spec fn extent(&self) -> Vector2 {
        self.size
    }

    open spec fn living(&self) -> bool {
        !self.dead && self.in_flight()
    }

    fn can_collide(&self) -> (r: bool) {
        true
    }

    fn pos(&self) -> (r: Vector2) {
        self.pos
    }

    fn size(&self) -> (r: Vector2) {
        self.size
    }

    fn kill(&mut self)
        ensures
            *final(self) == old(self).killed(),
    {
        self.dead = true;
    }

    fn is_alive(&self) -> (r: bool) {
        if self.dead {
            return false;
        }
        match self.base {
            Base::Left => self.pos.x < RESOLUTION_X,
            Base::Right => self.pos.x > 0,
            Base::Top => self.pos.y < RESOLUTION_Y,
            Base::Bottom => self.pos.y > 0,
        }
    }

    fn update(&mut self, frame_info: FrameInfo)
        ensures
            *final(self) == old(self).stepped(frame_info.delta_time),
    {
        let stride: i64 = fx_mul(self.velocity, frame_info.delta_time);
        match self.base {
            Base::Left => {
                self.pos.x = fx_add(self.pos.x, stride);
            },
            Base::Right => {
                self.pos.x = fx_sub(self.pos.x, stride);
            },
            Base::Top => {
                self.pos.y = fx_add(self.pos.y, stride);
            },
            Base::Bottom => {
                self.pos.y = fx_sub(self.pos.y, stride);
            },
        }
    }

    fn collides_object(&mut self, pos: Vector2, size: Vector2) -> (r: bool) {
        square_collides(self.pos, self.size, pos, size)
    }

    fn collides_other(&mut self, other: &AnyObstacle) -> (r: bool) {
        let (other_pos, other_size) = other.bounds();
        square_collides(self.pos, self.size, other_pos, other_size)
    }
}

} // verus!
