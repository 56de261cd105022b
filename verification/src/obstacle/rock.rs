//! The static hazard: a square that fades in, stays for a while and fades out.

use vstd::prelude::*;
use rand::rngs::ThreadRng;
use crate::constants::{
    MAX_OBSTACLE_LIFE, MAX_OBSTACLE_SIZE, MIN_OBSTACLE_LIFE, MIN_OBSTACLE_SIZE,
    OBSTACLE_DELTA_ALPHA, OBSTACLE_START_ALPHA,
};
use crate::fixed::{
    add_signed_u8, fx_mul, fx_sub, fx_whole_i8, sat_mul, sat_sub, u8_add_signed, whole_i8, UNIT,
};
use crate::frame::FrameInfo;
use crate::obstacle::{AnyObstacle, Obstacle};
use crate::rng::random_range;
use crate::utils::{square_collides, Vector2};

verus! {

/// A static hazard.
#[derive(Clone, Copy, Debug, PartialEq, Eq, Structural)]
pub struct Rock {
    /// The identifier of the grid slot that the hazard occupies.
    pub id: u16,
    pub pos: Vector2,
    pub size: Vector2,
    /// The reference ticks left before the hazard fades out.
    pub lifespan: i64,
    /// The opacity that the next tick adds.
    pub step: i8,
    /// The opacity: the hazard is in the game while it is positive.
    pub alpha: u8,
}

/// The opacity step of a hazard that fades out in a tick that lasts
/// `delta_time`: the fade-in step reversed and scaled with the tick, without
/// its fraction.
pub open spec fn fade_out_step(delta_time: i64) -> int {
    whole_i8(sat_mul(-(OBSTACLE_DELTA_ALPHA as int) * UNIT, delta_time as int))
}

impl Rock {
    /// The hazard of side `side` that appears with its far corner at `pos`
    /// and stays for `lifespan`.
    pub open spec fn spawned(id: u16, pos: Vector2, side: i64, lifespan: i64) -> Rock {
        Rock {
            id,
            pos: pos.diff(Vector2 { x: side, y: side }),
            size: Vector2 { x: side, y: side },
            lifespan,
            step: OBSTACLE_DELTA_ALPHA,
            alpha: OBSTACLE_START_ALPHA,
        }
    }

    /// The hazard after a tick that lasts `delta_time`. Once the lifespan is
    /// used up the opacity step turns into the fade-out step; the lifespan
    /// goes down by the tick, and the opacity moves by the step within the
    /// range of `u8`.
    pub open spec fn stepped(self, delta_time: i64) -> Rock {
        let step = if self.lifespan <= 0 {
            fade_out_step(delta_time) as i8
        } else {
            self.step
        };
        Rock {
            lifespan: sat_sub(self.lifespan as int, delta_time as int) as i64,
            step,
            alpha: u8_add_signed(self.alpha as int, step as int) as u8,
            ..self
        }
    }

    /// The hazard with its opacity at zero.
    pub open spec fn killed(self) -> Rock {
        Rock { alpha: 0, ..self }
    }

    /// Creates the hazard of side `side` with its far corner at `pos`.
    pub fn with_shape(id: u16, pos: Vector2, side: i64, lifespan: i64) -> (rock: Rock)
        ensures
            rock == Rock::spawned(id, pos, side, lifespan),
    {
        let size = Vector2 { x: side, y: side };
        Rock {
            id,
            pos: pos.minus(size),
            size,
            lifespan,
            step: OBSTACLE_DELTA_ALPHA,
            alpha: OBSTACLE_START_ALPHA,
        }
    }

    /// Creates a hazard with its far corner at `pos`, of a random side between
    /// the least and the greatest obstacle size and a random lifespan between
    /// the shortest and the longest.
    pub fn new(rng: &mut ThreadRng, id: u16, pos: Vector2) -> (rock: Rock)
        ensures
            MIN_OBSTACLE_SIZE <= rock.size.x <= MAX_OBSTACLE_SIZE,
            MIN_OBSTACLE_LIFE <= rock.lifespan <= MAX_OBSTACLE_LIFE,
            rock == Rock::spawned(id, pos, rock.size.x, rock.lifespan),
    {
        let side: i64 = random_range(rng, MIN_OBSTACLE_SIZE, MAX_OBSTACLE_SIZE);
        let lifespan: i64 = random_range(rng, MIN_OBSTACLE_LIFE, MAX_OBSTACLE_LIFE);
        Rock::with_shape(id, pos, side, lifespan)
    }
}

impl Obstacle for Rock {
    open spec fn collidable(&self) -> bool {
        true
    }

    open spec fn place(&self) -> Vector2 {
        self.pos
    }

    open spec fn extent(&self) -> Vector2 {
        self.size
    }

    open spec fn living(&self) -> bool {
        self.alpha > 0
    }

    fn can_collide(&self) -> (r: bool) {
        true
    }

    fn pos(&self) -> (r: Vector2) {
        self.pos
    }

    fn size(&self) -> (r: Vector2) {
        self.size
    }

    fn kill(&mut self)
        ensures
            *final(self) == old(self).killed(),
    {
        self.alpha = 0;
    }

    fn is_alive(&self) -> (r: bool) {
        self.alpha > 0
    }

    fn update(&mut self, frame_info: FrameInfo)
        ensures
            *final(self) == old(self).stepped(frame_info.delta_time),
    {
        if self.lifespan <= 0 {
            self.step = fx_whole_i8(fx_mul(-(OBSTACLE_DELTA_ALPHA as i64) * UNIT, frame_info.delta_time));
        }
        self.lifespan = fx_sub(self.lifespan, frame_info.delta_time);
        self.alpha = add_signed_u8(self.alpha, self.step);
    }

    fn collides_object(&mut self, pos: Vector2, size: Vector2) -> (r: bool) {
        square_collides(self.pos, self.size, pos, size)
    }

    fn collides_other(&mut self, other: &AnyObstacle) -> (r: bool) {
        let (other_pos, other_size) = other.bounds();
        square_collides(self.pos, self.size, other_pos, other_size)
    }
}

} // verus!
