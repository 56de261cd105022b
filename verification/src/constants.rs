//! The tuning constants of the game, in fixed-point units where they measure
//! a length, a speed or a duration.

use vstd::prelude::*;
use crate::fixed::UNIT;

verus! {

/// Width of the arena.
pub const RESOLUTION_X: i64 = 320 * UNIT;

/// Height of the arena.
pub const RESOLUTION_Y: i64 = 180 * UNIT;

/// Downward acceleration of the player per tick.
pub const GRAVITY_Y: i64 = 1_500;

/// Width of a pad of canonical size.
pub const PAD_SIZE_X: i64 = 4 * UNIT;

/// Height of a pad of canonical size.
pub const PAD_SIZE_Y: i64 = 25 * UNIT;

/// Horizontal speed of the player outside a sprint.
pub const PLAYER_VELOCITY_X: i64 = 12_500;

/// Horizontal margin that hazards, pickups and pad targets keep from the walls.
pub const OBSTACLE_SAFE_ZONE_X: i64 = 70 * UNIT;

/// Vertical margin that hazards, pickups and pad targets keep from the walls.
pub const OBSTACLE_SAFE_ZONE_Y: i64 = 20 * UNIT;

/// Width of the centred box in which no hazard slot lies.
pub const NO_OBSTACLES_CENTER_ZONE_X: i64 = 50 * UNIT;

/// Height of the centred box in which no hazard slot lies.
pub const NO_OBSTACLES_CENTER_ZONE_Y: i64 = 50 * UNIT;

/// Side of the player's square.
pub const PLAYER_SIZE: i64 = 5 * UNIT;

/// Distance between a pad and its wall.
pub const PAD_WALL_DISTANCE: i64 = 10 * UNIT;

/// Ticks per second at which one tick lasts `UNIT`.
pub const REFERENCE_FRAMERATE: i64 = 60;

/// Divisor of the reference framerate that gives a pad's relocation time.
pub const PAD_MOVE_SPEED_MLT: i64 = 3;

/// Reference ticks that a pad takes to reach a new place.
pub const EFFECTIVE_PAD_FRMT: i64 = 20 * UNIT;

/// Contact tolerance at the reference framerate.
pub const DEFAULT_TOLERANCE: i64 = 4 * UNIT;

/// Opacity of the per-frame background wash outside a sprint.
pub const ALPHA_CHANGE: u8 = 100;

/// Opacity of the per-frame background wash during a sprint.
pub const SPRINT_ALPHA_CHANGE: u8 = 40;

/// Lifespan that a particle loses per reference tick.
pub const LIFESPAN_DECREASE: i64 = 3 * UNIT;

/// Fewest particles of one burst.
pub const MIN_PARTICLE_QTY: usize = 25;

/// One more than the most particles of one burst.
pub const MAX_PARTICLE_QTY: usize = 50;

/// Smallest side of a hazard or projectile.
pub const MIN_OBSTACLE_SIZE: i64 = 4 * UNIT;

/// Largest side of a hazard or projectile.
pub const MAX_OBSTACLE_SIZE: i64 = 10 * UNIT;

/// Shortest lifespan of a static hazard, in reference ticks.
pub const MIN_OBSTACLE_LIFE: i64 = 40 * UNIT;

/// Longest lifespan of a static hazard, in reference ticks.
pub const MAX_OBSTACLE_LIFE: i64 = 900 * UNIT;

/// Opacity with which a static hazard appears.
pub const OBSTACLE_START_ALPHA: u8 = 30;

/// Opacity that a static hazard gains per tick while it lives.
pub const OBSTACLE_DELTA_ALPHA: i8 = 5;

/// Score from which hazards and projectiles appear.
pub const PLAYER_COUNT_OBST: u64 = 10;

/// Score step at which the difficulty rises.
pub const MOD_INCREMENT_DIFF: u64 = 5;

/// Slowest projectile.
pub const MIN_ROCKET_SPEED: i64 = 17_500;

/// Fastest projectile.
pub const MAX_ROCKET_SPEED: i64 = 35_000;

/// Difficulty of a fresh game.
pub const START_DIFFICULTY: u16 = 0;

/// Side of the pickup's square.
pub const BOMB_SIZE: i64 = 6 * UNIT;

/// Reference ticks that an untouched pickup stays.
pub const BOMB_LIFE: i64 = 150 * UNIT;

/// Score from which pickups appear.
pub const PLAYER_COUNT_BOMB: u64 = 20;

/// Sprint charge gained per reference tick outside a sprint.
pub const SPRINT_CHARGE_DELTA: i64 = UNIT;

/// Ceiling of the sprint charge.
pub const SPRINT_MAX_VALUE: i64 = 900 * UNIT;

/// Sprint charge spent per reference tick of a sprint.
pub const SPRINT_USE_DELTA: i64 = 10 * UNIT;

/// Horizontal speed of a sprint.
pub const SPRINT_VELOCITY: i64 = 4 * UNIT;

/// Reference ticks between two sprints.
pub const SPRINT_COOLDOWN: i64 = 30 * UNIT;

/// Reference ticks between two pad deflections.
pub const HIT_COOLDOWN: i64 = 5 * UNIT;

/// Upward speed that a jump gives.
pub const JUMP_VELOCITY: i64 = 25_000;

/// Colour cycle advance per reference tick of a sprint or a pickup.
pub const RAINBOW_DELTA: i64 = 100;

/// Distance below the vertical centre at which the idle player bounces.
pub const HOVER_SPACE: i64 = 8 * UNIT;

/// Colour cycle advance per reference tick of the idle player.
pub const HOVER_RAINBOW_DELTA: i64 = 10;

/// Bound on the initial speed of the particles of the player's death burst.
pub const DEATH_MAX_INIT_PARTICLE_VELOCITY: i64 = 17_500;

/// Factor by which a particle's velocity decays each tick.
pub const PARTICLE_VELOCITY_MULTIPLIER: i64 = 9_800;

/// Divisor of the arena's width that gives the horizontal step of the grid.
pub const OBSTACLE_GRID_DIV_X: i64 = 12;

/// Divisor of the arena's height that gives the vertical step of the grid.
pub const OBSTACLE_GRID_DIV_Y: i64 = 6;

/// Largest distance, per axis, between a hazard and its slot.
pub const OBSTACLE_POS_VARIANCE: i64 = 6 * UNIT;

/// Bound on the initial speed of the particles of a collision burst.
pub const OBSTACLE_COLLISION_MAX_VELOCITY: i64 = 8_000;

/// Denominator of the chance that a hazard or projectile appears.
pub const OBSTACLE_PROBABILITY: u16 = 1000;

/// Rotation of the pickup per reference tick.
pub const BOMB_ANGLE_INCREMENT: i64 = 500;

/// Denominator of the chance that a pickup appears.
pub const BOMB_PROBABILITY: u16 = 2500;

/// Fewest hazards that a pickup goes after.
pub const BOMB_MIN_DESTROYED_OBSTACLES: usize = 1;

/// Most hazards that a pickup goes after.
pub const BOMB_MAX_DESTROYED_OBSTACLES: usize = 4;

/// Side of the centred box that a pickup heads for when it awards points.
pub const SCORE_HITBOX_SIZE: i64 = 2 * UNIT;

/// Stiffness of the spring that pulls a pickup to its target.
pub const BOMB_PULL: i64 = 25;

/// Factor by which a pickup's velocity decays each tick of its chase.
pub const BOMB_DAMPING: i64 = 9_500;

} // verus!
