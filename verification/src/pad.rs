//! The pads: the two guards that stand before the side walls, turn the
//! player back and move to a new height after each hit.

use vstd::prelude::*;
use rand::rngs::ThreadRng;
use crate::constants::{
    EFFECTIVE_PAD_FRMT, OBSTACLE_SAFE_ZONE_Y, PAD_SIZE_X, PAD_SIZE_Y, PAD_WALL_DISTANCE,
    PLAYER_SIZE, RESOLUTION_X, RESOLUTION_Y,
};
use crate::fixed::{
    fx_add, fx_div, fx_mul, fx_sub, sat_add, sat_div, sat_mul, sat_sub, trunc_div,
};
use crate::rng::random_range;
use crate::utils::{in_span, span_contains, Vector2};

verus! {

/// A pad.
#[derive(Clone, Copy, Debug, PartialEq, Eq, Structural)]
pub struct Pad {
    pub pos: Vector2,
    pub size: Vector2,
    /// Whether the pad guards the left wall.
    pub is_left: bool,
    /// The reference ticks since the last relocation began.
    pub cnt: i64,
    /// The height that the pad gains per reference tick.
    pub step: i64,
}

/// The height at which a pad of height `size_y` is centred.
pub open spec fn centered_y(size_y: i64) -> int {
    sat_sub(RESOLUTION_Y / 2, trunc_div(size_y as int, 2))
}

/// Whether `target` is a height to which a pad of height `size_y` may move:
/// inside the safe zone, pad included.
pub open spec fn is_pad_target(target: i64, size_y: i64) -> bool {
    OBSTACLE_SAFE_ZONE_Y <= target < RESOLUTION_Y - OBSTACLE_SAFE_ZONE_Y - size_y
}

impl Pad {
    /// The pad of canonical size that rests before its wall.
    pub open spec fn resting(is_left: bool) -> Pad {
        Pad {
            pos: Vector2 {
                x: if is_left {
                    PAD_WALL_DISTANCE
                } else {
                    (RESOLUTION_X - PAD_WALL_DISTANCE - PAD_SIZE_X) as i64
                },
                y: (RESOLUTION_Y / 2 - PAD_SIZE_Y / 2) as i64,
            },
            size: Vector2 { x: PAD_SIZE_X, y: PAD_SIZE_Y },
            is_left,
            cnt: 0,
            step: 0,
        }
    }

    /// Whether the pad has the canonical size.
    pub open spec fn canonical(self) -> bool {
        self.size == (Vector2 { x: PAD_SIZE_X, y: PAD_SIZE_Y })
    }

    /// The pad once a relocation to the height `target` is scheduled: the
    /// step is the distance over the relocation time. A pad of another size
    /// than the canonical one schedules nothing.
    pub open spec fn moved_to(self, target: i64) -> Pad {
        if self.canonical() {
            Pad {
                cnt: 0,
                step: sat_div(sat_sub(target as int, self.pos.y as int), EFFECTIVE_PAD_FRMT as int) as i64,
                ..self
            }
        } else {
            self
        }
    }

    /// The pad after a tick that lasts `delta_time`: moved by its step, and
    /// at rest once the relocation time has passed.
    pub open spec fn stepped(self, delta_time: i64) -> Pad {
        let cnt = sat_add(self.cnt as int, delta_time as int) as i64;
        Pad {
            pos: Vector2 {
                x: self.pos.x,
                y: sat_add(self.pos.y as int, sat_mul(self.step as int, delta_time as int)) as i64,
            },
            cnt,
            step: if cnt >= EFFECTIVE_PAD_FRMT {
                0
            } else {
                self.step
            },
            ..self
        }
    }

    /// Whether the pad covers the player's height: the upper or the lower
    /// edge of the player lies in the vertical span of the pad.
    pub open spec fn covers_height(self, player_pos: Vector2) -> bool {
        in_span(self.pos.y, self.size.y, player_pos.y) || in_span(
            self.pos.y,
            self.size.y,
            sat_add(player_pos.y as int, PLAYER_SIZE as int) as i64,
        )
    }

    /// Whether the player at `player_pos` is in contact with the pad: the
    /// edge of the player that leads toward the pad is within `tolerance` of
    /// the pad's facing edge, and the pad covers the player's height.
    pub open spec fn touches(self, player_pos: Vector2, tolerance: i64) -> bool {
        if self.is_left {
            let face = sat_add(self.pos.x as int, self.size.x as int);
            sat_sub(face, tolerance as int) <= player_pos.x < face && self.covers_height(player_pos)
        } else {
            let lead = sat_add(player_pos.x as int, PLAYER_SIZE as int);
            self.pos.x <= lead < sat_add(self.pos.x as int, tolerance as int) && self.covers_height(
                player_pos,
            )
        }
    }

    /// The pad centred and at rest.
    pub open spec fn reset_pad(self) -> Pad {
        Pad {
            pos: Vector2 { x: self.pos.x, y: centered_y(self.size.y) as i64 },
            step: 0,
            ..self
        }
    }

    /// Creates the pad of canonical size that rests before its wall.
    pub fn default(is_left: bool) -> (pad: Pad)
        ensures
            pad == Pad::resting(is_left),
    {
        let pos = if is_left {
            Vector2 { x: PAD_WALL_DISTANCE, y: RESOLUTION_Y / 2 - PAD_SIZE_Y / 2 }
        } else {
            Vector2 {
                x: RESOLUTION_X - PAD_WALL_DISTANCE - PAD_SIZE_X,
                y: RESOLUTION_Y / 2 - PAD_SIZE_Y / 2,
            }
        };
        Pad { pos, is_left, size: Vector2 { x: PAD_SIZE_X, y: PAD_SIZE_Y }, cnt: 0, step: 0 }
    }

    /// Creates a pad at rest with the given place and size.
    pub fn new(is_left: bool, pos: Vector2, size: Vector2) -> (pad: Pad)
        ensures
            pad == (Pad { pos, size, is_left, cnt: 0, step: 0 }),
    {
        Pad { pos, is_left, size, cnt: 0, step: 0 }
    }

    /// Schedules a relocation to the height `target`.
    pub fn move_to(&mut self, target: i64)
        ensures
            *final(self) == old(self).moved_to(target),
    {
        if self.size.x == PAD_SIZE_X && self.size.y == PAD_SIZE_Y {
            self.cnt = 0;
            self.step = fx_div(fx_sub(target, self.pos.y), EFFECTIVE_PAD_FRMT);
        }
    }

    /// Centres the pad and stops its relocation.
    pub fn reset(&mut self)
        ensures
            *final(self) == old(self).reset_pad(),
    {
        self.pos.y = fx_sub(RESOLUTION_Y / 2, self.size.y / 2);
        self.step = 0;
    }

    /// Advances the pad by one tick that lasts `delta_time`.
    pub fn update(&mut self, delta_time: i64)
        ensures
            *final(self) == old(self).stepped(delta_time),
    {
        self.pos.y = fx_add(self.pos.y, fx_mul(self.step, delta_time));
        self.cnt = fx_add(self.cnt, delta_time);
        if self.cnt >= EFFECTIVE_PAD_FRMT {
            self.step = 0;
        }
    }

    /// Tests whether the player at `player_pos` is in contact with the pad.
    pub fn is_touched(&self, player_pos: Vector2, tolerance: i64) -> (r: bool)
        ensures
            r == self.touches(player_pos, tolerance),
    {
        let covers: bool = span_contains(self.pos.y, self.size.y, player_pos.y) || span_contains(
            self.pos.y,
            self.size.y,
            fx_add(player_pos.y, PLAYER_SIZE),
        );
        if self.is_left {
            let face: i64 = fx_add(self.pos.x, self.size.x);
            fx_sub(face, tolerance) <= player_pos.x && player_pos.x < face && covers
        } else {
            let lead: i64 = fx_add(player_pos.x, PLAYER_SIZE);
            self.pos.x <= lead && lead < fx_add(self.pos.x, tolerance) && covers
        }
    }

    /// Tests whether the player at `player_pos` hits the pad. On a hit a pad
    /// of canonical size schedules a relocation to a random height inside the
    /// safe zone.
    pub fn collides(&mut self, player_pos: Vector2, tolerance: i64, rng: &mut ThreadRng) -> (r: bool)
        ensures
            r == old(self).touches(player_pos, tolerance),
            !r || !old(self).canonical() ==> *final(self) == *old(self),
            r && old(self).canonical() ==> exists|target: i64|
                is_pad_target(target, old(self).size.y) && *final(self) == #[trigger] old(self).moved_to(
                    target,
                ),
    {
        if !self.is_touched(player_pos, tolerance) {
            return false;
        }
        if self.size.x == PAD_SIZE_X && self.size.y == PAD_SIZE_Y {
            let target: i64 = random_range(
                rng,
                OBSTACLE_SAFE_ZONE_Y,
                RESOLUTION_Y - OBSTACLE_SAFE_ZONE_Y - self.size.y - 1,
            );
            self.move_to(target);
        }
        true
    }
}

} // verus!
