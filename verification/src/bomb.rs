//! The pickup: a timed diamond that, once the player touches it, goes after
//! hazards and destroys them, or heads for the centre and awards points.

use vstd::prelude::*;
use crate::constants::{
    BOMB_ANGLE_INCREMENT, BOMB_DAMPING, BOMB_LIFE, BOMB_PULL, BOMB_SIZE, RAINBOW_DELTA,
    RESOLUTION_X, RESOLUTION_Y, SCORE_HITBOX_SIZE,
};
use crate::fixed::{fx_add, fx_mul, fx_sub, sat_add, sat_mul, sat_sub, UNIT};
use crate::utils::{overlaps, square_collides, Rectangle, Vector2};

verus! {

/// A pickup.
#[derive(Debug)]
pub struct Bomb {
    pub pos: Vector2,
    /// The velocity of the chase; at rest until a target is queued.
    pub velocity: Vector2,
    /// The rotation of the diamond, in fixed-point radians.
    pub angle: i64,
    /// The reference ticks left to an untouched pickup.
    pub lifetime: i64,
    /// The place in the colour cycle, from zero to one.
    pub color_cnt: i64,
    /// The boxes still to reach, the next one last.
    pub to_destroy: Vec<Rectangle>,
    /// The points that the pickup awards when it ends, if any.
    pub give_points: u64,
}

/// The box at the centre of the arena that a pickup heads for when it awards
/// points.
pub open spec fn score_hitbox() -> Rectangle {
    Rectangle {
        x: (RESOLUTION_X / 2 - SCORE_HITBOX_SIZE / 2) as i64,
        y: (RESOLUTION_Y / 2 - SCORE_HITBOX_SIZE / 2) as i64,
        width: SCORE_HITBOX_SIZE,
        height: SCORE_HITBOX_SIZE,
    }
}

/// The place in the colour cycle after a tick that lasts `delta_time` at the
/// rate `delta`: it starts over once it has passed one.
pub open spec fn cycled(color_cnt: i64, delta: i64, delta_time: i64) -> int {
    let next = sat_add(color_cnt as int, sat_mul(delta as int, delta_time as int));
    if next > UNIT {
        0
    } else {
        next
    }
}

/// Advances a place in the colour cycle by a tick that lasts `delta_time`.
pub fn cycle(color_cnt: i64, delta: i64, delta_time: i64) -> (r: i64)
    ensures
        r == cycled(color_cnt, delta, delta_time),
{
    let next: i64 = fx_add(color_cnt, fx_mul(delta, delta_time));
    if next > UNIT {
        0
    } else {
        next
    }
}

impl Bomb {
    /// Whether the pickup touches the box at `pos` of size `size`, as seen
    /// from the pickup.
    pub open spec fn touches(self, pos: Vector2, size: Vector2) -> bool {
        overlaps(self.pos, Vector2 { x: BOMB_SIZE, y: BOMB_SIZE }, pos, size)
    }

    /// Whether the pickup is still in the game.
    pub open spec fn living(self) -> bool {
        self.lifetime > 0
    }

    /// The velocity of a chasing pickup once the spring toward the centre
    /// of `target` has pulled at it.
    pub open spec fn pulled(self, target: Rectangle) -> Vector2 {
        self.velocity.diff(self.pos.diff(target.center()).scaled(BOMB_PULL))
    }

    /// Whether `after` is this pickup armed with the boxes `targets` and the
    /// number `amount`: the boxes are queued behind those that wait; where
    /// there is none, the pickup awards `amount` points and the centre box is
    /// queued.
    pub open spec fn arms_to(self, after: Bomb, targets: Seq<Rectangle>, amount: u64) -> bool {
        &&& after.pos == self.pos
        &&& after.velocity == self.velocity
        &&& after.angle == self.angle
        &&& after.lifetime == self.lifetime
        &&& after.color_cnt == self.color_cnt
        &&& if targets.len() == 0 {
            &&& after.give_points == amount
            &&& after.to_destroy@ == self.to_destroy@.push(score_hitbox())
        } else {
            &&& after.give_points == self.give_points
            &&& after.to_destroy@ == self.to_destroy@ + targets
        }
    }

    /// Whether `after` is this pickup after a tick that lasts `delta_time`.
    ///
    /// With no target queued the lifetime runs down by the tick. With a
    /// target queued the lifetime stands still: a pickup that touches its
    /// next target drops it from the queue, and ends at once where it awards
    /// points; one that does not is pulled toward the target's centre, moves
    /// by its velocity and is damped. The rotation and the colour cycle
    /// advance in either case.
    pub open spec fn steps_to(self, after: Bomb, delta_time: i64) -> bool {
        &&& after.give_points == self.give_points
        &&& after.angle == sat_add(self.angle as int, sat_mul(BOMB_ANGLE_INCREMENT as int, delta_time as int))
        &&& after.color_cnt == cycled(self.color_cnt, RAINBOW_DELTA, delta_time)
        &&& if self.to_destroy@.len() == 0 {
            &&& after.to_destroy@ == self.to_destroy@
            &&& after.pos == self.pos
            &&& after.velocity == self.velocity
            &&& after.lifetime == sat_sub(self.lifetime as int, delta_time as int)
        } else if self.touches(self.to_destroy@.last().origin(), self.to_destroy@.last().extent()) {
            &&& after.to_destroy@ == self.to_destroy@.drop_last()
            &&& after.pos == self.pos
            &&& after.velocity == self.velocity
            &&& after.lifetime == if self.give_points > 0 {
                0
            } else {
                self.lifetime
            }
        } else {
            let velocity = self.pulled(self.to_destroy@.last());
            &&& after.to_destroy@ == self.to_destroy@
            &&& after.pos == self.pos.sum(velocity)
            &&& after.velocity == velocity.scaled(BOMB_DAMPING)
            &&& after.lifetime == self.lifetime
        }
    }

    /// Creates a pickup centred at `pos`, at rest, with its full lifetime and
    /// no target.
    pub fn new(pos: Vector2) -> (bomb: Bomb)
        ensures
            bomb.pos == pos.diff(Vector2 { x: (BOMB_SIZE / 2) as i64, y: (BOMB_SIZE / 2) as i64 }),
            bomb.velocity == (Vector2 { x: 0, y: 0 }),
            bomb.angle == 0,
            bomb.color_cnt == 0,
            bomb.lifetime == BOMB_LIFE,
            bomb.to_destroy@.len() == 0,
            bomb.give_points == 0,
    {
        Bomb {
            pos: pos.minus(Vector2 { x: BOMB_SIZE / 2, y: BOMB_SIZE / 2 }),
            velocity: Vector2::zero(),
            angle: 0,
            color_cnt: 0,
            lifetime: BOMB_LIFE,
            to_destroy: Vec::new(),
            give_points: 0,
        }
    }

    /// Tests whether the pickup touches the box at `pos` of size `size`.
    pub fn collides(&self, pos: Vector2, size: Vector2) -> (r: bool)
        ensures
            r == self.touches(pos, size),
    {
        square_collides(self.pos, Vector2 { x: BOMB_SIZE, y: BOMB_SIZE }, pos, size)
    }

    /// Whether the pickup is still in the game.
    pub fn is_alive(&self) -> (r: bool)
        ensures
            r == self.living(),
    {
        self.lifetime > 0
    }

    /// Arms the pickup with the boxes of the hazards that were chosen for it.
    /// With no box it is to award `amount` points at the centre of the arena.
    pub fn arm(&mut self, targets: Vec<Rectangle>, amount: u64)
        ensures
            old(self).arms_to(*final(self), targets@, amount),
    {
        let mut targets = targets;
        if targets.is_empty() {
            self.give_points = amount;
            self.to_destroy.push(
                Rectangle {
                    x: RESOLUTION_X / 2 - SCORE_HITBOX_SIZE / 2,
                    y: RESOLUTION_Y / 2 - SCORE_HITBOX_SIZE / 2,
                    width: SCORE_HITBOX_SIZE,
                    height: SCORE_HITBOX_SIZE,
                },
            );
        } else {
            self.to_destroy.append(&mut targets);
        }
    }

    /// Advances the pickup by one tick that lasts `delta_time`.
    pub fn update(&mut self, delta_time: i64)
        ensures
            old(self).steps_to(*final(self), delta_time),
    {
        if self.to_destroy.len() > 0 {
            let target: Rectangle = self.to_destroy[self.to_destroy.len() - 1];
            let target_pos = Vector2 { x: target.x, y: target.y };
            let target_size = Vector2 { x: target.width, y: target.height };
            if self.collides(target_pos, target_size) {
                self.to_destroy.pop();
                if self.give_points > 0 {
                    self.lifetime = 0;
                }
            } else {
                self.velocity = self.velocity.minus(self.pos.minus(target.middle()).times(BOMB_PULL));
                self.pos = self.pos.plus(self.velocity);
                self.velocity = self.velocity.times(BOMB_DAMPING);
            }
        } else {
            self.lifetime = fx_sub(self.lifetime, delta_time);
        }
        self.angle = fx_add(self.angle, fx_mul(BOMB_ANGLE_INCREMENT, delta_time));
        self.color_cnt = cycle(self.color_cnt, RAINBOW_DELTA, delta_time);
    }
}

} // verus!
