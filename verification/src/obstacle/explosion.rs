//! A burst of particles that stands among the obstacles and touches nothing.

use vstd::prelude::*;
use crate::explosion::{survivors, Explosion};
use crate::frame::FrameInfo;
use crate::obstacle::{AnyObstacle, Obstacle};
use crate::utils::Vector2;

verus! {

/// A burst of particles as an obstacle.
#[derive(Debug)]
pub struct ObstacleExplosion(pub Explosion);

impl Obstacle for ObstacleExplosion {
    open spec fn collidable(&self) -> bool {
        false
    }

    open spec fn place(&self) -> Vector2 {
        self.0.pos
    }

    open spec fn extent(&self) -> Vector2 {
        Vector2 { x: 0, y: 0 }
    }

    open spec fn living(&self) -> bool {
        self.0.particles@.len() != 0
    }

    fn can_collide(&self) -> (r: bool) {
        false
    }

    fn pos(&self) -> (r: Vector2) {
        self.0.pos
    }

    fn size(&self) -> (r: Vector2) {
        Vector2::zero()
    }

    fn is_alive(&self) -> (r: bool) {
        self.0.is_alive()
    }

    fn update(&mut self, frame_info: FrameInfo)
        ensures
            final(self).0.pos == old(self).0.pos,
            final(self).0.particles@ == survivors(old(self).0.particles@, frame_info.delta_time),
    {
        self.0.update(frame_info.delta_time);
    }

    fn kill(&mut self) {
    }

    fn collides_object(&mut self, _pos: Vector2, _size: Vector2) -> (r: bool) {
        false
    }

    fn collides_other(&mut self, _other: &AnyObstacle) -> (r: bool) {
        false
    }
}

} // verus!
