//! The obstacles of the arena: three kinds with one life cycle.

use vstd::prelude::*;
use crate::explosion::survivors;
use crate::frame::FrameInfo;
use crate::obstacle::explosion::ObstacleExplosion;
use crate::obstacle::rock::Rock;
use crate::obstacle::rocket::Rocket;
use crate::utils::{overlaps, Vector2};

pub mod explosion;
pub mod rock;
pub mod rocket;

verus! {

/// What every obstacle offers.
pub trait Obstacle: Sized {
    /// Whether the obstacle takes part in collisions.
    spec fn collidable(&self) -> bool;

    /// The corner of least coordinates of the obstacle's box.
    spec fn place(&self) -> Vector2;

    /// The extent of the obstacle's box.
    spec fn extent(&self) -> Vector2;

    /// Whether the obstacle is still part of the game.
    spec fn living(&self) -> bool;

    /// Whether the obstacle takes part in collisions.
    fn can_collide(&self) -> (r: bool)
        ensures
            r == self.collidable(),
    ;

    /// The corner of least coordinates of the obstacle's box.
    fn pos(&self) -> (r: Vector2)
        ensures
            r == self.place(),
    ;

    /// The extent of the obstacle's box.
    fn size(&self) -> (r: Vector2)
        ensures
            r == self.extent(),
    ;

    /// Whether the obstacle is still part of the game.
    fn is_alive(&self) -> (r: bool)
        ensures
            r == self.living(),
    ;

    /// Advances the obstacle by one frame. Its kind and its extent stay.
    fn update(&mut self, frame_info: FrameInfo)
        ensures
            final(self).collidable() == old(self).collidable(),
            final(self).extent() == old(self).extent(),
    ;

    /// Takes the obstacle out of the game at once, where it stands. An
    /// obstacle that takes no part in collisions cannot be killed, and stays
    /// as it is.
    fn kill(&mut self)
        ensures
            final(self).collidable() == old(self).collidable(),
            final(self).place() == old(self).place(),
            final(self).extent() == old(self).extent(),
            old(self).collidable() ==> !final(self).living(),
            !old(self).collidable() ==> *final(self) == *old(self),
    ;

    /// Tests whether the box at `pos` of size `size` touches this obstacle,
    /// as seen from the obstacle. Nothing touches an obstacle that takes no
    /// part in collisions.
    fn collides_object(&mut self, pos: Vector2, size: Vector2) -> (r: bool)
        ensures
            *final(self) == *old(self),
            r == (old(self).collidable() && overlaps(old(self).place(), old(self).extent(), pos, size)),
    ;

    /// Tests whether `other` touches this obstacle, as seen from this one.
    /// Nothing touches an obstacle that takes no part in collisions.
    fn collides_other(&mut self, other: &AnyObstacle) -> (r: bool)
        ensures
            *final(self) == *old(self),
            r == (old(self).collidable() && overlaps(
                old(self).place(),
                old(self).extent(),
                other.corner(),
                other.span(),
            )),
    ;
}

/// An obstacle of any kind.
#[derive(Debug)]
pub enum AnyObstacle {
    Rock(Rock),
    Rocket(Rocket),
    ObstacleExplosion(ObstacleExplosion),
}

impl AnyObstacle {
    /// The corner of least coordinates of the obstacle's box.
    pub open spec fn corner(&self) -> Vector2 {
        match self {
            AnyObstacle::Rock(o) => o.pos,
            AnyObstacle::Rocket(o) => o.pos,
            AnyObstacle::ObstacleExplosion(o) => o.0.pos,
        }
    }

    /// The extent of the obstacle's box: none for a burst.
    pub open spec fn span(&self) -> Vector2 {
        match self {
            AnyObstacle::Rock(o) => o.size,
            AnyObstacle::Rocket(o) => o.size,
            AnyObstacle::ObstacleExplosion(o) => Vector2 { x: 0, y: 0 },
        }
    }

    /// The obstacle's box: its corner of least coordinates and its extent.
    pub fn bounds(&self) -> (r: (Vector2, Vector2))
        ensures
            r.0 == self.corner(),
            r.1 == self.span(),
    {
        match self {
            AnyObstacle::Rock(o) => (o.pos, o.size),
            AnyObstacle::Rocket(o) => (o.pos, o.size),
            AnyObstacle::ObstacleExplosion(o) => (o.0.pos, Vector2::zero()),
        }
    }

    /// Whether `after` is this obstacle advanced by one frame: a hazard or a
    /// projectile by its own rule, a burst by the rule of its particles.
    pub open spec fn steps_to(self, after: AnyObstacle, frame_info: FrameInfo) -> bool {
        match (self, after) {
            (AnyObstacle::Rock(a), AnyObstacle::Rock(b)) => b == a.stepped(frame_info.delta_time),
            (AnyObstacle::Rocket(a), AnyObstacle::Rocket(b)) => b == a.stepped(frame_info.delta_time),
            (AnyObstacle::ObstacleExplosion(a), AnyObstacle::ObstacleExplosion(b)) => {
                &&& b.0.pos == a.0.pos
                &&& b.0.particles@ == survivors(a.0.particles@, frame_info.delta_time)
            },
            _ => false,
        }
    }

    /// Whether `after` is this obstacle killed where it stands: a hazard or
    /// a projectile dead, a burst as it was.
    pub open spec fn killed_to(self, after: AnyObstacle) -> bool {
        match (self, after) {
            (AnyObstacle::Rock(a), AnyObstacle::Rock(b)) => b == a.killed(),
            (AnyObstacle::Rocket(a), AnyObstacle::Rocket(b)) => b == a.killed(),
            (AnyObstacle::ObstacleExplosion(a), AnyObstacle::ObstacleExplosion(b)) => b == a,
            _ => false,
        }
    }
}

impl Obstacle for AnyObstacle {
    open spec fn collidable(&self) -> bool {
        match self {
            AnyObstacle::Rock(o) => o.collidable(),
            AnyObstacle::Rocket(o) => o.collidable(),
            AnyObstacle::ObstacleExplosion(o) => o.collidable(),
        }
    }

    open spec fn place(&self) -> Vector2 {
        self.corner()
    }

    open spec fn extent(&self) -> Vector2 {
        self.span()
    }

    open spec fn living(&self) -> bool {
        match self {
            AnyObstacle::Rock(o) => o.living(),
            AnyObstacle::Rocket(o) => o.living(),
            AnyObstacle::ObstacleExplosion(o) => o.living(),
        }
    }

    fn can_collide(&self) -> (r: bool) {
        match self {
            AnyObstacle::Rock(o) => o.can_collide(),
            AnyObstacle::Rocket(o) => o.can_collide(),
            AnyObstacle::ObstacleExplosion(o) => o.can_collide(),
        }
    }

    fn pos(&self) -> (r: Vector2) {
        match self {
            AnyObstacle::Rock(o) => o.pos(),
            AnyObstacle::Rocket(o) => o.pos(),
            AnyObstacle::ObstacleExplosion(o) => o.pos(),
        }
    }

    fn size(&self) -> (r: Vector2) {
        match self {
            AnyObstacle::Rock(o) => o.size(),
            AnyObstacle::Rocket(o) => o.size(),
            AnyObstacle::ObstacleExplosion(o) => o.size(),
        }
    }

    fn is_alive(&self) -> (r: bool) {
        match self {
            AnyObstacle::Rock(o) => o.is_alive(),
            AnyObstacle::Rocket(o) => o.is_alive(),
            AnyObstacle::ObstacleExplosion(o) => o.is_alive(),
        }
    }

    fn update(&mut self, frame_info: FrameInfo)
        ensures
            old(self).steps_to(*final(self), frame_info),
    {
        match self {
            AnyObstacle::Rock(o) => o.update(frame_info),
            AnyObstacle::Rocket(o) => o.update(frame_info),
            AnyObstacle::ObstacleExplosion(o) => o.update(frame_info),
        }
    }

    fn kill(&mut self)
        ensures
            old(self).killed_to(*final(self)),
    {
        match self {
            AnyObstacle::Rock(o) => o.kill(),
            AnyObstacle::Rocket(o) => o.kill(),
            AnyObstacle::ObstacleExplosion(o) => o.kill(),
        }
    }

    fn collides_object(&mut self, pos: Vector2, size: Vector2) -> (r: bool) {
        match self {
            AnyObstacle::Rock(o) => o.collides_object(pos, size),
            AnyObstacle::Rocket(o) => o.collides_object(pos, size),
            AnyObstacle::ObstacleExplosion(o) => o.collides_object(pos, size),
        }
    }

    fn collides_other(&mut self, other: &AnyObstacle) -> (r: bool) {
        match self {
            AnyObstacle::Rock(o) => o.collides_other(other),
            AnyObstacle::Rocket(o) => o.collides_other(other),
            AnyObstacle::ObstacleExplosion(o) => o.collides_other(other),
        }
    }
}

} // verus!
