//! The particle effect engine: particles in ballistic motion that fade out,
//! gathered into bursts.

use vstd::prelude::*;
use rand::rngs::ThreadRng;
use crate::constants::{
    LIFESPAN_DECREASE, MAX_PARTICLE_QTY, MIN_PARTICLE_QTY, PARTICLE_VELOCITY_MULTIPLIER,
    RESOLUTION_X, RESOLUTION_Y,
};
use crate::fixed::{fx_mul, fx_whole_u8, sat_mul, trunc_div, whole_u8, UNIT};
use crate::rng::random_range;
use crate::utils::Vector2;

verus! {

/// How a particle is coloured.
#[derive(Clone, Copy, Debug, PartialEq, Eq, Structural)]
pub enum Paint {
    /// The foreground colour.
    Foreground,
    /// A fully saturated colour of the given hue, in fixed-point degrees.
    Hue(i64),
}

/// One particle of a burst.
#[derive(Clone, Copy, Debug, PartialEq, Eq, Structural)]
pub struct Particle {
    pub pos: Vector2,
    pub velocity: Vector2,
    pub acceleration: Vector2,
    pub paint: Paint,
    pub lifespan: u8,
    pub alive: bool,
}

/// Whether `p` lies in the arena: from zero up to, and without, its extent.
pub open spec fn in_arena(p: Vector2) -> bool {
    0 <= p.x < RESOLUTION_X && 0 <= p.y < RESOLUTION_Y
}

/// The lifespan that a particle loses in a tick that lasts `delta_time`.
pub open spec fn fade(delta_time: i64) -> int {
    whole_u8(sat_mul(LIFESPAN_DECREASE as int, delta_time as int))
}

/// Whether `v` can be the velocity of a fresh particle: a vector with both
/// components in `[-1, 1)`, scaled by a factor in `[0.1, max_init_velocity)`.
pub open spec fn is_launch_velocity(v: Vector2, max_init_velocity: i64) -> bool {
    exists|dx: i64, dy: i64, f: i64|
        -UNIT <= dx < UNIT && -UNIT <= dy < UNIT && UNIT / 10 <= f < max_init_velocity
            && v == #[trigger] (Vector2 { x: dx, y: dy }).scaled(f)
}

/// The paint of the particle of index `i` in a burst of `amount`: the hue
/// sweeps the circle once over a rainbow burst.
pub open spec fn burst_paint(rainbow: bool, i: int, amount: int) -> Paint {
    if rainbow {
        Paint::Hue(trunc_div(i * 360 * UNIT, amount) as i64)
    } else {
        Paint::Foreground
    }
}

impl Particle {
    /// A fresh particle at `pos` that moves with `velocity`.
    pub open spec fn launched(pos: Vector2, velocity: Vector2, paint: Paint) -> Particle {
        Particle {
            pos,
            velocity,
            acceleration: Vector2 { x: 0, y: 0 },
            paint,
            lifespan: u8::MAX,
            alive: true,
        }
    }

    /// The particle after a tick that lasts `delta_time`: its velocity
    /// decays, its lifespan fades, the accumulated acceleration goes into the
    /// velocity and is cleared, the velocity goes into the position, and a
    /// particle that left the arena is marked dead.
    pub open spec fn stepped(self, delta_time: i64) -> Particle {
        let velocity = self.velocity.scaled(PARTICLE_VELOCITY_MULTIPLIER).sum(self.acceleration);
        let pos = self.pos.sum(velocity);
        Particle {
            pos,
            velocity,
            acceleration: Vector2 { x: 0, y: 0 },
            paint: self.paint,
            lifespan: if self.lifespan >= fade(delta_time) {
                (self.lifespan - fade(delta_time)) as u8
            } else {
                0
            },
            alive: self.alive && in_arena(pos),
        }
    }

    /// Whether the particle still has lifespan and has not left the arena.
    pub open spec fn living(self) -> bool {
        self.lifespan != 0 && self.alive
    }

    /// Creates a fresh particle at `pos` with the given velocity.
    pub fn with_velocity(pos: Vector2, velocity: Vector2, paint: Paint) -> (p: Particle)
        ensures
            p == Particle::launched(pos, velocity, paint),
    {
        Particle {
            pos,
            velocity,
            acceleration: Vector2 { x: 0, y: 0 },
            paint,
            lifespan: u8::MAX,
            alive: true,
        }
    }

    /// Creates a fresh particle at `pos` with a random velocity whose scale
    /// factor stays below `max_init_velocity`.
    pub fn new(pos: Vector2, max_init_velocity: i64, paint: Paint, rng: &mut ThreadRng) -> (p: Particle)
        requires
            max_init_velocity > UNIT / 10,
        ensures
            is_launch_velocity(p.velocity, max_init_velocity),
            p == Particle::launched(pos, p.velocity, paint),
    {
        let dx: i64 = random_range(rng, -UNIT, UNIT - 1);
        let dy: i64 = random_range(rng, -UNIT, UNIT - 1);
        let f: i64 = random_range(rng, UNIT / 10, max_init_velocity - 1);
        let direction = Vector2 { x: dx, y: dy };
        let velocity = direction.times(f);
        assert(velocity == (Vector2 { x: dx, y: dy }).scaled(f));
        Particle::with_velocity(pos, velocity, paint)
    }

    /// Adds `f` to the acceleration that the next tick applies.
    pub fn apply_force(&mut self, f: Vector2)
        ensures
            *final(self) == (Particle { acceleration: old(self).acceleration.sum(f), ..*old(self) }),
    {
        self.acceleration = self.acceleration.plus(f);
    }

    /// Advances the particle by one tick that lasts `delta_time`.
    pub fn update(&mut self, delta_time: i64)
        ensures
            *final(self) == old(self).stepped(delta_time),
    {
        self.velocity = self.velocity.times(PARTICLE_VELOCITY_MULTIPLIER);
        let loss: u8 = fx_whole_u8(fx_mul(LIFESPAN_DECREASE, delta_time));
        self.lifespan = if self.lifespan >= loss { self.lifespan - loss } else { 0 };
        self.velocity = self.velocity.plus(self.acceleration);
        self.pos = self.pos.plus(self.velocity);
        self.acceleration = Vector2 { x: 0, y: 0 };
        if self.pos.y >= RESOLUTION_Y || self.pos.y < 0 || self.pos.x >= RESOLUTION_X || self.pos.x < 0 {
            self.alive = false;
        }
    }

    /// Whether the particle still has lifespan and has not left the arena.
    pub fn is_alive(&self) -> (r: bool)
        ensures
            r == self.living(),
    {
        self.lifespan != 0 && self.alive
    }
}

/// A burst of particles and the place where it starts.
#[derive(Debug)]
pub struct Explosion {
    pub pos: Vector2,
    pub particles: Vec<Particle>,
}

/// The particles of `parts` that are left after a tick that lasts
/// `delta_time`: each one advanced, the dead ones removed, the order kept.
pub open spec fn survivors(parts: Seq<Particle>, delta_time: i64) -> Seq<Particle> {
    parts.map_values(|p: Particle| p.stepped(delta_time)).filter(|p: Particle| p.living())
}

/// The particles of `parts` that are left after one tick for each duration
/// of `ticks`, in their order.
pub open spec fn survivors_after(parts: Seq<Particle>, ticks: Seq<i64>) -> Seq<Particle>
    decreases ticks.len(),
{
    if ticks.len() == 0 {
        parts
    } else {
        survivors(survivors_after(parts, ticks.drop_last()), ticks.last())
    }
}

/// Whether every particle of `parts` has a lifespan of at most `bound`.
pub open spec fn lifespans_within(parts: Seq<Particle>, bound: int) -> bool {
    forall|i: int| 0 <= i < parts.len() ==> (#[trigger] parts[i]).lifespan <= bound
}

/// A tick that fades lowers the greatest lifespan among the survivors, and no
/// survivor is left of particles that had one unit of lifespan or none.
pub proof fn lemma_survivors_fade(parts: Seq<Particle>, delta_time: i64, bound: int)
    requires
        fade(delta_time) >= 1,
        lifespans_within(parts, bound),
    ensures
        lifespans_within(survivors(parts, delta_time), bound - 1),
        bound <= 1 ==> survivors(parts, delta_time).len() == 0,
{
    let step = |p: Particle| p.stepped(delta_time);
    let keep = |p: Particle| p.living();
    let moved = parts.map_values(step);
    let left = survivors(parts, delta_time);
    assert forall|i: int| 0 <= i < left.len() implies 1 <= (#[trigger] left[i]).lifespan <= bound - 1 by {
        moved.lemma_filter_pred(keep, i);
        assert(moved.filter(keep).contains(left[i]));
        moved.lemma_filter_contains_rev(keep, left[i]);
        let j = choose|j: int| 0 <= j < moved.len() && moved[j] == left[i];
        assert(moved[j] == parts[j].stepped(delta_time));
    }
    if bound <= 1 && left.len() > 0 {
        assert(1 <= left[0].lifespan <= bound - 1);
    }
}

/// After `ticks`, each of which fades, no survivor has more lifespan than the
/// greatest lifespan less the number of ticks.
pub proof fn lemma_lifespans_after(parts: Seq<Particle>, ticks: Seq<i64>)
    requires
        forall|k: int| 0 <= k < ticks.len() ==> fade(#[trigger] ticks[k]) >= 1,
    ensures
        lifespans_within(survivors_after(parts, ticks), u8::MAX - ticks.len()),
        ticks.len() >= u8::MAX ==> survivors_after(parts, ticks).len() == 0,
    decreases ticks.len(),
{
    if ticks.len() > 0 {
        let earlier = ticks.drop_last();
        lemma_lifespans_after(parts, earlier);
        lemma_survivors_fade(survivors_after(parts, earlier), ticks.last(), u8::MAX - earlier.len());
    }
}

/// Every burst dies out. Whatever its particles are, once it has been
/// advanced by as many ticks as the greatest lifespan, each long enough to
/// fade a particle by one unit or more, no particle is left.
pub proof fn lemma_explosion_terminates(parts: Seq<Particle>, ticks: Seq<i64>)
    requires
        ticks.len() >= u8::MAX,
        forall|k: int| 0 <= k < ticks.len() ==> fade(#[trigger] ticks[k]) >= 1,
    ensures
        survivors_after(parts, ticks).len() == 0,
{
    lemma_lifespans_after(parts, ticks);
}

impl Explosion {
    /// Whether `self` is `before` with a fresh burst of `amount` particles
    /// appended: the particles of `before` stay, and each new one starts at
    /// the burst's place with a launch velocity and the paint of its index.
    pub open spec fn is_burst_of(self, before: Explosion, max_velocity: i64, rainbow: bool, amount: int) -> bool {
        &&& self.pos == before.pos
        &&& self.particles@.len() == before.particles@.len() + amount
        &&& self.particles@.take(before.particles@.len() as int) == before.particles@
        &&& forall|i: int|
            0 <= i < amount ==> {
                let p = #[trigger] self.particles@[before.particles@.len() + i];
                &&& is_launch_velocity(p.velocity, max_velocity)
                &&& p == Particle::launched(before.pos, p.velocity, burst_paint(rainbow, i, amount))
            }
    }

    /// Creates a burst at `pos` that holds no particle yet.
    pub fn new(pos: Vector2) -> (e: Explosion)
        ensures
            e.pos == pos,
            e.particles@.len() == 0,
    {
        Explosion { pos, particles: Vec::with_capacity(MAX_PARTICLE_QTY) }
    }

    /// Adds a burst of particles at the explosion's place. Their number is
    /// drawn from `MIN_PARTICLE_QTY` up to, and without, `MAX_PARTICLE_QTY`.
    pub fn explode(&mut self, max_velocity: i64, rainbow: bool, rng: &mut ThreadRng)
        requires
            max_velocity > UNIT / 10,
        ensures
            exists|amount: int|
                MIN_PARTICLE_QTY <= amount < MAX_PARTICLE_QTY && #[trigger] final(self).is_burst_of(
                    *old(self),
                    max_velocity,
                    rainbow,
                    amount,
                ),
    {
        let amt: i64 = random_range(rng, MIN_PARTICLE_QTY as i64, MAX_PARTICLE_QTY as i64 - 1);
        let ghost before = *self;
        let mut i: i64 = 0;
        while i < amt
            invariant
                0 <= i <= amt,
                MIN_PARTICLE_QTY <= amt < MAX_PARTICLE_QTY,
                max_velocity > UNIT / 10,
                self.pos == before.pos,
                self.particles@.len() == before.particles@.len() + i,
                self.particles@.take(before.particles@.len() as int) == before.particles@,
                forall|j: int|
                    0 <= j < i ==> {
                        let p = #[trigger] self.particles@[before.particles@.len() + j];
                        &&& is_launch_velocity(p.velocity, max_velocity)
                        &&& p == Particle::launched(before.pos, p.velocity, burst_paint(rainbow, j, amt as int))
                    },
            decreases amt - i,
        {
            let paint = if rainbow {
                Paint::Hue((i * 360 * UNIT) / amt)
            } else {
                Paint::Foreground
            };
            let ghost prev = self.particles@;
            let p = Particle::new(self.pos, max_velocity, paint, rng);
            self.particles.push(p);
            assert(self.particles@.take(before.particles@.len() as int) =~= prev.take(
                before.particles@.len() as int,
            ));
            i = i + 1;
        }
        assert(final(self).is_burst_of(before, max_velocity, rainbow, amt as int));
    }

    /// Moves the explosion to `pos` and adds a burst of particles there.
    pub fn explode_with_pos(&mut self, pos: Vector2, max_velocity: i64, rainbow: bool, rng: &mut ThreadRng)
        requires
            max_velocity > UNIT / 10,
        ensures
            exists|amount: int|
                MIN_PARTICLE_QTY <= amount < MAX_PARTICLE_QTY && #[trigger] final(self).is_burst_of(
                    Explosion { pos, particles: old(self).particles },
                    max_velocity,
                    rainbow,
                    amount,
                ),
    {
        self.pos = pos;
        self.explode(max_velocity, rainbow, rng);
    }

    /// Advances every particle by one tick that lasts `delta_time` and drops
    /// the dead ones.
    pub fn update(&mut self, delta_time: i64)
        ensures
            final(self).pos == old(self).pos,
            final(self).particles@ == survivors(old(self).particles@, delta_time),
    {
        let ghost step = |p: Particle| p.stepped(delta_time);
        let ghost keep = |p: Particle| p.living();
        let mut kept: Vec<Particle> = Vec::new();
        let n: usize = self.particles.len();
        let mut i: usize = 0;
        while i < n
            invariant
                0 <= i <= n,
                n == self.particles@.len(),
                self.particles@ == old(self).particles@,
                step == |p: Particle| p.stepped(delta_time),
                keep == |p: Particle| p.living(),
                kept@ == self.particles@.take(i as int).map_values(step).filter(keep),
            decreases n - i,
        {
            let mut p = self.particles[i];
            p.update(delta_time);
            proof {
                self.particles@.lemma_map_take_succ(step, i as int);
                self.particles@.take(i as int).map_values(step).lemma_filter_push(p, keep);
            }
            if p.is_alive() {
                kept.push(p);
            }
            i = i + 1;
        }
        assert(self.particles@.take(n as int) == self.particles@);
        self.particles = kept;
    }

    /// Whether any particle is left.
    pub fn is_alive(&self) -> (r: bool)
        ensures
            r == (self.particles@.len() != 0),
    {
        self.particles.len() != 0
    }
}

} // verus!
