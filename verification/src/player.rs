//! The player: a square that falls, jumps, sprints and dies at the walls, and
//! that bounces on its own while no game is on.

use vstd::prelude::*;
use rand::rngs::ThreadRng;
use crate::bomb::{cycle, cycled};
use crate::constants::{
    DEATH_MAX_INIT_PARTICLE_VELOCITY, GRAVITY_Y, HOVER_RAINBOW_DELTA, HOVER_SPACE, JUMP_VELOCITY,
    MAX_PARTICLE_QTY, MIN_PARTICLE_QTY, PLAYER_SIZE, PLAYER_VELOCITY_X, RAINBOW_DELTA,
    RESOLUTION_X, RESOLUTION_Y, SPRINT_VELOCITY,
};
use crate::explosion::{survivors, Explosion, Particle};
use crate::fixed::{
    fx_add, fx_mul, fx_neg, fx_whole, sat_add, sat_mul, sat_neg, whole, UNIT,
};
use crate::frame::FrameInfo;
use crate::pad::Pad;
use crate::rng::random_coin;
use crate::utils::Vector2;

verus! {

/// The player.
#[derive(Debug)]
pub struct Player {
    /// The score.
    pub count: u64,
    /// Whether a game is on. While none is, the player bounces on its own.
    pub playing: bool,
    pub sprinting: bool,
    /// Whether an obstacle has hit the player since the last check for death.
    pub dead: bool,
    /// The place in the colour cycle, from zero to one.
    pub rainbow_cnt: i64,
    pub pos: Vector2,
    pub velocity: Vector2,
    /// The burst of the player's death.
    pub explosion: Explosion,
}

/// What a player is: its fields, with the particles of its burst as a
/// sequence.
pub struct PlayerView {
    pub count: u64,
    pub playing: bool,
    pub sprinting: bool,
    pub dead: bool,
    pub rainbow_cnt: i64,
    pub pos: Vector2,
    pub velocity: Vector2,
    pub burst_pos: Vector2,
    pub particles: Seq<Particle>,
}

impl View for Player {
    type V = PlayerView;

    open spec fn view(&self) -> PlayerView {
        PlayerView {
            count: self.count,
            playing: self.playing,
            sprinting: self.sprinting,
            dead: self.dead,
            rainbow_cnt: self.rainbow_cnt,
            pos: self.pos,
            velocity: self.velocity,
            burst_pos: self.explosion.pos,
            particles: self.explosion.particles@,
        }
    }
}

/// The centre of the arena, where the player starts.
pub open spec fn center() -> Vector2 {
    Vector2 { x: (RESOLUTION_X / 2) as i64, y: (RESOLUTION_Y / 2) as i64 }
}

/// The velocity with which the player sets off: to the right or to the left.
pub open spec fn start_velocity(rightward: bool) -> Vector2 {
    if rightward {
        Vector2 { x: PLAYER_VELOCITY_X, y: 0 }
    } else {
        Vector2 { x: (-PLAYER_VELOCITY_X) as i64, y: 0 }
    }
}

/// Whether `v` is one of the two velocities with which the player sets off.
pub open spec fn is_start_velocity(v: Vector2) -> bool {
    v == start_velocity(true) || v == start_velocity(false)
}

/// The velocity `v` after gravity has acted for `delta_time`.
pub open spec fn fallen(v: Vector2, delta_time: i64) -> Vector2 {
    v.sum(Vector2 { x: 0, y: sat_mul(GRAVITY_Y as int, delta_time as int) as i64 })
}

impl PlayerView {
    /// The player put back to the start of the idle state, setting off with
    /// `velocity`. The burst stays as it is.
    pub open spec fn reset_with(self, velocity: Vector2) -> PlayerView {
        PlayerView {
            count: 0,
            playing: false,
            sprinting: false,
            dead: false,
            rainbow_cnt: 0,
            pos: center(),
            velocity,
            ..self
        }
    }

    /// The player at the start of a game, setting off with `velocity`.
    pub open spec fn started_with(self, velocity: Vector2) -> PlayerView {
        PlayerView { playing: true, pos: center(), velocity, ..self }
    }

    /// The player after a jump, setting off with `velocity` where the jump
    /// starts the game. A sprinting player does not rise.
    pub open spec fn jumped_with(self, velocity: Vector2) -> PlayerView {
        let p = if self.playing {
            self
        } else {
            self.started_with(velocity)
        };
        if p.sprinting {
            p
        } else {
            PlayerView { velocity: Vector2 { x: p.velocity.x, y: (-JUMP_VELOCITY) as i64 }, ..p }
        }
    }

    /// The player after a pad has turned it back: one point more, and the
    /// horizontal velocity reversed.
    pub open spec fn inverted(self) -> PlayerView {
        PlayerView {
            count: (self.count + 1) as u64,
            velocity: Vector2 { x: sat_neg(self.velocity.x as int) as i64, y: self.velocity.y },
            ..self
        }
    }

    /// `x` with the sign of the player's horizontal direction.
    pub open spec fn toward(self, x: i64) -> int {
        if self.velocity.x > 0 {
            x as int
        } else {
            sat_neg(x as int)
        }
    }

    /// Where the player dies, if it does. The causes are tried in this order
    /// and the first one that holds decides: a hit by an obstacle, at the
    /// player's place; the left wall, unless the left pad is in contact with
    /// the player; the right wall; the upper wall; the lower wall, unless the
    /// right pad is in contact with the player. The burst of a wall starts on
    /// that wall.
    pub open spec fn death_site(self, left_pad: Pad, right_pad: Pad, tolerance: i64) -> Option<Vector2> {
        if self.dead {
            Some(self.pos)
        } else if self.pos.x <= 0 && !left_pad.touches(self.pos, tolerance) {
            Some(Vector2 { x: 0, y: self.pos.y })
        } else if sat_add(self.pos.x as int, PLAYER_SIZE as int) >= RESOLUTION_X {
            Some(Vector2 { x: (RESOLUTION_X - UNIT) as i64, y: self.pos.y })
        } else if self.pos.y <= 0 {
            Some(Vector2 { x: self.pos.x, y: 0 })
        } else if sat_add(self.pos.y as int, PLAYER_SIZE as int) >= RESOLUTION_Y && !right_pad.touches(
            self.pos,
            tolerance,
        ) {
            Some(Vector2 { x: self.pos.x, y: (RESOLUTION_Y - UNIT) as i64 })
        } else {
            None
        }
    }

    /// The velocity with which the idle player enters a tick: a player that
    /// stands still sets off toward the farther wall; below the hover line
    /// it jumps; within `tolerance` of a side wall it turns back.
    pub open spec fn hover_velocity(self, tolerance: i64) -> Vector2 {
        let v0 = if whole(self.velocity.x as int) == 0 {
            start_velocity(self.pos.x < RESOLUTION_X / 2)
        } else {
            self.velocity
        };
        let v1 = if self.pos.y > RESOLUTION_Y / 2 + HOVER_SPACE {
            Vector2 { x: v0.x, y: (-JUMP_VELOCITY) as i64 }
        } else {
            v0
        };
        if sat_add(sat_add(self.pos.x as int, PLAYER_SIZE as int), tolerance as int) >= RESOLUTION_X
            || self.pos.x <= tolerance {
            Vector2 { x: sat_neg(v1.x as int) as i64, y: v1.y }
        } else {
            v1
        }
    }

    /// The player after the frame `frame_info`.
    ///
    /// While the burst of its death lasts, only the burst advances. In a
    /// game, a sprinting player moves level at the sprint speed in its
    /// direction and its colour cycles; one that does not sprint falls: the
    /// gravity goes into the velocity and the velocity into the position.
    /// The idle player falls with its hover velocity and its colour cycles
    /// slowly.
    pub open spec fn updated(self, frame_info: FrameInfo) -> PlayerView {
        let dt = frame_info.delta_time;
        if self.particles.len() != 0 {
            PlayerView { particles: survivors(self.particles, dt), ..self }
        } else if self.playing {
            if self.sprinting {
                PlayerView {
                    pos: Vector2 {
                        x: sat_add(self.pos.x as int, sat_mul(self.toward(SPRINT_VELOCITY), dt as int)) as i64,
                        y: self.pos.y,
                    },
                    rainbow_cnt: cycled(self.rainbow_cnt, RAINBOW_DELTA, dt) as i64,
                    ..self
                }
            } else {
                let velocity = fallen(self.velocity, dt);
                PlayerView { velocity, pos: self.pos.sum(velocity.scaled(dt)), ..self }
            }
        } else {
            let velocity = fallen(self.hover_velocity(frame_info.tolerance), dt);
            PlayerView {
                velocity,
                pos: self.pos.sum(velocity.scaled(dt)),
                rainbow_cnt: cycled(self.rainbow_cnt, HOVER_RAINBOW_DELTA, dt) as i64,
                ..self
            }
        }
    }
}

impl Player {
    /// Whether `after` is this player, dead at `site`: put back to the idle
    /// state with one of the two start velocities, and with a fresh burst of
    /// the foreground colour at `site` added to its particles.
    pub open spec fn dies_to(self, after: Player, site: Vector2) -> bool {
        &&& is_start_velocity(after.velocity)
        &&& after@ == (PlayerView { burst_pos: site, particles: after@.particles, ..self@.reset_with(after.velocity) })
        &&& exists|amount: int|
            MIN_PARTICLE_QTY <= amount < MAX_PARTICLE_QTY && #[trigger] after.explosion.is_burst_of(
                Explosion { pos: site, particles: self.explosion.particles },
                DEATH_MAX_INIT_PARTICLE_VELOCITY,
                false,
                amount,
            )
    }

    /// The velocity with which the player sets off to the right or to the
    /// left.
    pub fn base_velocity_toward(rightward: bool) -> (v: Vector2)
        ensures
            v == start_velocity(rightward),
    {
        if rightward {
            Vector2 { x: PLAYER_VELOCITY_X, y: 0 }
        } else {
            Vector2 { x: -PLAYER_VELOCITY_X, y: 0 }
        }
    }

    /// One of the two velocities with which the player sets off, at random.
    pub fn base_velocity(rng: &mut ThreadRng) -> (v: Vector2)
        ensures
            is_start_velocity(v),
    {
        Player::base_velocity_toward(random_coin(rng))
    }

    /// The idle player at the centre of the arena, at rest, with no score
    /// and no burst.
    pub open spec fn new_view() -> PlayerView {
        PlayerView {
            count: 0,
            playing: false,
            sprinting: false,
            dead: false,
            rainbow_cnt: 0,
            pos: center(),
            velocity: Vector2 { x: 0, y: 0 },
            burst_pos: center(),
            particles: Seq::empty(),
        }
    }

    /// Creates the idle player at the centre of the arena, at rest, with no
    /// score and no burst.
    pub fn new() -> (player: Player)
        ensures
            player@ == Player::new_view(),
    {
        let pos = Vector2 { x: RESOLUTION_X / 2, y: RESOLUTION_Y / 2 };
        let player = Player {
            count: 0,
            playing: false,
            sprinting: false,
            dead: false,
            rainbow_cnt: 0,
            pos,
            velocity: Vector2::zero(),
            explosion: Explosion::new(pos),
        };
        assert(player@.particles =~= Seq::empty());
        player
    }

    /// Sets the player off to the right or to the left.
    pub fn init(&mut self, rng: &mut ThreadRng)
        ensures
            is_start_velocity(final(self).velocity),
            final(self)@ == (PlayerView { velocity: final(self).velocity, ..old(self)@ }),
    {
        self.velocity = Player::base_velocity(rng);
    }

    fn reset_pos(&mut self)
        ensures
            final(self)@ == (PlayerView { pos: center(), ..old(self)@ }),
    {
        self.pos = Vector2 { x: RESOLUTION_X / 2, y: RESOLUTION_Y / 2 };
    }

    /// Puts the player back to the start of the idle state and sets it off
    /// to the right or to the left. The burst stays as it is.
    pub fn reset(&mut self, rng: &mut ThreadRng)
        ensures
            is_start_velocity(final(self).velocity),
            final(self)@ == old(self)@.reset_with(final(self).velocity),
    {
        self.count = 0;
        self.playing = false;
        self.dead = false;
        self.sprinting = false;
        self.rainbow_cnt = 0;
        self.velocity = Player::base_velocity(rng);
        self.reset_pos();
    }

    /// Starts a sprint: the player stops falling.
    pub fn sprint_on(&mut self)
        ensures
            final(self)@ == (PlayerView {
                sprinting: true,
                velocity: Vector2 { x: old(self).velocity.x, y: 0 },
                ..old(self)@
            }),
    {
        self.sprinting = true;
        self.velocity.y = 0;
    }

    /// Ends a sprint.
    pub fn sprint_off(&mut self)
        ensures
            final(self)@ == (PlayerView { sprinting: false, ..old(self)@ }),
    {
        self.sprinting = false;
    }

    /// Starts a game: the player sets off from the centre, to the right or
    /// to the left.
    pub fn start(&mut self, rng: &mut ThreadRng)
        ensures
            is_start_velocity(final(self).velocity),
            final(self)@ == old(self)@.started_with(final(self).velocity),
    {
        self.playing = true;
        self.reset_pos();
        self.velocity = Player::base_velocity(rng);
    }

    /// Turns the player back at a pad and scores a point.
    pub fn invert(&mut self)
        requires
            old(self).count < u64::MAX,
        ensures
            final(self)@ == old(self)@.inverted(),
    {
        self.count += 1;
        self.velocity.x = fx_neg(self.velocity.x);
    }

    /// Makes the player jump. The first jump starts the game.
    pub fn jump(&mut self, rng: &mut ThreadRng)
        ensures
            old(self).playing ==> final(self)@ == old(self)@.jumped_with(old(self).velocity),
            !old(self).playing ==> exists|rightward: bool|
                final(self)@ == old(self)@.jumped_with(#[trigger] start_velocity(rightward)),
    {
        if !self.playing {
            self.start(rng);
        }
        if !self.sprinting {
            self.velocity.y = -JUMP_VELOCITY;
        }
    }

    /// Where the player dies, if it does.
    pub fn death_site(&self, left_pad: &Pad, right_pad: &Pad, tolerance: i64) -> (site: Option<Vector2>)
        ensures
            site == self@.death_site(*left_pad, *right_pad, tolerance),
    {
        if self.dead {
            Some(self.pos)
        } else if self.pos.x <= 0 && !left_pad.is_touched(self.pos, tolerance) {
            Some(Vector2 { x: 0, y: self.pos.y })
        } else if fx_add(self.pos.x, PLAYER_SIZE) >= RESOLUTION_X {
            Some(Vector2 { x: RESOLUTION_X - UNIT, y: self.pos.y })
        } else if self.pos.y <= 0 {
            Some(Vector2 { x: self.pos.x, y: 0 })
        } else if fx_add(self.pos.y, PLAYER_SIZE) >= RESOLUTION_Y && !right_pad.is_touched(
            self.pos,
            tolerance,
        ) {
            Some(Vector2 { x: self.pos.x, y: RESOLUTION_Y - UNIT })
        } else {
            None
        }
    }

    /// Checks whether the player dies in this frame. A player that dies
    /// bursts where it died and is put back to the idle state; one that does
    /// not is left as it is.
    pub fn is_dead(&mut self, left_pad: &Pad, right_pad: &Pad, tolerance: i64, rng: &mut ThreadRng) -> (r:
        bool)
        ensures
            r == old(self)@.death_site(*left_pad, *right_pad, tolerance).is_some(),
            !r ==> *final(self) == *old(self),
            r ==> old(self).dies_to(*final(self), old(self)@.death_site(*left_pad, *right_pad, tolerance)->0),
    {
        match self.death_site(left_pad, right_pad, tolerance) {
            None => false,
            Some(site) => {
                let ghost before = Explosion { pos: site, particles: self.explosion.particles };
                self.explosion.explode_with_pos(site, DEATH_MAX_INIT_PARTICLE_VELOCITY, false, rng);
                let ghost amount = choose|amount: int|
                    MIN_PARTICLE_QTY <= amount < MAX_PARTICLE_QTY && #[trigger] self.explosion.is_burst_of(
                        before,
                        DEATH_MAX_INIT_PARTICLE_VELOCITY,
                        false,
                        amount,
                    );
                self.reset(rng);
                assert(self.explosion.is_burst_of(before, DEATH_MAX_INIT_PARTICLE_VELOCITY, false, amount));
                true
            },
        }
    }

    fn dir(&self, x: i64) -> (r: i64)
        ensures
            r == self@.toward(x),
    {
        if self.velocity.x > 0 {
            x
        } else {
            fx_neg(x)
        }
    }

    /// Advances the player by one frame.
    pub fn update(&mut self, frame_info: FrameInfo)
        ensures
            final(self)@ == old(self)@.updated(frame_info),
    {
        let dt: i64 = frame_info.delta_time;
        let gravity = Vector2 { x: 0, y: fx_mul(GRAVITY_Y, dt) };
        if self.explosion.is_alive() {
            self.explosion.update(dt);
        } else if self.playing {
            if self.sprinting {
                self.pos.x = fx_add(self.pos.x, fx_mul(self.dir(SPRINT_VELOCITY), dt));
                self.rainbow_cnt = cycle(self.rainbow_cnt, RAINBOW_DELTA, dt);
            } else {
                self.velocity = self.velocity.plus(gravity);
                self.pos = self.pos.plus(self.velocity.times(dt));
            }
        } else {
            if fx_whole(self.velocity.x) == 0 {
                self.velocity = Player::base_velocity_toward(self.pos.x < RESOLUTION_X / 2);
            }
            if self.pos.y > RESOLUTION_Y / 2 + HOVER_SPACE {
                self.velocity.y = -JUMP_VELOCITY;
            }
            if fx_add(fx_add(self.pos.x, PLAYER_SIZE), frame_info.tolerance) >= RESOLUTION_X || self.pos.x
                <= frame_info.tolerance {
                self.velocity.x = fx_neg(self.velocity.x);
            }
            self.velocity = self.velocity.plus(gravity);
            self.pos = self.pos.plus(self.velocity.times(dt));
            self.rainbow_cnt = cycle(self.rainbow_cnt, HOVER_RAINBOW_DELTA, dt);
        }
    }
}

} // verus!
