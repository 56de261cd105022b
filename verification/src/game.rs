//! The game as a whole: the state that one frame takes to the next, the rise
//! of the difficulty, the spawning of hazards, projectiles and pickups, and
//! the collisions between them all.

use vstd::prelude::*;
use rand::rngs::ThreadRng;
use crate::bomb::Bomb;
use crate::constants::{
    ALPHA_CHANGE, BOMB_MAX_DESTROYED_OBSTACLES, HIT_COOLDOWN, MAX_PARTICLE_QTY, MIN_PARTICLE_QTY,
    OBSTACLE_COLLISION_MAX_VELOCITY, SPRINT_ALPHA_CHANGE, SPRINT_COOLDOWN, START_DIFFICULTY,
};
use crate::explosion::Explosion;
use crate::obstacle::explosion::ObstacleExplosion;
use crate::fixed::{fx_mul, fx_whole_u8, sat_mul, whole_u8, UNIT};
use crate::frame::{tolerance_of, FrameInfo};
use crate::obstacle::{AnyObstacle, Obstacle};
use crate::obstacle_grid::ObstacleGrid;
use crate::pad::Pad;
use crate::player::{start_velocity, Player, PlayerView};
use crate::utils::Vector2;

pub mod clash;
pub mod pace;
pub mod pickup;
pub mod retire;
pub mod spawn;

verus! {

/// What the player asks for in one frame, whatever device it comes from.
#[derive(Clone, Copy, Debug, PartialEq, Eq, Structural)]
pub struct Input {
    /// A jump was asked for in this frame.
    pub jump: bool,
    /// A sprint was asked for in this frame.
    pub sprint_pressed: bool,
    /// The sprint is still held by touch.
    pub sprint_held: bool,
    /// The sprint was let go in this frame.
    pub sprint_released: bool,
}

/// A sound that the frame asks for.
#[derive(Clone, Copy, Debug, PartialEq, Eq, Structural)]
pub enum Cue {
    /// A pad turned the player back.
    Hit,
    /// The player died.
    Death,
    /// The player picked up the pickup.
    Bomb,
    /// An obstacle burst, or the pickup awarded its points.
    Pew,
    /// The projectile `id` entered the arena: its sound starts.
    RocketLaunched { id: u16 },
    /// The projectile `id` is at the horizontal place `x`: its sound pans.
    RocketPan { id: u16, x: i64 },
    /// The projectile `id` left the game: its sound stops.
    RocketStopped { id: u16 },
    /// Every projectile left the game: their sounds stop.
    AllRocketsStopped,
}

/// An inconsistency in the game's own accounts.
#[derive(Clone, Copy, Debug, PartialEq, Eq, Structural)]
pub enum GameError {
    /// A hazard that left the game held the slot `id`, which was not active.
    DoubleFree { id: u16 },
}

/// The whole state of the game.
#[derive(Debug)]
pub struct NotPong {
    pub player: Player,
    pub left_pad: Pad,
    pub right_pad: Pad,
    /// The obstacles, in the order in which they appeared.
    pub obstacles: Vec<AnyObstacle>,
    pub obstacle_grid: ObstacleGrid,
    /// The pickup, if there is one.
    pub bomb: Option<Bomb>,
    /// Against the obstacle probability, the chance that an obstacle appears.
    pub difficulty: u16,
    /// The score at which the difficulty rose last.
    pub last_player_count: u64,
    pub custom_pad_count: u32,
    /// The sprint charge.
    pub sprint_amount: i64,
    /// The opacity of the background wash per reference tick.
    pub alpha_change: u8,
    /// The reference ticks since the last sprint began.
    pub sprint_cooldown: i64,
    /// The reference ticks since the last deflection.
    pub hit_cooldown: i64,
    pub rng: ThreadRng,
    /// The number of frames so far.
    pub frame_n: u64,
    /// The identifier of the next projectile.
    pub curr_rocket_id: u16,
}

/// The numbers that the game keeps beside its entities.
pub struct Counters {
    pub difficulty: u16,
    pub last_player_count: u64,
    pub custom_pad_count: u32,
    pub sprint_amount: i64,
    pub alpha_change: u8,
    pub sprint_cooldown: i64,
    pub hit_cooldown: i64,
    pub frame_n: u64,
    pub curr_rocket_id: u16,
}

/// The numbers of a game that starts at the frame `frame_n`.
pub open spec fn start_counters(frame_n: u64) -> Counters {
    Counters {
        difficulty: START_DIFFICULTY,
        last_player_count: 0,
        custom_pad_count: 0,
        sprint_amount: 0,
        alpha_change: ALPHA_CHANGE,
        sprint_cooldown: SPRINT_COOLDOWN,
        hit_cooldown: HIT_COOLDOWN,
        frame_n,
        curr_rocket_id: 0,
    }
}

/// The opacity of the background wash of a frame that lasts `delta_time`.
pub open spec fn wash(alpha_change: u8, delta_time: i64) -> int {
    whole_u8(sat_mul(alpha_change as int * UNIT, delta_time as int))
}

/// The number that follows `n`, and zero after the last.
pub open spec fn next_frame(n: u64) -> u64 {
    if n == u64::MAX {
        0
    } else {
        (n + 1) as u64
    }
}

/// Whether `explosion` is a rainbow burst at `pos` of the size and the speed
/// of a collision burst, and nothing else.
pub open spec fn is_fresh_burst(explosion: Explosion, pos: Vector2) -> bool {
    exists|amount: int, empty: Explosion|
        {
            &&& MIN_PARTICLE_QTY <= amount < MAX_PARTICLE_QTY
            &&& empty.pos == pos
            &&& empty.particles@.len() == 0
            &&& #[trigger] explosion.is_burst_of(empty, OBSTACLE_COLLISION_MAX_VELOCITY, true, amount)
        }
}

/// Whether `after` is the obstacle `before` at a later time: of the same
/// kind, with the same identifier and, for a projectile, the same edge.
pub open spec fn same_identity(before: AnyObstacle, after: AnyObstacle) -> bool {
    match (before, after) {
        (AnyObstacle::Rock(a), AnyObstacle::Rock(b)) => a.id == b.id,
        (AnyObstacle::Rocket(a), AnyObstacle::Rocket(b)) => a.id == b.id && a.base == b.base,
        (AnyObstacle::ObstacleExplosion(_), AnyObstacle::ObstacleExplosion(_)) => true,
        _ => false,
    }
}

/// Whether `after` holds the obstacles of `before`, each in its place and
/// with its identity, followed by bursts only.
pub open spec fn grown_by_bursts(before: Seq<AnyObstacle>, after: Seq<AnyObstacle>) -> bool {
    &&& before.len() <= after.len()
    &&& forall|k: int| 0 <= k < before.len() ==> same_identity(before[k], #[trigger] after[k])
    &&& forall|k: int| before.len() <= k < after.len() ==> (#[trigger] after[k]) is ObstacleExplosion
}

impl NotPong {
    /// The numbers that the game keeps beside its entities.
    pub open spec fn counters(&self) -> Counters {
        Counters {
            difficulty: self.difficulty,
            last_player_count: self.last_player_count,
            custom_pad_count: self.custom_pad_count,
            sprint_amount: self.sprint_amount,
            alpha_change: self.alpha_change,
            sprint_cooldown: self.sprint_cooldown,
            hit_cooldown: self.hit_cooldown,
            frame_n: self.frame_n,
            curr_rocket_id: self.curr_rocket_id,
        }
    }

    /// Whether this state and `other` are the same game: they agree on all
    /// but the state of the random generator, of which nothing is known.
    pub open spec fn agrees(&self, other: &NotPong) -> bool {
        &&& self.player == other.player
        &&& self.same_field(other)
        &&& self.counters() == other.counters()
    }

    /// Whether this state and `other` agree on the pads, the obstacles, the
    /// grid and the pickup.
    pub open spec fn same_field(&self, other: &NotPong) -> bool {
        &&& self.left_pad == other.left_pad
        &&& self.right_pad == other.right_pad
        &&& self.obstacles == other.obstacles
        &&& self.obstacle_grid == other.obstacle_grid
        &&& self.bomb == other.bomb
    }

    /// The invariant of the game: its grid is well formed, and a pickup
    /// awards no more points than it can go after hazards.
    pub open spec fn wf(&self) -> bool {
        &&& self.obstacle_grid.wf()
        &&& self.bomb matches Some(bomb) ==> bomb.give_points <= BOMB_MAX_DESTROYED_OBSTACLES
    }

    /// Whether a sprint can begin: there is charge, and the time between
    /// two sprints has passed.
    pub open spec fn can_sprint(&self) -> bool {
        self.sprint_amount > 0 && self.sprint_cooldown >= SPRINT_COOLDOWN
    }

    /// Whether a deflection counts: the time between two has passed.
    pub open spec fn can_hit(&self) -> bool {
        self.hit_cooldown >= HIT_COOLDOWN
    }

    /// Whether the player obeys the input: it neither sprints nor bursts.
    pub open spec fn listens(&self) -> bool {
        !self.player.sprinting && self.player@.particles.len() == 0
    }

    /// Whether `after` is this state with everything but the player and the
    /// pads put back: no obstacle, no pickup, a fresh grid, and the numbers
    /// at their start, but for the background wash and the frame number.
    pub open spec fn clears_to(&self, after: &NotPong) -> bool {
        &&& after.player == self.player
        &&& after.left_pad == self.left_pad
        &&& after.right_pad == self.right_pad
        &&& after.obstacles@.len() == 0
        &&& after.obstacle_grid.is_fresh()
        &&& after.bomb is None
        &&& after.counters() == (Counters { alpha_change: self.alpha_change, ..start_counters(self.frame_n) })
    }

    /// Whether `after` is this state started over: as a fresh game, but for
    /// the player, who only ends its sprint, and the frame number.
    pub open spec fn restarts_to(&self, after: &NotPong) -> bool {
        &&& after.player@ == (PlayerView { sprinting: false, ..self.player@ })
        &&& after.left_pad == self.left_pad.reset_pad()
        &&& after.right_pad == self.right_pad.reset_pad()
        &&& after.obstacles@.len() == 0
        &&& after.obstacle_grid.is_fresh()
        &&& after.bomb is None
        &&& after.counters() == start_counters(self.frame_n)
    }

    /// Whether `after` is this state after the player jumped, starting the
    /// game where none was on.
    pub open spec fn jumps_to(&self, after: &NotPong) -> bool {
        &&& after.same_field(self)
        &&& after.counters() == self.counters()
        &&& if self.player.playing {
            after.player@ == self.player@.jumped_with(self.player.velocity)
        } else {
            exists|rightward: bool| after.player@ == self.player@.jumped_with(#[trigger] start_velocity(rightward))
        }
    }

    /// Whether `after` is this state after a sprint was asked for: begun
    /// where one can begin, refused where not.
    pub open spec fn sprints_to(&self, after: &NotPong) -> bool {
        if self.can_sprint() {
            &&& after.player@ == (PlayerView {
                sprinting: true,
                velocity: Vector2 { x: self.player.velocity.x, y: 0 },
                ..self.player@
            })
            &&& after.same_field(self)
            &&& after.counters() == (Counters {
                alpha_change: SPRINT_ALPHA_CHANGE,
                sprint_cooldown: 0,
                ..self.counters()
            })
        } else {
            after.agrees(self)
        }
    }

    /// Whether `after` is this state after the sprint ended.
    pub open spec fn rests_to(&self, after: &NotPong) -> bool {
        &&& after.player@ == (PlayerView { sprinting: false, ..self.player@ })
        &&& after.same_field(self)
        &&& after.counters() == (Counters { alpha_change: ALPHA_CHANGE, ..self.counters() })
    }

    /// Whether `after` is this state after a pad touched the player: turned
    /// back with a point more where a deflection counts, and unchanged where
    /// not.
    pub open spec fn inverts_to(&self, after: &NotPong) -> bool {
        if self.can_hit() {
            &&& after.player@ == self.player@.inverted()
            &&& after.same_field(self)
            &&& after.counters() == (Counters { hit_cooldown: 0, ..self.counters() })
        } else {
            after.agrees(self)
        }
    }

    /// Whether `after` is this state after the input of one frame.
    ///
    /// A player that neither sprints nor bursts takes a sprint, where a game
    /// is on, in preference to a jump. A sprinting player in a game lets the
    /// sprint go when the input says so and no touch holds it. Any other
    /// input changes nothing.
    pub open spec fn keys_to(&self, after: &NotPong, input: Input) -> bool {
        if self.listens() {
            if input.sprint_pressed {
                if self.player.playing {
                    self.sprints_to(after)
                } else {
                    after.agrees(self)
                }
            } else if input.jump {
                self.jumps_to(after)
            } else {
                after.agrees(self)
            }
        } else if !input.sprint_held && self.player.playing && self.player.sprinting && input.sprint_released {
            self.rests_to(after)
        } else {
            after.agrees(self)
        }
    }

    /// Whether `after` is this state after the check for the player's death
    /// in a frame with the contact tolerance `tolerance`, which took the
    /// sounds from `heard` to `heard_after`. A player that dies bursts, the
    /// end of the projectile sounds and the death sound are asked for, and
    /// the game starts over. Where the player lives nothing changes.
    pub open spec fn death_to(&self, after: &NotPong, tolerance: i64, heard: Seq<Cue>, heard_after: Seq<Cue>) -> bool {
        match self.player@.death_site(self.left_pad, self.right_pad, tolerance) {
            Some(site) => {
                &&& heard_after == heard.push(Cue::AllRocketsStopped).push(Cue::Death)
                &&& exists|fallen: NotPong|
                    {
                        &&& self.player.dies_to(fallen.player, site)
                        &&& fallen.same_field(self)
                        &&& fallen.counters() == self.counters()
                        &&& #[trigger] fallen.restarts_to(after)
                    }
            },
            None => after.agrees(self) && heard_after == heard,
        }
    }

    /// Whether `after` is this state after the player's own move in the
    /// frame `frame_info`, with the frame counted.
    pub open spec fn moves_to(&self, after: &NotPong, frame_info: FrameInfo) -> bool {
        &&& after.player@ == self.player@.updated(frame_info)
        &&& after.same_field(self)
        &&& after.counters() == (Counters { frame_n: next_frame(self.frame_n), ..self.counters() })
    }

    /// Whether `after` is this state after the stages of a frame in which a
    /// game is on, which took the sounds from `heard` to `heard_after`: the
    /// pads, the pickup, the difficulty, the spawning, the obstacles, the
    /// retirement of the dead ones and the sprint charge, in this order.
    pub open spec fn plays_to(
        &self,
        after: &NotPong,
        frame_info: FrameInfo,
        logic_due: bool,
        heard: Seq<Cue>,
        heard_after: Seq<Cue>,
    ) -> bool {
        exists|
            padded: NotPong,
            bombed: NotPong,
            raised: NotPong,
            spawned: NotPong,
            clashed: NotPong,
            retired: NotPong,
            h1: Seq<Cue>,
            h2: Seq<Cue>,
            h3: Seq<Cue>,
            h4: Seq<Cue>,
        |
            #![trigger
                self.pads_to(&padded, frame_info, heard, h1),
                padded.bomb_to(&bombed, frame_info, logic_due, h1, h2),
                bombed.raises_to(&raised),
                raised.spawns_to(&spawned, logic_due, h2, h3),
                spawned.clashes_to(&clashed, frame_info, h3, h4),
                clashed.retires_to(&retired, h4, heard_after),
            ]
            {
                &&& self.pads_to(&padded, frame_info, heard, h1)
                &&& padded.bomb_to(&bombed, frame_info, logic_due, h1, h2)
                &&& bombed.raises_to(&raised)
                &&& raised.spawns_to(&spawned, logic_due, h2, h3)
                &&& spawned.clashes_to(&clashed, frame_info, h3, h4)
                &&& clashed.retires_to(&retired, h4, heard_after)
                &&& retired.recharges_to(after, frame_info.delta_time)
            }
    }

    /// Whether `after` is this state after one frame that lasts
    /// `delta_time`, with the input `input`, which asked for the sounds
    /// `cues`.
    ///
    /// The input is applied first. Then the player is checked for death.
    /// While a game is on, its stages follow. The player moves last, and the
    /// frame is counted.
    pub open spec fn frame_to(&self, after: &NotPong, input: Input, delta_time: i64, logic_due: bool, cues: Seq<Cue>) -> bool {
        let frame_info = FrameInfo { delta_time, tolerance: tolerance_of(delta_time) as i64 };
        exists|keyed: NotPong, checked: NotPong, played: NotPong, heard: Seq<Cue>|
            #![trigger
                self.keys_to(&keyed, input),
                keyed.death_to(&checked, frame_info.tolerance, Seq::empty(), heard),
                played.moves_to(after, frame_info),
            ]
            {
                &&& self.keys_to(&keyed, input)
                &&& keyed.death_to(&checked, frame_info.tolerance, Seq::empty(), heard)
                &&& if checked.player.playing {
                    checked.plays_to(&played, frame_info, logic_due, heard, cues)
                } else {
                    played.agrees(&checked) && cues == heard
                }
                &&& played.moves_to(after, frame_info)
            }
    }

    /// Creates the game before its first frame: the idle player, both pads
    /// at rest, no obstacle, no pickup, every slot free.
    pub fn new() -> (game: NotPong)
        ensures
            game.wf(),
            game.player@ == Player::new_view(),
            game.left_pad == Pad::resting(true),
            game.right_pad == Pad::resting(false),
            game.obstacles@.len() == 0,
            game.obstacle_grid.is_fresh(),
            game.bomb is None,
            game.counters() == start_counters(0),
    {
        NotPong {
            left_pad: Pad::default(true),
            right_pad: Pad::default(false),
            player: Player::new(),
            obstacles: Vec::new(),
            obstacle_grid: ObstacleGrid::new(),
            bomb: None,
            difficulty: START_DIFFICULTY,
            last_player_count: 0,
            custom_pad_count: 0,
            sprint_amount: 0,
            alpha_change: ALPHA_CHANGE,
            sprint_cooldown: SPRINT_COOLDOWN,
            hit_cooldown: HIT_COOLDOWN,
            rng: rand::rng(),
            frame_n: 0,
            curr_rocket_id: 0,
        }
    }

    /// Puts back everything but the player and the pads.
    pub fn reset_part(&mut self)
        ensures
            old(self).clears_to(final(self)),
    {
        self.curr_rocket_id = 0;
        self.difficulty = START_DIFFICULTY;
        self.last_player_count = 0;
        self.obstacles.clear();
        self.bomb = None;
        self.custom_pad_count = 0;
        self.sprint_amount = 0;
        self.sprint_cooldown = SPRINT_COOLDOWN;
        self.hit_cooldown = HIT_COOLDOWN;
        self.obstacle_grid.reset();
    }

    /// Ends the player's sprint and restores the background wash.
    pub fn player_sprint_off(&mut self)
        ensures
            old(self).rests_to(final(self)),
    {
        self.player.sprint_off();
        self.alpha_change = ALPHA_CHANGE;
    }

    /// Begins a sprint where one can begin, and does nothing where not.
    pub fn player_sprint_on(&mut self)
        ensures
            old(self).sprints_to(final(self)),
    {
        if self.sprint_amount > 0 && self.sprint_cooldown >= SPRINT_COOLDOWN {
            self.sprint_cooldown = 0;
            self.player.sprint_on();
            self.alpha_change = SPRINT_ALPHA_CHANGE;
        }
    }

    /// Starts the game over.
    pub fn reset(&mut self)
        ensures
            old(self).restarts_to(final(self)),
    {
        self.reset_part();
        self.left_pad.reset();
        self.right_pad.reset();
        self.player_sprint_off();
    }

    /// Turns the player back at a pad, where the time between two
    /// deflections has passed. Returns whether it did.
    pub fn invert(&mut self) -> (hit: bool)
        requires
            old(self).player.count < u64::MAX,
        ensures
            hit == old(self).can_hit(),
            old(self).inverts_to(final(self)),
    {
        if self.hit_cooldown >= HIT_COOLDOWN {
            self.hit_cooldown = 0;
            self.player.invert();
            true
        } else {
            false
        }
    }

    /// The opacity of the background wash of a frame that lasts
    /// `delta_time`.
    pub fn get_alpha_change(&self, delta_time: i64) -> (alpha: u8)
        ensures
            alpha == wash(self.alpha_change, delta_time),
    {
        fx_whole_u8(fx_mul(self.alpha_change as i64 * UNIT, delta_time))
    }

    /// Applies the input of one frame.
    pub fn handle_keys(&mut self, input: Input)
        ensures
            old(self).keys_to(final(self), input),
    {
        if !self.player.sprinting && !self.player.explosion.is_alive() {
            if input.sprint_pressed {
                if self.player.playing {
                    self.player_sprint_on();
                }
            } else if input.jump {
                self.player.jump(&mut self.rng);
            }
            return ;
        }
        if !input.sprint_held && self.player.playing && self.player.sprinting {
            if input.sprint_released {
                self.player_sprint_off();
            }
        }
    }

    /// Checks for the player's death, and starts the game over where the
    /// player died.
    pub fn check_death(&mut self, tolerance: i64, cues: &mut Vec<Cue>)
        requires
            old(self).wf(),
        ensures
            final(self).wf(),
            old(self).death_to(final(self), tolerance, old(cues)@, final(cues)@),
    {
        if self.player.is_dead(&self.left_pad, &self.right_pad, tolerance, &mut self.rng) {
            let ghost fallen = *self;
            cues.push(Cue::AllRocketsStopped);
            cues.push(Cue::Death);
            self.reset();
            assert(fallen.restarts_to(&*self));
        }
    }

    /// Lets the player make its own move and counts the frame.
    pub fn advance_player(&mut self, frame_info: FrameInfo)
        ensures
            old(self).moves_to(final(self), frame_info),
    {
        self.player.update(frame_info);
        self.frame_n = self.frame_n.wrapping_add(1);
    }

    /// A fresh rainbow burst at `pos`, as an obstacle.
    fn burst_at(&mut self, pos: Vector2) -> (burst: AnyObstacle)
        ensures
            burst is ObstacleExplosion,
            is_fresh_burst(burst->ObstacleExplosion_0.0, pos),
            final(self).agrees(old(self)),
    {
        let mut explosion = Explosion::new(pos);
        let ghost empty = explosion;
        explosion.explode(OBSTACLE_COLLISION_MAX_VELOCITY, true, &mut self.rng);
        proof {
            let amount = choose|amount: int|
                MIN_PARTICLE_QTY <= amount < MAX_PARTICLE_QTY && #[trigger] explosion.is_burst_of(
                    empty,
                    OBSTACLE_COLLISION_MAX_VELOCITY,
                    true,
                    amount,
                );
            assert(explosion.is_burst_of(empty, OBSTACLE_COLLISION_MAX_VELOCITY, true, amount));
        }
        AnyObstacle::ObstacleExplosion(ObstacleExplosion(explosion))
    }

    /// Kills the obstacle at the place `i`.
    fn kill_at(&mut self, i: usize)
        requires
            i < old(self).obstacles@.len(),
        ensures
            final(self).obstacles@.len() == old(self).obstacles@.len(),
            old(self).obstacles@[i as int].killed_to(final(self).obstacles@[i as int]),
            forall|k: int|
                0 <= k < old(self).obstacles@.len() && k != i ==> #[trigger] final(self).obstacles@[k] == old(
                    self,
                ).obstacles@[k],
            final(self).player == old(self).player,
            final(self).left_pad == old(self).left_pad,
            final(self).right_pad == old(self).right_pad,
            final(self).obstacle_grid == old(self).obstacle_grid,
            final(self).bomb == old(self).bomb,
            final(self).counters() == old(self).counters(),
    {
        self.obstacles[i].kill();
    }

    /// Appends a burst to the obstacles.
    fn push_burst(&mut self, burst: AnyObstacle)
        ensures
            final(self).obstacles@ == old(self).obstacles@.push(burst),
            final(self).player == old(self).player,
            final(self).left_pad == old(self).left_pad,
            final(self).right_pad == old(self).right_pad,
            final(self).obstacle_grid == old(self).obstacle_grid,
            final(self).bomb == old(self).bomb,
            final(self).counters() == old(self).counters(),
    {
        self.obstacles.push(burst);
    }

    /// Lets the stages of a frame in which a game is on follow each other.
    ///
    /// Fails where a dead static hazard holds a slot that is not active.
    pub fn play(&mut self, frame_info: FrameInfo, logic_due: bool, cues: &mut Vec<Cue>) -> (r: Result<(), GameError>)
        requires
            old(self).wf(),
            old(self).player.count < u64::MAX - BOMB_MAX_DESTROYED_OBSTACLES,
            old(self).difficulty < u16::MAX,
        ensures
            final(self).wf(),
            r is Ok ==> old(self).plays_to(final(self), frame_info, logic_due, old(cues)@, final(cues)@),
            old(self).rocks_hold_slots() && !old(self).obstacle_grid.active_cells().contains_key(
                old(self).obstacle_grid.next_id(),
            ) ==> r is Ok && final(self).rocks_hold_slots(),
            old(self).obstacle_grid.complete() && !old(self).obstacle_grid.active_cells().contains_key(
                old(self).obstacle_grid.next_id(),
            ) ==> final(self).obstacle_grid.complete(),
    {
        let ghost heard = cues@;
        self.advance_pads(frame_info, cues);
        let ghost padded = *self;
        let ghost h1 = cues@;
        self.advance_bomb(frame_info, logic_due, cues);
        let ghost bombed = *self;
        let ghost h2 = cues@;
        proof {
            if padded.bomb is Some && !padded.bomb->0.living() && padded.bomb->0.give_points > 0 {
                assert(bombed.obstacles@.drop_last() == padded.obstacles@);
                assert forall|k: int| 0 <= k < padded.obstacles@.len() implies same_identity(
                    padded.obstacles@[k],
                    #[trigger] bombed.obstacles@[k],
                ) by {
                    assert(bombed.obstacles@.drop_last()[k] == bombed.obstacles@[k]);
                }
            }
            assert(grown_by_bursts(padded.obstacles@, bombed.obstacles@));
            crate::game::retire::lemma_slots_held_grown(
                padded.obstacles@,
                bombed.obstacles@,
                bombed.obstacle_grid.active_cells(),
            );
        }
        self.raise_difficulty();
        let ghost raised = *self;
        self.spawn_obstacles(logic_due, cues);
        let ghost spawned = *self;
        let ghost h3 = cues@;
        self.advance_obstacles(frame_info, cues);
        let ghost clashed = *self;
        let ghost h4 = cues@;
        proof {
            crate::game::retire::lemma_slots_held_grown(
                spawned.obstacles@,
                clashed.obstacles@,
                clashed.obstacle_grid.active_cells(),
            );
        }
        match self.retire_obstacles(cues) {
            Ok(_) => {},
            Err(e) => {
                return Err(e);
            },
        }
        let ghost retired = *self;
        self.recharge(frame_info.delta_time);
        proof {
            assert(old(self).pads_to(&padded, frame_info, heard, h1));
            assert(padded.bomb_to(&bombed, frame_info, logic_due, h1, h2));
            assert(bombed.raises_to(&raised));
            assert(raised.spawns_to(&spawned, logic_due, h2, h3));
            assert(spawned.clashes_to(&clashed, frame_info, h3, h4));
            assert(clashed.retires_to(&retired, h4, cues@));
            assert(retired.recharges_to(&*self, frame_info.delta_time));
        }
        Ok(())
    }

    /// Advances the game by one frame that lasts `delta_time`, and returns
    /// the sounds that it asks for, in order.
    ///
    /// Chance acts on the pickup and on the spawning only where `logic_due`
    /// says that a reference tick has passed.
    ///
    /// Fails where a dead static hazard holds a slot that is not active. That
    /// cannot happen while each hazard holds an active slot of its own and
    /// the grid's next identifier is not in use.
    pub fn frame(&mut self, input: Input, delta_time: i64, logic_due: bool) -> (r: Result<Vec<Cue>, GameError>)
        requires
            old(self).wf(),
            old(self).player.count < u64::MAX - BOMB_MAX_DESTROYED_OBSTACLES,
            old(self).difficulty < u16::MAX,
        ensures
            final(self).wf(),
            r matches Ok(cues) ==> old(self).frame_to(final(self), input, delta_time, logic_due, cues@),
            old(self).rocks_hold_slots() && !old(self).obstacle_grid.active_cells().contains_key(
                old(self).obstacle_grid.next_id(),
            ) ==> r is Ok && final(self).rocks_hold_slots(),
            old(self).obstacle_grid.complete() && !old(self).obstacle_grid.active_cells().contains_key(
                old(self).obstacle_grid.next_id(),
            ) ==> final(self).obstacle_grid.complete(),
    {
        let frame_info = FrameInfo::new(delta_time);
        let mut cues: Vec<Cue> = Vec::new();
        self.handle_keys(input);
        let ghost keyed = *self;
        self.check_death(frame_info.tolerance, &mut cues);
        let ghost checked = *self;
        let ghost heard = cues@;
        if self.player.playing {
            match self.play(frame_info, logic_due, &mut cues) {
                Ok(_) => {},
                Err(e) => {
                    return Err(e);
                },
            }
        }
        let ghost played = *self;
        self.advance_player(frame_info);
        proof {
            assert(old(self).keys_to(&keyed, input));
            assert(keyed.death_to(&checked, frame_info.tolerance, Seq::empty(), heard));
            assert(played.moves_to(&*self, frame_info));
        }
        Ok(cues)
    }
}

} // verus!
