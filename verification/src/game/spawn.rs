//! The spawning of obstacles: static hazards on the slots of the grid, and
//! projectiles at the edges of the arena.

use vstd::prelude::*;
use rand::rngs::ThreadRng;
use crate::constants::{
    MAX_OBSTACLE_LIFE, MAX_OBSTACLE_SIZE, MAX_ROCKET_SPEED, MIN_OBSTACLE_LIFE, MIN_OBSTACLE_SIZE,
    MIN_ROCKET_SPEED, OBSTACLE_PROBABILITY, OBSTACLE_SAFE_ZONE_X, OBSTACLE_SAFE_ZONE_Y, PAD_SIZE_Y,
    PLAYER_COUNT_OBST, RESOLUTION_X, RESOLUTION_Y,
};
use crate::fixed::{fx_add, sat_add};
use crate::game::retire::{slot_of, slots_held};
use crate::game::{Counters, Cue, NotPong};
use crate::obstacle::rock::Rock;
use crate::obstacle::rocket::{Base, Rocket};
use crate::obstacle::AnyObstacle;
use crate::obstacle_grid::{id_after, same_cell, same_slots, within_variance};
use crate::pad::Pad;
use crate::rng::{random_coin, random_range};
use crate::utils::Vector2;

verus! {

/// Whether a projectile may enter at the height `y` beside `pad`: in the
/// safe zone, and above the pad or below it.
pub open spec fn beside_pad(y: i64, pad: Pad) -> bool {
    ||| OBSTACLE_SAFE_ZONE_Y <= y <= pad.pos.y
    ||| sat_add(pad.pos.y as int, PAD_SIZE_Y as int) <= y <= RESOLUTION_Y - OBSTACLE_SAFE_ZONE_Y
}

impl NotPong {
    /// Whether a projectile may enter at `pos` from the edge `base`: on that
    /// edge, beside the pad at a side wall, and between the safe zones at the
    /// upper and the lower wall.
    pub open spec fn is_entry(&self, base: Base, pos: Vector2) -> bool {
        match base {
            Base::Left => pos.x == 0 && beside_pad(pos.y, self.left_pad),
            Base::Right => pos.x == RESOLUTION_X && beside_pad(pos.y, self.right_pad),
            Base::Top => pos.y == 0 && OBSTACLE_SAFE_ZONE_X <= pos.x <= RESOLUTION_X - OBSTACLE_SAFE_ZONE_X,
            Base::Bottom => pos.y == RESOLUTION_Y && OBSTACLE_SAFE_ZONE_X <= pos.x <= RESOLUTION_X
                - OBSTACLE_SAFE_ZONE_X,
        }
    }

    /// Whether `rocket` is a fresh projectile of this state: it carries the
    /// next projectile identifier, enters where one may, and has a side and a
    /// speed that a projectile can have.
    pub open spec fn is_new_rocket(&self, rocket: Rocket) -> bool {
        &&& rocket == Rocket::launched(
            self.curr_rocket_id,
            rocket.pos,
            rocket.base,
            rocket.size.x,
            rocket.velocity,
        )
        &&& self.is_entry(rocket.base, rocket.pos)
        &&& MIN_OBSTACLE_SIZE <= rocket.size.x <= MAX_OBSTACLE_SIZE
        &&& MIN_ROCKET_SPEED <= rocket.velocity <= MAX_ROCKET_SPEED
    }

    /// Whether `rock` is a fresh static hazard on the slot `base` of this
    /// state's grid, which `after` holds occupied: it carries the slot's new
    /// identifier, the slot lies outside the player's cell, and the hazard
    /// has its far corner within the variance of the slot.
    pub open spec fn is_new_rock(&self, after: &NotPong, rock: Rock, base: Vector2) -> bool {
        &&& after.obstacle_grid.allocated_from(&self.obstacle_grid, rock.id, base)
        &&& !same_cell(base, self.player.pos)
        &&& MIN_OBSTACLE_SIZE <= rock.size.x <= MAX_OBSTACLE_SIZE
        &&& MIN_OBSTACLE_LIFE <= rock.lifespan <= MAX_OBSTACLE_LIFE
        &&& exists|pos: Vector2|
            within_variance(pos, base) && rock == #[trigger] Rock::spawned(
                rock.id,
                pos,
                rock.size.x,
                rock.lifespan,
            )
    }

    /// Whether an obstacle can appear in this frame: the score has reached
    /// the score of the obstacles, the logic is due, and the difficulty is
    /// above zero.
    pub open spec fn may_spawn(&self, logic_due: bool) -> bool {
        self.player.count >= PLAYER_COUNT_OBST && logic_due && self.difficulty > 0
    }

    /// Whether an obstacle appears in this frame whatever is drawn: one can
    /// appear, and the difficulty is beyond every draw.
    pub open spec fn must_spawn(&self, logic_due: bool) -> bool {
        self.player.count >= PLAYER_COUNT_OBST && logic_due && self.difficulty > OBSTACLE_PROBABILITY
    }

    /// Whether an obstacle appears in this frame with the draw `draw`: the
    /// score has reached the score of the obstacles, the logic is due, and
    /// the draw is below the difficulty.
    pub open spec fn spawn_due(&self, logic_due: bool, draw: i64) -> bool {
        self.player.count >= PLAYER_COUNT_OBST && logic_due && draw < self.difficulty
    }

    /// Whether `after` is this state with a fresh projectile behind the
    /// obstacles.
    pub open spec fn launches_to(&self, after: &NotPong) -> bool {
        &&& after.obstacles@.len() == self.obstacles@.len() + 1
        &&& after.obstacles@.drop_last() == self.obstacles@
        &&& after.obstacles@.last() is Rocket
        &&& self.is_new_rocket(after.obstacles@.last()->Rocket_0)
        &&& after.player == self.player
        &&& after.left_pad == self.left_pad
        &&& after.right_pad == self.right_pad
        &&& after.obstacle_grid == self.obstacle_grid
        &&& after.bomb == self.bomb
        &&& after.counters() == (Counters { curr_rocket_id: id_after(self.curr_rocket_id), ..self.counters() })
    }

    /// Whether `after` is this state with a fresh static hazard behind the
    /// obstacles, on a slot that the grid has handed out for it.
    pub open spec fn settles_to(&self, after: &NotPong) -> bool {
        &&& after.obstacles@.len() == self.obstacles@.len() + 1
        &&& after.obstacles@.drop_last() == self.obstacles@
        &&& after.obstacles@.last() is Rock
        &&& exists|base: Vector2| #[trigger] self.is_new_rock(after, after.obstacles@.last()->Rock_0, base)
        &&& after.player == self.player
        &&& after.left_pad == self.left_pad
        &&& after.right_pad == self.right_pad
        &&& after.bomb == self.bomb
        &&& after.counters() == self.counters()
    }

    /// Whether `after` is this state with a fresh projectile behind the
    /// obstacles, after the grid was asked for a slot and had none to give:
    /// the grid holds the places that it held, the free ones in whatever
    /// order.
    pub open spec fn falls_back_to(&self, after: &NotPong) -> bool {
        &&& after.obstacles@.len() == self.obstacles@.len() + 1
        &&& after.obstacles@.drop_last() == self.obstacles@
        &&& after.obstacles@.last() is Rocket
        &&& self.is_new_rocket(after.obstacles@.last()->Rocket_0)
        &&& after.player == self.player
        &&& after.left_pad == self.left_pad
        &&& after.right_pad == self.right_pad
        &&& after.bomb == self.bomb
        &&& after.counters() == (Counters { curr_rocket_id: id_after(self.curr_rocket_id), ..self.counters() })
        &&& after.obstacle_grid.active_cells() == self.obstacle_grid.active_cells()
        &&& after.obstacle_grid.next_id() == self.obstacle_grid.next_id()
        &&& same_slots(after.obstacle_grid.free_cells(), self.obstacle_grid.free_cells())
    }

    /// Whether `after` is this state after the spawning of one frame in
    /// which the coin showed `hazard` and the draw against the obstacle
    /// probability was `draw`, which took the sounds from `heard` to
    /// `heard_after`.
    ///
    /// Nothing changes unless the draw is below the difficulty, the score
    /// has reached the score of the obstacles and the logic is due. Else one
    /// obstacle appears behind the others. Where the coin asks for a static
    /// hazard and the grid has a free place outside the player's cell, it is
    /// a fresh static hazard on a slot of the grid. Where the coin asks for
    /// a hazard and the grid has no such place, or the coin asks for a
    /// projectile, it is a fresh projectile, whose sound is asked for.
    pub open spec fn spawns_with(
        &self,
        after: &NotPong,
        logic_due: bool,
        hazard: bool,
        draw: i64,
        heard: Seq<Cue>,
        heard_after: Seq<Cue>,
    ) -> bool {
        if !self.spawn_due(logic_due, draw) {
            after.agrees(self) && heard_after == heard
        } else if !hazard {
            self.launches_to(after) && heard_after == heard.push(Cue::RocketLaunched { id: self.curr_rocket_id })
        } else if self.obstacle_grid.has_room(self.player.pos) {
            self.settles_to(after) && heard_after == heard
        } else {
            self.falls_back_to(after) && heard_after == heard.push(
                Cue::RocketLaunched { id: self.curr_rocket_id },
            )
        }
    }

    /// Whether `after` is this state after the spawning of one frame, which
    /// took the sounds from `heard` to `heard_after`: the spawning with some
    /// side of the coin and some draw from zero to the obstacle probability.
    pub open spec fn spawns_to(&self, after: &NotPong, logic_due: bool, heard: Seq<Cue>, heard_after: Seq<Cue>) -> bool {
        exists|hazard: bool, draw: i64|
            0 <= draw <= OBSTACLE_PROBABILITY && #[trigger] self.spawns_with(
                after,
                logic_due,
                hazard,
                draw,
                heard,
                heard_after,
            )
    }

    /// The height at which a projectile enters beside `pad`: above it or
    /// below it as `above` says, and on the side that has room where the
    /// other has none.
    fn entry_height(pad: &Pad, above: bool, rng: &mut ThreadRng) -> (y: i64)
        ensures
            beside_pad(y, *pad),
    {
        let below_from: i64 = fx_add(pad.pos.y, PAD_SIZE_Y);
        let room_below: bool = below_from <= RESOLUTION_Y - OBSTACLE_SAFE_ZONE_Y;
        if (above && OBSTACLE_SAFE_ZONE_Y < pad.pos.y) || !room_below {
            random_range(rng, OBSTACLE_SAFE_ZONE_Y, pad.pos.y)
        } else {
            random_range(rng, below_from, RESOLUTION_Y - OBSTACLE_SAFE_ZONE_Y)
        }
    }

    /// Makes a projectile that enters at a random edge: at a side wall
    /// beside the pad, above or below it by the toss of a coin, and at the
    /// upper or the lower wall between the safe zones.
    pub fn new_rocket(&mut self) -> (rocket: Rocket)
        ensures
            old(self).is_new_rocket(rocket),
            final(self).player == old(self).player,
            final(self).same_field(old(self)),
            final(self).counters() == (Counters {
                curr_rocket_id: id_after(old(self).curr_rocket_id),
                ..old(self).counters()
            }),
    {
        let base = Base::random(&mut self.rng);
        let id: u16 = self.curr_rocket_id;
        self.curr_rocket_id = self.curr_rocket_id.wrapping_add(1);
        let pos = match base {
            Base::Left => {
                let above: bool = random_coin(&mut self.rng);
                Vector2 { x: 0, y: NotPong::entry_height(&self.left_pad, above, &mut self.rng) }
            },
            Base::Right => {
                let above: bool = random_coin(&mut self.rng);
                Vector2 { x: RESOLUTION_X, y: NotPong::entry_height(&self.right_pad, above, &mut self.rng) }
            },
            Base::Top => Vector2 {
                x: random_range(&mut self.rng, OBSTACLE_SAFE_ZONE_X, RESOLUTION_X - OBSTACLE_SAFE_ZONE_X),
                y: 0,
            },
            Base::Bottom => Vector2 {
                x: random_range(&mut self.rng, OBSTACLE_SAFE_ZONE_X, RESOLUTION_X - OBSTACLE_SAFE_ZONE_X),
                y: RESOLUTION_Y,
            },
        };
        Rocket::new(&mut self.rng, id, pos, base)
    }

    /// Puts a fresh projectile among the obstacles and asks for its sound.
    pub fn make_rocket(&mut self, cues: &mut Vec<Cue>)
        ensures
            old(self).launches_to(final(self)),
            final(cues)@ == old(cues)@.push(Cue::RocketLaunched { id: old(self).curr_rocket_id }),
    {
        let rocket = self.new_rocket();
        cues.push(Cue::RocketLaunched { id: rocket.id });
        self.obstacles.push(AnyObstacle::Rocket(rocket));
        assert(self.obstacles@.drop_last() =~= old(self).obstacles@);
    }

    /// Lets an obstacle appear as the coin `hazard` and the draw `draw`
    /// against the obstacle probability decide: none unless the draw is
    /// below the difficulty; else a static hazard on a free slot of the grid
    /// where the coin asks for one and the grid has a slot for it, and a
    /// projectile where not.
    pub fn spawn_drawn(&mut self, logic_due: bool, hazard: bool, draw: i64, cues: &mut Vec<Cue>)
        requires
            old(self).wf(),
        ensures
            final(self).wf(),
            old(self).spawns_with(final(self), logic_due, hazard, draw, old(cues)@, final(cues)@),
            old(self).rocks_hold_slots() && !old(self).obstacle_grid.active_cells().contains_key(
                old(self).obstacle_grid.next_id(),
            ) ==> final(self).rocks_hold_slots(),
            old(self).obstacle_grid.complete() && !old(self).obstacle_grid.active_cells().contains_key(
                old(self).obstacle_grid.next_id(),
            ) ==> final(self).obstacle_grid.complete(),
    {
        if !(self.player.count >= PLAYER_COUNT_OBST && logic_due && draw < self.difficulty as i64) {
            return ;
        }
        if !hazard {
            let ghost kept = self.obstacle_grid.active_cells();
            self.make_rocket(cues);
            proof {
                if old(self).rocks_hold_slots() {
                    lemma_slots_held_spawn(old(self).obstacles@, self.obstacles@, kept, kept);
                }
            }
            return ;
        }
        match self.obstacle_grid.allocate(self.player.pos, &mut self.rng) {
            Some((id, pos)) => {
                let ghost base = self.obstacle_grid.active_cells()[id];
                let rock = Rock::new(&mut self.rng, id, pos);
                self.obstacles.push(AnyObstacle::Rock(rock));
                proof {
                    assert(self.obstacles@.drop_last() =~= old(self).obstacles@);
                    assert(within_variance(pos, base));
                    assert(rock == Rock::spawned(rock.id, pos, rock.size.x, rock.lifespan));
                    assert(self.obstacle_grid.allocated_from(&old(self).obstacle_grid, rock.id, base));
                    assert(old(self).is_new_rock(&*self, rock, base));
                    assert(old(self).is_new_rock(&*self, self.obstacles@.last()->Rock_0, base));
                    if old(self).rocks_hold_slots() && !old(self).obstacle_grid.active_cells().contains_key(id) {
                        lemma_slots_held_spawn(
                            old(self).obstacles@,
                            self.obstacles@,
                            old(self).obstacle_grid.active_cells(),
                            self.obstacle_grid.active_cells(),
                        );
                    }
                }
            },
            None => {
                let ghost kept = self.obstacle_grid.active_cells();
                self.make_rocket(cues);
                proof {
                    if old(self).rocks_hold_slots() {
                        lemma_slots_held_spawn(old(self).obstacles@, self.obstacles@, kept, kept);
                    }
                }
            },
        }
    }

    /// Lets an obstacle appear by chance, the likelier the higher the
    /// difficulty: by the toss of a coin a static hazard on a free slot of
    /// the grid, or a projectile; and a projectile where a hazard is due and
    /// the grid has no slot for it.
    ///
    /// Nothing appears where none can appear, and one obstacle appears where
    /// the difficulty is beyond every draw.
    pub fn spawn_obstacles(&mut self, logic_due: bool, cues: &mut Vec<Cue>)
        requires
            old(self).wf(),
        ensures
            final(self).wf(),
            old(self).spawns_to(final(self), logic_due, old(cues)@, final(cues)@),
            !old(self).may_spawn(logic_due) ==> final(self).agrees(old(self)) && final(cues)@ == old(cues)@,
            old(self).must_spawn(logic_due) ==> final(self).obstacles@.len() == old(self).obstacles@.len() + 1,
            old(self).rocks_hold_slots() && !old(self).obstacle_grid.active_cells().contains_key(
                old(self).obstacle_grid.next_id(),
            ) ==> final(self).rocks_hold_slots(),
            old(self).obstacle_grid.complete() && !old(self).obstacle_grid.active_cells().contains_key(
                old(self).obstacle_grid.next_id(),
            ) ==> final(self).obstacle_grid.complete(),
    {
        if self.player.count >= PLAYER_COUNT_OBST && logic_due {
            let ghost start = *self;
            let hazard: bool = random_coin(&mut self.rng);
            let draw: i64 = random_range(&mut self.rng, 0, OBSTACLE_PROBABILITY as i64);
            let ghost drawn = *self;
            self.spawn_drawn(logic_due, hazard, draw, cues);
            proof {
                lemma_spawns_from_same_game(&start, &drawn, &*self, logic_due, hazard, draw, old(cues)@, cues@);
            }
        } else {
            assert(self.spawns_with(&*self, logic_due, false, 0, cues@, cues@));
        }
    }
}

/// The spawning does not look at the state of the random generator: what it
/// makes of one state it makes of every state that is the same game.
pub proof fn lemma_spawns_from_same_game(
    start: &NotPong,
    drawn: &NotPong,
    after: &NotPong,
    logic_due: bool,
    hazard: bool,
    draw: i64,
    heard: Seq<Cue>,
    heard_after: Seq<Cue>,
)
    requires
        drawn.agrees(start),
        drawn.spawns_with(after, logic_due, hazard, draw, heard, heard_after),
    ensures
        start.spawns_with(after, logic_due, hazard, draw, heard, heard_after),
{
    if start.spawn_due(logic_due, draw) && hazard && start.obstacle_grid.has_room(start.player.pos) {
        let base = choose|base: Vector2| #[trigger] drawn.is_new_rock(after, after.obstacles@.last()->Rock_0, base);
        assert(start.is_new_rock(after, after.obstacles@.last()->Rock_0, base));
    }
}

/// The static hazards keep slots of their own when an obstacle appears
/// behind them that holds no slot, or a slot that was not active before.
pub proof fn lemma_slots_held_spawn(
    before: Seq<AnyObstacle>,
    after: Seq<AnyObstacle>,
    active: Map<u16, Vector2>,
    active_after: Map<u16, Vector2>,
)
    requires
        slots_held(before, active),
        after.len() == before.len() + 1,
        after.drop_last() == before,
        forall|id: u16| active.contains_key(id) ==> active_after.contains_key(id),
        slot_of(after.last()) matches Some(id) ==> active_after.contains_key(id) && !active.contains_key(id),
    ensures
        slots_held(after, active_after),
{
    assert forall|i: int| 0 <= i < after.len() implies after[i] == if i < before.len() {
        before[i]
    } else {
        after.last()
    } by {
        if i < before.len() {
            assert(after.drop_last()[i] == after[i]);
        }
    }
    assert forall|i: int| 0 <= i < after.len() && (#[trigger] slot_of(after[i])) is Some implies active_after.contains_key(
        slot_of(after[i])->0,
    ) by {
        if i < before.len() {
            assert(slot_of(before[i]) is Some);
        }
    }
    assert forall|i: int, j: int|
        0 <= i < after.len() && 0 <= j < after.len() && i != j && (#[trigger] slot_of(after[i])) is Some implies slot_of(
        after[i],
    ) != #[trigger] slot_of(after[j]) by {
        if i < before.len() {
            assert(slot_of(before[i]) is Some);
            if j < before.len() {
                assert(slot_of(before[i]) != slot_of(before[j]));
            }
        } else {
            if slot_of(before[j]) is Some {
                assert(active.contains_key(slot_of(before[j])->0));
            }
        }
    }}

} // verus!
