//! The retirement of the dead obstacles, and the account of the slots that
//! the static hazards hold.

use vstd::prelude::*;
use crate::game::{grown_by_bursts, same_identity, Cue, GameError, NotPong};
use crate::obstacle::{AnyObstacle, Obstacle};
use crate::utils::Vector2;

verus! {

/// The grid slot that an obstacle holds: one for a static hazard, none for
/// the others.
pub open spec fn slot_of(obstacle: AnyObstacle) -> Option<u16> {
    match obstacle {
        AnyObstacle::Rock(rock) => Some(rock.id),
        _ => None,
    }
}

/// Whether the static hazards of `obstacles` hold slots that are active in
/// `active`, each hazard a slot of its own.
pub open spec fn slots_held(obstacles: Seq<AnyObstacle>, active: Map<u16, Vector2>) -> bool {
    &&& forall|i: int|
        0 <= i < obstacles.len() && (#[trigger] slot_of(obstacles[i])) is Some ==> active.contains_key(
            slot_of(obstacles[i])->0,
        )
    &&& forall|i: int, j: int|
        0 <= i < obstacles.len() && 0 <= j < obstacles.len() && i != j && (#[trigger] slot_of(
            obstacles[i],
        )) is Some ==> slot_of(obstacles[i]) != #[trigger] slot_of(obstacles[j])
}

/// The sounds that stop when the dead obstacles of `obstacles` leave the
/// game: one for each dead projectile, in order.
pub open spec fn stop_cues(obstacles: Seq<AnyObstacle>) -> Seq<Cue>
    decreases obstacles.len(),
{
    if obstacles.len() == 0 {
        Seq::empty()
    } else {
        let rest = stop_cues(obstacles.drop_last());
        match obstacles.last() {
            AnyObstacle::Rocket(rocket) => if rocket.living() {
                rest
            } else {
                rest.push(Cue::RocketStopped { id: rocket.id })
            },
            _ => rest,
        }
    }
}

/// The slots that the dead static hazards of `obstacles` hold, in order.
pub open spec fn dead_slots(obstacles: Seq<AnyObstacle>) -> Seq<u16>
    decreases obstacles.len(),
{
    if obstacles.len() == 0 {
        Seq::empty()
    } else {
        let rest = dead_slots(obstacles.drop_last());
        match obstacles.last() {
            AnyObstacle::Rock(rock) => if rock.living() {
                rest
            } else {
                rest.push(rock.id)
            },
            _ => rest,
        }
    }
}

/// The occupied places `active` once the slots `ids` have been released,
/// one after the other.
pub open spec fn released_active(active: Map<u16, Vector2>, ids: Seq<u16>) -> Map<u16, Vector2>
    decreases ids.len(),
{
    if ids.len() == 0 {
        active
    } else {
        released_active(active, ids.drop_last()).remove(ids.last())
    }
}

/// The free places `free` once the slots `ids` have been released, one
/// after the other: the place of each is free again, behind the others.
pub open spec fn released_free(free: Seq<Vector2>, active: Map<u16, Vector2>, ids: Seq<u16>) -> Seq<Vector2>
    decreases ids.len(),
{
    if ids.len() == 0 {
        free
    } else {
        released_free(free, active, ids.drop_last()).push(released_active(active, ids.drop_last())[ids.last()])
    }
}

/// The obstacles of `obstacles` that are still in the game, in order.
pub open spec fn living_obstacles(obstacles: Seq<AnyObstacle>) -> Seq<AnyObstacle> {
    obstacles.filter(|o: AnyObstacle| o.living())
}

impl NotPong {
    /// Whether every static hazard holds an active slot of the grid, each a
    /// slot of its own.
    pub open spec fn rocks_hold_slots(&self) -> bool {
        slots_held(self.obstacles@, self.obstacle_grid.active_cells())
    }

    /// Whether `after` is this state after the retirement of the dead
    /// obstacles, which took the sounds from `heard` to `heard_after`: the
    /// living obstacles are left, in their order, the slot of each dead static
    /// hazard is released, and the sound of each dead projectile is asked to
    /// stop.
    pub open spec fn retires_to(&self, after: &NotPong, heard: Seq<Cue>, heard_after: Seq<Cue>) -> bool {
        &&& after.player == self.player
        &&& after.left_pad == self.left_pad
        &&& after.right_pad == self.right_pad
        &&& after.bomb == self.bomb
        &&& after.counters() == self.counters()
        &&& after.obstacles@ == living_obstacles(self.obstacles@)
        &&& after.obstacle_grid.next_id() == self.obstacle_grid.next_id()
        &&& after.obstacle_grid.active_cells() == released_active(
            self.obstacle_grid.active_cells(),
            dead_slots(self.obstacles@),
        )
        &&& after.obstacle_grid.free_cells() == released_free(
            self.obstacle_grid.free_cells(),
            self.obstacle_grid.active_cells(),
            dead_slots(self.obstacles@),
        )
        &&& heard_after == heard + stop_cues(self.obstacles@)
    }

    /// Takes the dead obstacles out of the game and keeps the others in
    /// their order. A static hazard gives its slot back to the grid, and a
    /// projectile stops its sound.
    ///
    /// Fails at the first static hazard whose slot is not active, which
    /// cannot happen while each hazard holds an active slot of its own.
    pub fn retire_obstacles(&mut self, cues: &mut Vec<Cue>) -> (r: Result<(), GameError>)
        requires
            old(self).wf(),
        ensures
            final(self).wf(),
            old(self).rocks_hold_slots() ==> r is Ok && final(self).rocks_hold_slots(),
            old(self).obstacle_grid.complete() ==> final(self).obstacle_grid.complete(),
            r is Ok ==> old(self).retires_to(final(self), old(cues)@, final(cues)@),
    {
        let ghost heard = cues@;
        let ghost keep = |o: AnyObstacle| o.living();
        let mut all: Vec<AnyObstacle> = Vec::new();
        core::mem::swap(&mut all, &mut self.obstacles);
        let ghost before = all@;
        for obstacle in it: all.into_iter()
            invariant
                it.seq() == before,
                before == old(self).obstacles@,
                keep == |o: AnyObstacle| o.living(),
                self.wf(),
                self.player == old(self).player,
                self.left_pad == old(self).left_pad,
                self.right_pad == old(self).right_pad,
                self.bomb == old(self).bomb,
                self.counters() == old(self).counters(),
                self.obstacles@ == before.take(it.index() as int).filter(keep),
                cues@ == heard + stop_cues(before.take(it.index() as int)),
                self.obstacle_grid.next_id() == old(self).obstacle_grid.next_id(),
                self.obstacle_grid.active_cells() == released_active(
                    old(self).obstacle_grid.active_cells(),
                    dead_slots(before.take(it.index() as int)),
                ),
                self.obstacle_grid.free_cells() == released_free(
                    old(self).obstacle_grid.free_cells(),
                    old(self).obstacle_grid.active_cells(),
                    dead_slots(before.take(it.index() as int)),
                ),
                old(self).obstacle_grid.complete() ==> self.obstacle_grid.complete(),
                old(self).rocks_hold_slots() ==> slots_held(
                    self.obstacles@ + before.skip(it.index() as int),
                    self.obstacle_grid.active_cells(),
                ),
        {
            let ghost idx = it.index() as int;
            let ghost kept = self.obstacles@;
            let ghost active = self.obstacle_grid.active_cells();
            proof {
                assert(before.take(idx + 1).drop_last() =~= before.take(idx));
                assert(before.take(idx + 1) =~= before.take(idx).push(obstacle));
                before.take(idx).lemma_filter_push(obstacle, keep);
                assert(before.skip(idx) =~= seq![obstacle] + before.skip(idx + 1));
            }
            if obstacle.is_alive() {
                self.obstacles.push(obstacle);
                proof {
                    assert(self.obstacles@ + before.skip(idx + 1) =~= kept + before.skip(idx));
                }
            } else {
                match obstacle {
                    AnyObstacle::Rock(rock) => {
                        proof {
                            if old(self).rocks_hold_slots() {
                                let joined = kept + before.skip(idx);
                                assert(joined[kept.len() as int] == obstacle);
                                assert(slot_of(joined[kept.len() as int]) is Some);
                            }
                        }
                        match self.obstacle_grid.free(rock.id) {
                            Ok(_) => {
                                proof {
                                    assert(dead_slots(before.take(idx + 1)).drop_last() =~= dead_slots(
                                        before.take(idx),
                                    ));
                                    if old(self).rocks_hold_slots() {
                                        let joined = kept + before.skip(idx);
                                        let rest = kept + before.skip(idx + 1);
                                        assert forall|a: int|
                                            0 <= a < rest.len() implies rest[a] == joined[if a < kept.len() {
                                                a
                                            } else {
                                                a + 1
                                            }] by {}
                                        assert forall|a: int|
                                            0 <= a < rest.len() && (#[trigger] slot_of(
                                                rest[a],
                                            )) is Some implies self.obstacle_grid.active_cells().contains_key(
                                            slot_of(rest[a])->0,
                                        ) by {
                                            let b = if a < kept.len() {
                                                a
                                            } else {
                                                a + 1
                                            };
                                            assert(slot_of(joined[b]) is Some);
                                            assert(slot_of(joined[b]) != slot_of(joined[kept.len() as int]));
                                        }
                                        assert forall|a: int, c: int|
                                            0 <= a < rest.len() && 0 <= c < rest.len() && a != c && (
                                            #[trigger] slot_of(rest[a])) is Some implies slot_of(rest[a])
                                            != #[trigger] slot_of(rest[c]) by {
                                            let b = if a < kept.len() {
                                                a
                                            } else {
                                                a + 1
                                            };
                                            let d = if c < kept.len() {
                                                c
                                            } else {
                                                c + 1
                                            };
                                            assert(slot_of(joined[b]) is Some);
                                            assert(slot_of(joined[b]) != slot_of(joined[d]));
                                        }
                                    }
                                }
                            },
                            Err(_) => {
                                return Err(GameError::DoubleFree { id: rock.id });
                            },
                        }
                    },
                    AnyObstacle::Rocket(rocket) => {
                        cues.push(Cue::RocketStopped { id: rocket.id });
                        proof {
                            assert(self.obstacles@ + before.skip(idx + 1) =~= (kept + before.skip(idx)).remove(
                                kept.len() as int,
                            ));
                            assert(cues@ =~= heard + stop_cues(before.take(idx + 1)));
                            lemma_slots_held_remove(kept + before.skip(idx), active, kept.len() as int);
                        }
                    },
                    AnyObstacle::ObstacleExplosion(_) => {
                        proof {
                            assert(self.obstacles@ + before.skip(idx + 1) =~= (kept + before.skip(idx)).remove(
                                kept.len() as int,
                            ));
                            lemma_slots_held_remove(kept + before.skip(idx), active, kept.len() as int);
                        }
                    },
                }
            }
        }
        proof {
            assert(before.take(before.len() as int) =~= before);
            assert(self.obstacles@ + before.skip(before.len() as int) =~= self.obstacles@);
        }
        Ok(())
    }
}

/// Obstacles that keep their identities, with bursts behind them, keep their
/// slots.
pub proof fn lemma_slots_held_grown(before: Seq<AnyObstacle>, after: Seq<AnyObstacle>, active: Map<u16, Vector2>)
    requires
        grown_by_bursts(before, after),
    ensures
        slots_held(before, active) ==> slots_held(after, active),
{
    if slots_held(before, active) {
        assert forall|i: int| 0 <= i < after.len() implies slot_of(after[i]) == if i < before.len() {
            slot_of(before[i])
        } else {
            None
        } by {
            if i < before.len() {
                assert(same_identity(before[i], after[i]));
            } else {
                assert(after[i] is ObstacleExplosion);
            }
        }
        assert forall|i: int| 0 <= i < after.len() && (#[trigger] slot_of(after[i])) is Some implies active.contains_key(
            slot_of(after[i])->0,
        ) by {
            assert(slot_of(before[i]) is Some);
        }
        assert forall|i: int, j: int|
            0 <= i < after.len() && 0 <= j < after.len() && i != j && (#[trigger] slot_of(after[i])) is Some implies slot_of(
            after[i],
        ) != #[trigger] slot_of(after[j]) by {
            assert(slot_of(before[i]) is Some);
            if j < before.len() {
                assert(slot_of(before[i]) != slot_of(before[j]));
            }
        }
    }
}

/// Taking an obstacle away keeps the others on slots of their own.
pub proof fn lemma_slots_held_remove(obstacles: Seq<AnyObstacle>, active: Map<u16, Vector2>, at: int)
    requires
        0 <= at < obstacles.len(),
    ensures
        slots_held(obstacles, active) ==> slots_held(obstacles.remove(at), active),
{
    if slots_held(obstacles, active) {
        let rest = obstacles.remove(at);
        assert forall|a: int| 0 <= a < rest.len() && (#[trigger] slot_of(rest[a])) is Some implies active.contains_key(
            slot_of(rest[a])->0,
        ) by {
            let b = if a < at {
                a
            } else {
                a + 1
            };
            assert(slot_of(obstacles[b]) is Some);
        }
        assert forall|a: int, c: int|
            0 <= a < rest.len() && 0 <= c < rest.len() && a != c && (#[trigger] slot_of(rest[a])) is Some implies slot_of(
            rest[a],
        ) != #[trigger] slot_of(rest[c]) by {
            let b = if a < at {
                a
            } else {
                a + 1
            };
            let d = if c < at {
                c
            } else {
                c + 1
            };
            assert(slot_of(obstacles[b]) is Some);
            assert(slot_of(obstacles[b]) != slot_of(obstacles[d]));
        }
    }
}

} // verus!
