//! The pickup's turn in a frame: its move, its pickup by the player, its
//! end, and its appearance by chance.

use vstd::prelude::*;
use crate::bomb::Bomb;
use crate::constants::{
    BOMB_LIFE, BOMB_MAX_DESTROYED_OBSTACLES, BOMB_MIN_DESTROYED_OBSTACLES, BOMB_PROBABILITY,
    BOMB_SIZE, OBSTACLE_SAFE_ZONE_X, OBSTACLE_SAFE_ZONE_Y, PLAYER_COUNT_BOMB, PLAYER_SIZE,
    RESOLUTION_X, RESOLUTION_Y,
};
use crate::frame::FrameInfo;
use crate::game::{is_fresh_burst, Cue, NotPong};
use crate::obstacle::AnyObstacle;
use crate::player::PlayerView;
use crate::rng::{choose_multiple, random_range};
use crate::utils::{Rectangle, Vector2};

verus! {

/// The places, among `obstacles`, of the static hazards, in order.
pub open spec fn rock_indices(obstacles: Seq<AnyObstacle>) -> Seq<usize>
    decreases obstacles.len(),
{
    if obstacles.len() == 0 {
        Seq::empty()
    } else if obstacles.last() is Rock {
        rock_indices(obstacles.drop_last()).push((obstacles.len() - 1) as usize)
    } else {
        rock_indices(obstacles.drop_last())
    }
}

/// The box of an obstacle.
pub open spec fn box_of(obstacle: AnyObstacle) -> Rectangle {
    Rectangle {
        x: obstacle.corner().x,
        y: obstacle.corner().y,
        width: obstacle.span().x,
        height: obstacle.span().y,
    }
}

/// Whether `targets` are the boxes of static hazards of `obstacles`, no
/// hazard taken twice.
pub open spec fn picks(obstacles: Seq<AnyObstacle>, targets: Seq<Rectangle>) -> bool {
    exists|chosen: Seq<usize>|
        {
            &&& #[trigger] chosen.len() == targets.len()
            &&& chosen.no_duplicates()
            &&& forall|k: int|
                0 <= k < chosen.len() ==> {
                    &&& (#[trigger] chosen[k]) < obstacles.len()
                    &&& obstacles[chosen[k] as int] is Rock
                    &&& targets[k] == box_of(obstacles[chosen[k] as int])
                }
        }
}

/// The places of the static hazards are places of `obstacles` that hold a
/// static hazard, in rising order.
pub proof fn lemma_rock_indices(obstacles: Seq<AnyObstacle>)
    requires
        obstacles.len() <= usize::MAX,
    ensures
        rock_indices(obstacles).no_duplicates(),
        rock_indices(obstacles).len() <= obstacles.len(),
        forall|k: int|
            0 <= k < rock_indices(obstacles).len() ==> {
                &&& (#[trigger] rock_indices(obstacles)[k]) < obstacles.len()
                &&& obstacles[rock_indices(obstacles)[k] as int] is Rock
            },
    decreases obstacles.len(),
{
    if obstacles.len() > 0 {
        let rest = obstacles.drop_last();
        lemma_rock_indices(rest);
        let found = rock_indices(obstacles);
        assert forall|k: int| 0 <= k < found.len() implies {
            &&& (#[trigger] found[k]) < obstacles.len()
            &&& obstacles[found[k] as int] is Rock
        } by {
            if k < rock_indices(rest).len() {
                assert(found[k] == rock_indices(rest)[k]);
                assert(rest[found[k] as int] == obstacles[found[k] as int]);
            }
        }
        assert forall|i: int, j: int| 0 <= i < found.len() && 0 <= j < found.len() && i != j implies found[i]
            != found[j] by {
            if i < rock_indices(rest).len() {
                assert(found[i] == rock_indices(rest)[i]);
            }
            if j < rock_indices(rest).len() {
                assert(found[j] == rock_indices(rest)[j]);
            }
        }
    }
}

/// Whether `after` is `before` with a rainbow burst at `pos` appended.
pub open spec fn burst_added(before: Seq<AnyObstacle>, after: Seq<AnyObstacle>, pos: Vector2) -> bool {
    &&& after.len() == before.len() + 1
    &&& after.drop_last() == before
    &&& after.last() is ObstacleExplosion
    &&& is_fresh_burst(after.last()->ObstacleExplosion_0.0, pos)
}

/// Whether `bomb` is a pickup that has just appeared: centred at a place
/// between the safe zones, whole and at rest.
pub open spec fn is_fresh_bomb(bomb: Bomb) -> bool {
    exists|at: Vector2|
        {
            &&& OBSTACLE_SAFE_ZONE_X <= at.x <= RESOLUTION_X - OBSTACLE_SAFE_ZONE_X
            &&& OBSTACLE_SAFE_ZONE_Y <= at.y <= RESOLUTION_Y - OBSTACLE_SAFE_ZONE_Y
            &&& bomb.pos == #[trigger] at.diff(Vector2 { x: (BOMB_SIZE / 2) as i64, y: (BOMB_SIZE / 2) as i64 })
            &&& bomb.velocity == (Vector2 { x: 0, y: 0 })
            &&& bomb.angle == 0
            &&& bomb.color_cnt == 0
            &&& bomb.lifetime == BOMB_LIFE
            &&& bomb.to_destroy@.len() == 0
            &&& bomb.give_points == 0
        }
}

impl NotPong {
    /// Whether `armed` is the pickup `bomb` after the player picked it up:
    /// armed with the boxes of a random number, from the least to the most,
    /// of the static hazards, no hazard taken twice, or with all of them
    /// where they are fewer; and set to award that number of points where
    /// there is no hazard.
    pub open spec fn arms(&self, bomb: Bomb, armed: Bomb) -> bool {
        exists|targets: Seq<Rectangle>, amount: u64|
            {
                &&& BOMB_MIN_DESTROYED_OBSTACLES <= amount <= BOMB_MAX_DESTROYED_OBSTACLES
                &&& targets.len() == if amount <= rock_indices(self.obstacles@).len() {
                    amount as int
                } else {
                    rock_indices(self.obstacles@).len() as int
                }
                &&& picks(self.obstacles@, targets)
                &&& #[trigger] bomb.arms_to(armed, targets, amount)
            }
    }

    /// Whether `after` is this state after the frame of a pickup that is in
    /// the game: the pickup advances, and the player picks it up, which asks
    /// for the pickup sound, where it then has no target and touches the
    /// player.
    pub open spec fn bomb_lives_to(&self, after: &NotPong, frame_info: FrameInfo, heard: Seq<Cue>, heard_after: Seq<Cue>) -> bool {
        &&& after.player == self.player
        &&& after.obstacles == self.obstacles
        &&& after.bomb is Some
        &&& exists|moved: Bomb|
            {
                &&& #[trigger] self.bomb->0.steps_to(moved, frame_info.delta_time)
                &&& if moved.to_destroy@.len() == 0 && moved.touches(
                    self.player.pos,
                    Vector2 { x: PLAYER_SIZE, y: PLAYER_SIZE },
                ) {
                    &&& self.arms(moved, after.bomb->0)
                    &&& heard_after == heard.push(Cue::Bomb)
                } else {
                    &&& after.bomb->0 == moved
                    &&& heard_after == heard
                }
            }
    }

    /// Whether `after` is this state after the frame of a pickup that has
    /// left the game: it is gone, and one that awards points has added them
    /// to the score, asked for the burst sound and left a rainbow burst in
    /// its place among the obstacles.
    pub open spec fn bomb_ends_to(&self, after: &NotPong, heard: Seq<Cue>, heard_after: Seq<Cue>) -> bool {
        let bomb = self.bomb->0;
        &&& after.bomb is None
        &&& if bomb.give_points > 0 {
            &&& after.player@ == (PlayerView {
                count: (self.player.count + bomb.give_points) as u64,
                ..self.player@
            })
            &&& heard_after == heard.push(Cue::Pew)
            &&& burst_added(self.obstacles@, after.obstacles@, bomb.pos)
        } else {
            &&& after.player == self.player
            &&& after.obstacles == self.obstacles
            &&& heard_after == heard
        }
    }

    /// Whether `after` is this state after a frame without a pickup: one
    /// may have appeared, where the score has reached the score of the
    /// pickups and `logic_due` says that a reference tick has passed.
    pub open spec fn bomb_appears_to(&self, after: &NotPong, logic_due: bool, heard: Seq<Cue>, heard_after: Seq<Cue>) -> bool {
        &&& after.player == self.player
        &&& after.obstacles == self.obstacles
        &&& heard_after == heard
        &&& after.bomb matches Some(bomb) ==> {
            &&& self.player.count >= PLAYER_COUNT_BOMB
            &&& logic_due
            &&& is_fresh_bomb(bomb)
        }
    }

    /// Whether `after` is this state after the pickup's turn in the frame
    /// `frame_info`, which took the sounds from `heard` to `heard_after`.
    ///
    /// A pickup that is in the game moves, and is picked up where it touches
    /// the player. One that has left the game is taken away and awards its
    /// points. Where there is none, one may appear.
    pub open spec fn bomb_to(
        &self,
        after: &NotPong,
        frame_info: FrameInfo,
        logic_due: bool,
        heard: Seq<Cue>,
        heard_after: Seq<Cue>,
    ) -> bool {
        &&& after.left_pad == self.left_pad
        &&& after.right_pad == self.right_pad
        &&& after.obstacle_grid == self.obstacle_grid
        &&& after.counters() == self.counters()
        &&& match self.bomb {
            Some(bomb) => if bomb.living() {
                self.bomb_lives_to(after, frame_info, heard, heard_after)
            } else {
                self.bomb_ends_to(after, heard, heard_after)
            },
            None => self.bomb_appears_to(after, logic_due, heard, heard_after),
        }
    }

    /// The places, among the obstacles, of the static hazards.
    fn rocks(&self) -> (found: Vec<usize>)
        ensures
            found@ == rock_indices(self.obstacles@),
    {
        let mut found: Vec<usize> = Vec::new();
        let n: usize = self.obstacles.len();
        let mut i: usize = 0;
        while i < n
            invariant
                0 <= i <= n,
                n == self.obstacles@.len(),
                found@ == rock_indices(self.obstacles@.take(i as int)),
            decreases n - i,
        {
            let is_rock: bool = match &self.obstacles[i] {
                AnyObstacle::Rock(_) => true,
                _ => false,
            };
            proof {
                assert(self.obstacles@.take(i + 1).drop_last() =~= self.obstacles@.take(i as int));
            }
            if is_rock {
                found.push(i);
            }
            i = i + 1;
        }
        assert(self.obstacles@.take(n as int) =~= self.obstacles@);
        found
    }

    /// Chooses at random the boxes of `amount` static hazards, or of all
    /// where they are fewer, taking no hazard twice.
    fn select_targets(&mut self, amount: usize) -> (targets: Vec<Rectangle>)
        ensures
            targets@.len() == if amount <= rock_indices(old(self).obstacles@).len() {
                amount as int
            } else {
                rock_indices(old(self).obstacles@).len() as int
            },
            picks(old(self).obstacles@, targets@),
            final(self).agrees(old(self)),
    {
        let found = self.rocks();
        let total: usize = self.obstacles.len();
        proof {
            lemma_rock_indices(self.obstacles@);
        }
        let chosen = choose_multiple(&mut self.rng, found, amount);
        let mut targets: Vec<Rectangle> = Vec::new();
        let mut k: usize = 0;
        while k < chosen.len()
            invariant
                0 <= k <= chosen@.len(),
                targets@.len() == k,
                forall|j: int|
                    0 <= j < chosen@.len() ==> {
                        &&& (#[trigger] chosen@[j]) < self.obstacles@.len()
                        &&& self.obstacles@[chosen@[j] as int] is Rock
                    },
                forall|j: int| 0 <= j < k ==> #[trigger] targets@[j] == box_of(self.obstacles@[chosen@[j] as int]),
            decreases chosen@.len() - k,
        {
            let (pos, size) = self.obstacles[chosen[k]].bounds();
            targets.push(Rectangle { x: pos.x, y: pos.y, width: size.x, height: size.y });
            k = k + 1;
        }
        assert(picks(self.obstacles@, targets@)) by {
            assert(chosen@.len() == targets@.len());
        }
        targets
    }

    /// Lets the pickup have its turn in the frame.
    pub fn advance_bomb(&mut self, frame_info: FrameInfo, logic_due: bool, cues: &mut Vec<Cue>)
        requires
            old(self).wf(),
            old(self).player.count <= u64::MAX - BOMB_MAX_DESTROYED_OBSTACLES,
        ensures
            final(self).wf(),
            old(self).bomb_to(final(self), frame_info, logic_due, old(cues)@, final(cues)@),
    {
        let mut taken: Option<Bomb> = None;
        core::mem::swap(&mut taken, &mut self.bomb);
        match taken {
            Some(mut bomb) => {
                if bomb.is_alive() {
                    let ghost start = bomb;
                    bomb.update(frame_info.delta_time);
                    let ghost moved = bomb;
                    if bomb.to_destroy.is_empty() && bomb.collides(
                        self.player.pos,
                        Vector2 { x: PLAYER_SIZE, y: PLAYER_SIZE },
                    ) {
                        cues.push(Cue::Bomb);
                        let amount: usize = random_range(
                            &mut self.rng,
                            BOMB_MIN_DESTROYED_OBSTACLES as i64,
                            BOMB_MAX_DESTROYED_OBSTACLES as i64,
                        ) as usize;
                        let targets = self.select_targets(amount);
                        let ghost chosen = targets@;
                        bomb.arm(targets, amount as u64);
                        assert(moved.arms_to(bomb, chosen, amount as u64));
                        assert(old(self).arms(moved, bomb));
                    }
                    self.bomb = Some(bomb);
                    assert(start.steps_to(moved, frame_info.delta_time));
                } else {
                    if bomb.give_points > 0 {
                        cues.push(Cue::Pew);
                        self.player.count += bomb.give_points;
                        let burst = self.burst_at(bomb.pos);
                        self.push_burst(burst);
                        assert(self.obstacles@.drop_last() =~= old(self).obstacles@);
                    }
                }
            },
            None => {
                if self.player.count >= PLAYER_COUNT_BOMB {
                    if logic_due {
                        if random_range(&mut self.rng, 0, BOMB_PROBABILITY as i64) < 1 {
                            let x: i64 = random_range(
                                &mut self.rng,
                                OBSTACLE_SAFE_ZONE_X,
                                RESOLUTION_X - OBSTACLE_SAFE_ZONE_X,
                            );
                            let y: i64 = random_range(
                                &mut self.rng,
                                OBSTACLE_SAFE_ZONE_Y,
                                RESOLUTION_Y - OBSTACLE_SAFE_ZONE_Y,
                            );
                            let at = Vector2 { x, y };
                            let bomb = Bomb::new(at);
                            assert(bomb.pos == at.diff(
                                Vector2 { x: (BOMB_SIZE / 2) as i64, y: (BOMB_SIZE / 2) as i64 },
                            ));
                            self.bomb = Some(bomb);
                        }
                    }
                }
            },
        }
    }
}

} // verus!
