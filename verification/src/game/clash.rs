//! The obstacles' turn in a frame: each one moves, and what it then touches
//! is resolved.

use vstd::prelude::*;
use crate::constants::{BOMB_SIZE, PLAYER_SIZE};
use crate::explosion::survivors;
use crate::frame::FrameInfo;
use crate::game::{grown_by_bursts, is_fresh_burst, same_identity, Cue, NotPong};
use crate::obstacle::{AnyObstacle, Obstacle};
use crate::player::PlayerView;
use crate::utils::{overlaps, Vector2};

verus! {

/// Whether `after` is the obstacle `before` after its turn in the frame
/// `frame_info`: advanced by the frame and then, where `killed` says so and
/// it takes part in collisions, killed.
pub open spec fn advances_to(before: AnyObstacle, after: AnyObstacle, frame_info: FrameInfo, killed: bool) -> bool {
    match (before, after) {
        (AnyObstacle::Rock(a), AnyObstacle::Rock(b)) => b == if killed {
            a.stepped(frame_info.delta_time).killed()
        } else {
            a.stepped(frame_info.delta_time)
        },
        (AnyObstacle::Rocket(a), AnyObstacle::Rocket(b)) => b == if killed {
            a.stepped(frame_info.delta_time).killed()
        } else {
            a.stepped(frame_info.delta_time)
        },
        (AnyObstacle::ObstacleExplosion(a), AnyObstacle::ObstacleExplosion(b)) => {
            &&& b.0.pos == a.0.pos
            &&& b.0.particles@ == survivors(a.0.particles@, frame_info.delta_time)
        },
        _ => false,
    }
}

/// The corner of an obstacle's box once the obstacle has advanced by the
/// frame: only a projectile moves.
pub open spec fn corner_after(obstacle: AnyObstacle, frame_info: FrameInfo) -> Vector2 {
    match obstacle {
        AnyObstacle::Rocket(rocket) => rocket.stepped(frame_info.delta_time).pos,
        _ => obstacle.corner(),
    }
}

impl NotPong {
    /// The corner of the box of the obstacle `k` after its move.
    pub open spec fn corner_of(&self, k: int, frame_info: FrameInfo) -> Vector2 {
        corner_after(self.obstacles@[k], frame_info)
    }

    /// Whether the obstacle `k`, after its move, touches the pickup.
    pub open spec fn hits_bomb(&self, k: int, frame_info: FrameInfo) -> bool {
        &&& self.obstacles@[k].collidable()
        &&& self.bomb is Some
        &&& overlaps(
            self.corner_of(k, frame_info),
            self.obstacles@[k].span(),
            self.bomb->0.pos,
            Vector2 { x: BOMB_SIZE, y: BOMB_SIZE },
        )
    }

    /// Whether the obstacle `k`, after its move, touches the player and not
    /// the pickup.
    pub open spec fn hits_player(&self, k: int, frame_info: FrameInfo) -> bool {
        &&& self.obstacles@[k].collidable()
        &&& !self.hits_bomb(k, frame_info)
        &&& overlaps(
            self.corner_of(k, frame_info),
            self.obstacles@[k].span(),
            self.player.pos,
            Vector2 { x: PLAYER_SIZE, y: PLAYER_SIZE },
        )
    }

    /// The place of the first obstacle from `k` on that touches the player,
    /// or the number of obstacles where none does.
    pub open spec fn halt_from(&self, k: int, frame_info: FrameInfo) -> int
        decreases self.obstacles@.len() - k,
    {
        if k < 0 || k >= self.obstacles@.len() {
            self.obstacles@.len() as int
        } else if self.hits_player(k, frame_info) {
            k
        } else {
            self.halt_from(k + 1, frame_info)
        }
    }

    /// The place at which the obstacles' turn ends: that of the first
    /// obstacle that touches the player, or their number.
    pub open spec fn halt(&self, frame_info: FrameInfo) -> int {
        self.halt_from(0, frame_info)
    }

    /// Whether the obstacle `i` is tried against the obstacles before it: it
    /// takes part in collisions and touches neither the pickup nor the
    /// player.
    pub open spec fn pairs_up(&self, i: int, frame_info: FrameInfo) -> bool {
        &&& self.obstacles@[i].collidable()
        &&& !self.hits_bomb(i, frame_info)
        &&& !self.hits_player(i, frame_info)
    }

    /// Whether the obstacle `j` sees the obstacle `i`, both after their
    /// moves.
    pub open spec fn sees(&self, j: int, i: int, frame_info: FrameInfo) -> bool {
        &&& self.obstacles@[j].collidable()
        &&& overlaps(
            self.corner_of(j, frame_info),
            self.obstacles@[j].span(),
            self.corner_of(i, frame_info),
            self.obstacles@[i].span(),
        )
    }

    /// Whether the pair of the earlier obstacle `j` and the later one `i` has
    /// clashed by the time the turn has come to the obstacle `at` and, of the
    /// obstacles before it, to the obstacle `tried`.
    pub open spec fn clashed(&self, j: int, i: int, at: int, tried: int, frame_info: FrameInfo) -> bool {
        &&& 0 <= j < i < self.obstacles@.len()
        &&& i < at || (i == at && j < tried)
        &&& self.pairs_up(i, frame_info)
        &&& self.sees(j, i, frame_info)
    }

    /// Whether the obstacle `k` has been killed by the time the turn has
    /// come to the obstacle `at` and, of the obstacles before it, to the
    /// obstacle `tried`: it has touched the pickup, or has clashed with an
    /// obstacle before it or behind it.
    pub open spec fn killed_by(&self, k: int, at: int, tried: int, frame_info: FrameInfo) -> bool {
        ||| 0 <= k < at && k < self.obstacles@.len() && self.hits_bomb(k, frame_info)
        ||| exists|m: int| #[trigger] self.clashed(k, m, at, tried, frame_info)
        ||| exists|m: int| #[trigger] self.clashed(m, k, at, tried, frame_info)
    }

    /// The places of the bursts that the obstacle `i` leaves in its clashes
    /// with the obstacles before the obstacle `tried`: one burst for each of
    /// them that sees it, at the place of that earlier obstacle.
    pub open spec fn clash_sites(&self, i: int, tried: int, frame_info: FrameInfo) -> Seq<Vector2>
        decreases tried,
    {
        if tried <= 0 {
            Seq::empty()
        } else if self.sees(tried - 1, i, frame_info) {
            self.clash_sites(i, tried - 1, frame_info).push(self.corner_of(tried - 1, frame_info))
        } else {
            self.clash_sites(i, tried - 1, frame_info)
        }
    }

    /// The places of the bursts that the turn of the obstacle `i` leaves: its
    /// own place where it touches the pickup, and else those of its clashes.
    pub open spec fn turn_sites(&self, i: int, frame_info: FrameInfo) -> Seq<Vector2> {
        if self.hits_bomb(i, frame_info) {
            seq![self.corner_of(i, frame_info)]
        } else if self.pairs_up(i, frame_info) {
            self.clash_sites(i, i, frame_info)
        } else {
            Seq::empty()
        }
    }

    /// The places of the bursts that the turns of the obstacles before the
    /// obstacle `at` leave, in order.
    pub open spec fn burst_sites(&self, at: int, frame_info: FrameInfo) -> Seq<Vector2>
        decreases at,
    {
        if at <= 0 {
            Seq::empty()
        } else {
            self.burst_sites(at - 1, frame_info) + self.turn_sites(at - 1, frame_info)
        }
    }

    /// The sounds that the turn of the obstacle `i` asks for: the burst
    /// sound where it touches the pickup, and the panning of its own sound
    /// where it is a projectile that touches neither the pickup nor the
    /// player.
    pub open spec fn cues_of(&self, i: int, frame_info: FrameInfo) -> Seq<Cue> {
        if self.hits_bomb(i, frame_info) {
            seq![Cue::Pew]
        } else if self.pairs_up(i, frame_info) {
            match self.obstacles@[i] {
                AnyObstacle::Rocket(rocket) => seq![
                    Cue::RocketPan { id: rocket.id, x: rocket.stepped(frame_info.delta_time).pos.x },
                ],
                _ => Seq::empty(),
            }
        } else {
            Seq::empty()
        }
    }

    /// The sounds that the turns of the obstacles before the obstacle `at`
    /// ask for, in order.
    pub open spec fn clash_cues(&self, at: int, frame_info: FrameInfo) -> Seq<Cue>
        decreases at,
    {
        if at <= 0 {
            Seq::empty()
        } else {
            self.clash_cues(at - 1, frame_info) + self.cues_of(at - 1, frame_info)
        }
    }

    /// Whether the obstacles `now` are those of this state once the turn has
    /// come to the obstacle `at` and, of the obstacles before it, to the
    /// obstacle `tried`; `moved` says whether the obstacle `at` itself has
    /// moved. The obstacles whose turn has come have advanced and are killed
    /// where they were killed by then; the others are as they were; and
    /// behind them all stand the bursts, `extra` more than those of the
    /// turns before `at`, each at its place.
    pub open spec fn turn_state(
        &self,
        now: Seq<AnyObstacle>,
        at: int,
        tried: int,
        moved: bool,
        extra: Seq<Vector2>,
        frame_info: FrameInfo,
    ) -> bool {
        let n = self.obstacles@.len() as int;
        let sites = self.burst_sites(at, frame_info) + extra;
        &&& now.len() == n + sites.len()
        &&& forall|k: int|
            0 <= k < n ==> if k < at || (k == at && moved) {
                advances_to(self.obstacles@[k], #[trigger] now[k], frame_info, self.killed_by(k, at, tried, frame_info))
            } else {
                now[k] == self.obstacles@[k]
            }
        &&& forall|m: int|
            0 <= m < sites.len() ==> {
                &&& (#[trigger] now[n + m]) is ObstacleExplosion
                &&& is_fresh_burst(now[n + m]->ObstacleExplosion_0.0, sites[m])
            }
    }

    /// Whether `after` is this state after the obstacles' turn in the frame
    /// `frame_info`, which took the sounds from `heard` to `heard_after`.
    ///
    /// The obstacles have their turn one after the other, up to the first
    /// one that touches the player, which marks the player dead. Each one in
    /// turn moves. One that touches the pickup is killed and leaves a burst,
    /// with the burst sound. One that touches neither pans its sound, where
    /// it is a projectile, and clashes with each obstacle before it that
    /// sees it: both are killed, and a burst is left at the earlier one's
    /// place. The bursts stand behind the obstacles, in the order of the
    /// turns.
    pub open spec fn clashes_to(&self, after: &NotPong, frame_info: FrameInfo, heard: Seq<Cue>, heard_after: Seq<Cue>) -> bool {
        let halt = self.halt(frame_info);
        &&& after.left_pad == self.left_pad
        &&& after.right_pad == self.right_pad
        &&& after.obstacle_grid == self.obstacle_grid
        &&& after.bomb == self.bomb
        &&& after.counters() == self.counters()
        &&& after.player@ == (PlayerView {
            dead: self.player.dead || halt < self.obstacles@.len(),
            ..self.player@
        })
        &&& self.turn_state(
            after.obstacles@,
            halt,
            0,
            true,
            Seq::empty(),
            frame_info,
        )
        &&& heard_after == heard + self.clash_cues(halt, frame_info)
    }
}

/// An obstacle that has had its turn stands where its move took it, with its
/// extent, its kind and its identity.
pub proof fn lemma_advanced_box(before: AnyObstacle, after: AnyObstacle, frame_info: FrameInfo, killed: bool)
    requires
        advances_to(before, after, frame_info, killed),
    ensures
        after.corner() == corner_after(before, frame_info),
        after.span() == before.span(),
        after.collidable() == before.collidable(),
        same_identity(before, after),
{
}

/// Killing an obstacle that has had its turn leaves it killed after its
/// turn, whether it was killed before or not.
pub proof fn lemma_advanced_kill(before: AnyObstacle, mid: AnyObstacle, after: AnyObstacle, frame_info: FrameInfo, killed: bool)
    requires
        advances_to(before, mid, frame_info, killed),
        mid.killed_to(after),
    ensures
        advances_to(before, after, frame_info, true),
{
}

impl NotPong {
    /// No obstacle is killed before its own turn has begun.
    pub proof fn lemma_not_killed_yet(&self, k: int, at: int, frame_info: FrameInfo)
        requires
            at <= k,
        ensures
            !self.killed_by(k, at, 0, frame_info),
    {
        assert forall|m: int| !self.clashed(k, m, at, 0, frame_info) by {}
        assert forall|m: int| !self.clashed(m, k, at, 0, frame_info) by {}
    }

    /// Trying the obstacle `tried` against the later obstacle `at` kills
    /// both where the earlier sees the later, and nobody else.
    pub proof fn lemma_killed_next_pair(&self, k: int, at: int, tried: int, frame_info: FrameInfo)
        requires
            0 <= tried < at < self.obstacles@.len(),
            self.pairs_up(at, frame_info),
        ensures
            self.killed_by(k, at, tried + 1, frame_info) == (self.killed_by(k, at, tried, frame_info) || (
            self.sees(tried, at, frame_info) && (k == at || k == tried))),
    {
        if self.killed_by(k, at, tried + 1, frame_info) {
            if exists|m: int| #[trigger] self.clashed(k, m, at, tried + 1, frame_info) {
                let m = choose|m: int| #[trigger] self.clashed(k, m, at, tried + 1, frame_info);
                if !(m == at && k == tried) {
                    assert(self.clashed(k, m, at, tried, frame_info));
                }
            } else if exists|m: int| #[trigger] self.clashed(m, k, at, tried + 1, frame_info) {
                let m = choose|m: int| #[trigger] self.clashed(m, k, at, tried + 1, frame_info);
                if !(k == at && m == tried) {
                    assert(self.clashed(m, k, at, tried, frame_info));
                }
            }
        }
        if self.killed_by(k, at, tried, frame_info) {
            if exists|m: int| #[trigger] self.clashed(k, m, at, tried, frame_info) {
                let m = choose|m: int| #[trigger] self.clashed(k, m, at, tried, frame_info);
                assert(self.clashed(k, m, at, tried + 1, frame_info));
            } else if exists|m: int| #[trigger] self.clashed(m, k, at, tried, frame_info) {
                let m = choose|m: int| #[trigger] self.clashed(m, k, at, tried, frame_info);
                assert(self.clashed(m, k, at, tried + 1, frame_info));
            }
        }
        if self.sees(tried, at, frame_info) {
            assert(self.clashed(tried, at, at, tried + 1, frame_info));
        }
    }

    /// When the turn passes from the obstacle `at` to the next one, those
    /// are killed that were killed by the end of the turn, and the obstacle
    /// `at` itself where it touched the pickup.
    pub proof fn lemma_killed_next_turn(&self, k: int, at: int, frame_info: FrameInfo)
        requires
            0 <= at < self.obstacles@.len(),
        ensures
            self.killed_by(k, at + 1, 0, frame_info) == (self.killed_by(
                k,
                at,
                if self.pairs_up(at, frame_info) {
                    at
                } else {
                    0
                },
                frame_info,
            ) || (k == at && self.hits_bomb(at, frame_info))),
    {
        let tried = if self.pairs_up(at, frame_info) {
            at
        } else {
            0
        };
        if self.killed_by(k, at + 1, 0, frame_info) {
            if exists|m: int| #[trigger] self.clashed(k, m, at + 1, 0, frame_info) {
                let m = choose|m: int| #[trigger] self.clashed(k, m, at + 1, 0, frame_info);
                assert(self.clashed(k, m, at, tried, frame_info));
            } else if exists|m: int| #[trigger] self.clashed(m, k, at + 1, 0, frame_info) {
                let m = choose|m: int| #[trigger] self.clashed(m, k, at + 1, 0, frame_info);
                assert(self.clashed(m, k, at, tried, frame_info));
            }
        }
        if self.killed_by(k, at, tried, frame_info) {
            if exists|m: int| #[trigger] self.clashed(k, m, at, tried, frame_info) {
                let m = choose|m: int| #[trigger] self.clashed(k, m, at, tried, frame_info);
                assert(self.clashed(k, m, at + 1, 0, frame_info));
            } else if exists|m: int| #[trigger] self.clashed(m, k, at, tried, frame_info) {
                let m = choose|m: int| #[trigger] self.clashed(m, k, at, tried, frame_info);
                assert(self.clashed(m, k, at + 1, 0, frame_info));
            }
        }
    }

    /// The obstacles of a turn state are those of the start with their
    /// identities, followed by bursts.
    pub proof fn lemma_turn_grown(
        &self,
        now: Seq<AnyObstacle>,
        at: int,
        tried: int,
        moved: bool,
        extra: Seq<Vector2>,
        frame_info: FrameInfo,
    )
        requires
            self.turn_state(now, at, tried, moved, extra, frame_info),
        ensures
            grown_by_bursts(self.obstacles@, now),
    {
        let n = self.obstacles@.len() as int;
        assert forall|k: int| 0 <= k < n implies same_identity(self.obstacles@[k], #[trigger] now[k]) by {
            if k < at || (k == at && moved) {
                lemma_advanced_box(self.obstacles@[k], now[k], frame_info, self.killed_by(k, at, tried, frame_info));
            }
        }
        assert forall|k: int| n <= k < now.len() implies (#[trigger] now[k]) is ObstacleExplosion by {
            assert(now[n + (k - n)] is ObstacleExplosion);
        }
    }

    /// The obstacle whose turn it is has moved.
    pub proof fn lemma_turn_moved(&self, prev: Seq<AnyObstacle>, now: Seq<AnyObstacle>, at: int, frame_info: FrameInfo)
        requires
            0 <= at < self.obstacles@.len(),
            self.turn_state(prev, at, 0, false, Seq::empty(), frame_info),
            now.len() == prev.len(),
            prev[at].steps_to(now[at], frame_info),
            forall|k: int| 0 <= k < now.len() && k != at ==> now[k] == prev[k],
        ensures
            self.turn_state(now, at, 0, true, Seq::empty(), frame_info),
    {
        let n = self.obstacles@.len() as int;
        self.lemma_not_killed_yet(at, at, frame_info);
        assert forall|k: int| 0 <= k < n implies if k < at || k == at {
            advances_to(self.obstacles@[k], #[trigger] now[k], frame_info, self.killed_by(k, at, 0, frame_info))
        } else {
            now[k] == self.obstacles@[k]
        } by {
            if k != at {
                assert(now[k] == prev[k]);
            } else {
                assert(prev[at] == self.obstacles@[at]);
            }
        }
        let sites = self.burst_sites(at, frame_info) + Seq::<Vector2>::empty();
        assert forall|m: int| 0 <= m < sites.len() implies {
            &&& (#[trigger] now[n + m]) is ObstacleExplosion
            &&& is_fresh_burst(now[n + m]->ObstacleExplosion_0.0, sites[m])
        } by {
            assert(now[n + m] == prev[n + m]);
        }
    }

    /// The turn of an obstacle that touches the pickup ends with the
    /// obstacle killed and a burst at its place.
    pub proof fn lemma_turn_bombed(
        &self,
        prev: Seq<AnyObstacle>,
        dead: AnyObstacle,
        burst: AnyObstacle,
        at: int,
        frame_info: FrameInfo,
    )
        requires
            0 <= at < self.obstacles@.len(),
            self.turn_state(prev, at, 0, true, Seq::empty(), frame_info),
            self.hits_bomb(at, frame_info),
            prev[at].killed_to(dead),
            burst is ObstacleExplosion,
            is_fresh_burst(burst->ObstacleExplosion_0.0, self.corner_of(at, frame_info)),
        ensures
            self.turn_state(prev.update(at, dead).push(burst), at + 1, 0, false, Seq::empty(), frame_info),
    {
        let n = self.obstacles@.len() as int;
        let now = prev.update(at, dead).push(burst);
        let before_sites = self.burst_sites(at, frame_info) + Seq::<Vector2>::empty();
        let sites = self.burst_sites(at + 1, frame_info) + Seq::<Vector2>::empty();
        assert(self.turn_sites(at, frame_info) =~= seq![self.corner_of(at, frame_info)]);
        assert(sites =~= before_sites.push(self.corner_of(at, frame_info)));
        assert forall|k: int| 0 <= k < n implies if k < at + 1 {
            advances_to(self.obstacles@[k], #[trigger] now[k], frame_info, self.killed_by(k, at + 1, 0, frame_info))
        } else {
            now[k] == self.obstacles@[k]
        } by {
            self.lemma_killed_next_turn(k, at, frame_info);
            if k == at {
                lemma_advanced_kill(
                    self.obstacles@[k],
                    prev[k],
                    dead,
                    frame_info,
                    self.killed_by(k, at, 0, frame_info),
                );
            } else {
                assert(now[k] == prev[k]);
            }
        }
        assert forall|m: int| 0 <= m < sites.len() implies {
            &&& (#[trigger] now[n + m]) is ObstacleExplosion
            &&& is_fresh_burst(now[n + m]->ObstacleExplosion_0.0, sites[m])
        } by {
            if m < before_sites.len() {
                assert(now[n + m] == prev[n + m]);
            }
        }
    }

    /// Trying an earlier obstacle against the one whose turn it is leaves
    /// both killed and one burst more where the earlier sees the later, and
    /// leaves all as it is where not.
    pub proof fn lemma_turn_paired(
        &self,
        prev: Seq<AnyObstacle>,
        now: Seq<AnyObstacle>,
        at: int,
        tried: int,
        frame_info: FrameInfo,
    )
        requires
            0 <= tried < at < self.obstacles@.len(),
            self.pairs_up(at, frame_info),
            self.turn_state(prev, at, tried, true, self.clash_sites(at, tried, frame_info), frame_info),
            if self.sees(tried, at, frame_info) {
                exists|later: AnyObstacle, earlier: AnyObstacle, burst: AnyObstacle|
                    {
                        &&& prev[at].killed_to(later)
                        &&& prev[tried].killed_to(earlier)
                        &&& burst is ObstacleExplosion
                        &&& is_fresh_burst(burst->ObstacleExplosion_0.0, self.corner_of(tried, frame_info))
                        &&& now == #[trigger] prev.update(at, later).update(tried, earlier).push(burst)
                    }
            } else {
                now == prev
            },
        ensures
            self.turn_state(now, at, tried + 1, true, self.clash_sites(at, tried + 1, frame_info), frame_info),
    {
        let n = self.obstacles@.len() as int;
        let site = self.corner_of(tried, frame_info);
        let before_extra = self.clash_sites(at, tried, frame_info);
        let extra = self.clash_sites(at, tried + 1, frame_info);
        let before_sites = self.burst_sites(at, frame_info) + before_extra;
        let sites = self.burst_sites(at, frame_info) + extra;
        if self.sees(tried, at, frame_info) {
            let (later, earlier, burst) = choose|later: AnyObstacle, earlier: AnyObstacle, burst: AnyObstacle|
                {
                    &&& prev[at].killed_to(later)
                    &&& prev[tried].killed_to(earlier)
                    &&& burst is ObstacleExplosion
                    &&& is_fresh_burst(burst->ObstacleExplosion_0.0, self.corner_of(tried, frame_info))
                    &&& now == #[trigger] prev.update(at, later).update(tried, earlier).push(burst)
                };
            assert(extra =~= before_extra.push(site));
            assert(sites =~= before_sites.push(site));
            assert forall|k: int| 0 <= k < n implies if k < at || k == at {
                advances_to(
                    self.obstacles@[k],
                    #[trigger] now[k],
                    frame_info,
                    self.killed_by(k, at, tried + 1, frame_info),
                )
            } else {
                now[k] == self.obstacles@[k]
            } by {
                self.lemma_killed_next_pair(k, at, tried, frame_info);
                if k == at {
                    lemma_advanced_kill(
                        self.obstacles@[k],
                        prev[k],
                        later,
                        frame_info,
                        self.killed_by(k, at, tried, frame_info),
                    );
                } else if k == tried {
                    lemma_advanced_kill(
                        self.obstacles@[k],
                        prev[k],
                        earlier,
                        frame_info,
                        self.killed_by(k, at, tried, frame_info),
                    );
                } else {
                    assert(now[k] == prev[k]);
                }
            }
            assert forall|m: int| 0 <= m < sites.len() implies {
                &&& (#[trigger] now[n + m]) is ObstacleExplosion
                &&& is_fresh_burst(now[n + m]->ObstacleExplosion_0.0, sites[m])
            } by {
                if m < before_sites.len() {
                    assert(now[n + m] == prev[n + m]);
                }
            }
        } else {
            assert(extra =~= before_extra);
            assert forall|k: int| 0 <= k < n implies if k < at || k == at {
                advances_to(
                    self.obstacles@[k],
                    #[trigger] now[k],
                    frame_info,
                    self.killed_by(k, at, tried + 1, frame_info),
                )
            } else {
                now[k] == self.obstacles@[k]
            } by {
                self.lemma_killed_next_pair(k, at, tried, frame_info);
            }
        }
    }

    /// The turn passes to the next obstacle once the one whose turn it was
    /// has been tried against all before it, or takes no part in collisions.
    pub proof fn lemma_turn_passed(&self, now: Seq<AnyObstacle>, at: int, frame_info: FrameInfo)
        requires
            0 <= at < self.obstacles@.len(),
            !self.hits_bomb(at, frame_info),
            !self.hits_player(at, frame_info),
            self.turn_state(
                now,
                at,
                if self.pairs_up(at, frame_info) {
                    at
                } else {
                    0
                },
                true,
                self.turn_sites(at, frame_info),
                frame_info,
            ),
        ensures
            self.turn_state(now, at + 1, 0, false, Seq::empty(), frame_info),
    {
        let n = self.obstacles@.len() as int;
        let tried = if self.pairs_up(at, frame_info) {
            at
        } else {
            0
        };
        let extra = self.turn_sites(at, frame_info);
        let before_sites = self.burst_sites(at, frame_info) + extra;
        let sites = self.burst_sites(at + 1, frame_info) + Seq::<Vector2>::empty();
        assert(sites =~= before_sites);
        assert forall|k: int| 0 <= k < n implies if k < at + 1 {
            advances_to(self.obstacles@[k], #[trigger] now[k], frame_info, self.killed_by(k, at + 1, 0, frame_info))
        } else {
            now[k] == self.obstacles@[k]
        } by {
            self.lemma_killed_next_turn(k, at, frame_info);
        }
    }

    /// Whether this state and `other` agree on the pads, the grid, the
    /// pickup and the numbers.
    pub open spec fn same_rest(&self, other: &NotPong) -> bool {
        &&& self.left_pad == other.left_pad
        &&& self.right_pad == other.right_pad
        &&& self.obstacle_grid == other.obstacle_grid
        &&& self.bomb == other.bomb
        &&& self.counters() == other.counters()
    }

    /// Advances the obstacles by one frame, one after the other, and
    /// resolves what they touch.
    pub fn advance_obstacles(&mut self, frame_info: FrameInfo, cues: &mut Vec<Cue>)
        ensures
            old(self).clashes_to(final(self), frame_info, old(cues)@, final(cues)@),
            grown_by_bursts(old(self).obstacles@, final(self).obstacles@),
    {
        let ghost start = *self;
        let ghost heard = cues@;
        let n: usize = self.obstacles.len();
        let mut i: usize = 0;
        let mut halted: bool = false;
        while i < n && !halted
            invariant
                0 <= i <= n,
                n == start.obstacles@.len(),
                halted ==> i < n,
                self.same_rest(&start),
                start.halt(frame_info) == if halted {
                    i as int
                } else {
                    start.halt_from(i as int, frame_info)
                },
                self.player@ == (PlayerView { dead: start.player.dead || halted, ..start.player@ }),
                start.turn_state(self.obstacles@, i as int, 0, halted, Seq::empty(), frame_info),
                cues@ == heard + start.clash_cues(i as int, frame_info),
            decreases n - i + if halted { 0int } else { 1int },
        {
            let ghost entered = self.obstacles@;
            self.obstacles[i].update(frame_info);
            proof {
                start.lemma_turn_moved(entered, self.obstacles@, i as int, frame_info);
                lemma_advanced_box(
                    start.obstacles@[i as int],
                    self.obstacles@[i as int],
                    frame_info,
                    start.killed_by(i as int, i as int, 0, frame_info),
                );
            }
            let ghost moved = self.obstacles@;
            let collidable: bool = self.obstacles[i].can_collide();
            let hit_bomb: bool = collidable && match &self.bomb {
                Some(bomb) => {
                    let at = bomb.pos;
                    self.obstacles[i].collides_object(at, Vector2 { x: BOMB_SIZE, y: BOMB_SIZE })
                },
                None => false,
            };
            assert(hit_bomb == start.hits_bomb(i as int, frame_info));
            if hit_bomb {
                cues.push(Cue::Pew);
                self.kill_at(i);
                let ghost dead = self.obstacles@[i as int];
                let (pos, _) = self.obstacles[i].bounds();
                let burst = self.burst_at(pos);
                self.push_burst(burst);
                proof {
                    assert(pos == start.corner_of(i as int, frame_info));
                    start.lemma_turn_bombed(moved, dead, burst, i as int, frame_info);
                    assert(self.obstacles@ =~= moved.update(i as int, dead).push(burst));
                    assert(cues@ =~= heard + start.clash_cues(i + 1, frame_info));
                }
                i = i + 1;
            } else {
                let at = self.player.pos;
                let hit_player: bool = collidable && self.obstacles[i].collides_object(
                    at,
                    Vector2 { x: PLAYER_SIZE, y: PLAYER_SIZE },
                );
                assert(hit_player == start.hits_player(i as int, frame_info));
                if hit_player {
                    self.player.dead = true;
                    halted = true;
                } else {
                    if collidable {
                        match &self.obstacles[i] {
                            AnyObstacle::Rocket(rocket) => {
                                cues.push(Cue::RocketPan { id: rocket.id, x: rocket.pos.x });
                            },
                            _ => {},
                        }
                        assert(cues@ =~= heard + start.clash_cues(i + 1, frame_info));
                        let (pos, size) = self.obstacles[i].bounds();
                        let mut j: usize = 0;
                        while j < i
                            invariant
                                0 <= j <= i < n,
                                n == start.obstacles@.len(),
                                !halted,
                                self.same_rest(&start),
                                start.pairs_up(i as int, frame_info),
                                pos == start.corner_of(i as int, frame_info),
                                size == start.obstacles@[i as int].span(),
                                self.player@ == (PlayerView { dead: start.player.dead || halted, ..start.player@ }),
                                start.turn_state(
                                    self.obstacles@,
                                    i as int,
                                    j as int,
                                    true,
                                    start.clash_sites(i as int, j as int, frame_info),
                                    frame_info,
                                ),
                            decreases i - j,
                        {
                            let ghost paired = self.obstacles@;
                            proof {
                                lemma_advanced_box(
                                    start.obstacles@[j as int],
                                    paired[j as int],
                                    frame_info,
                                    start.killed_by(j as int, i as int, j as int, frame_info),
                                );
                            }
                            let (site, _) = self.obstacles[j].bounds();
                            let sees: bool = self.obstacles[j].can_collide() && self.obstacles[j].collides_object(
                                pos,
                                size,
                            );
                            assert(sees == start.sees(j as int, i as int, frame_info));
                            assert(self.obstacles@ =~= paired);
                            if sees {
                                proof {
                                    lemma_advanced_box(
                                        start.obstacles@[i as int],
                                        paired[i as int],
                                        frame_info,
                                        start.killed_by(i as int, i as int, j as int, frame_info),
                                    );
                                }
                                self.kill_at(i);
                                let ghost later = self.obstacles@[i as int];
                                assert(paired[i as int].killed_to(later));
                                assert(self.obstacles@[j as int] == paired[j as int]);
                                self.kill_at(j);
                                let ghost earlier = self.obstacles@[j as int];
                                assert(paired[j as int].killed_to(earlier));
                                let burst = self.burst_at(site);
                                self.push_burst(burst);
                                proof {
                                    let joined = paired.update(i as int, later).update(j as int, earlier).push(
                                        burst,
                                    );
                                    assert(self.obstacles@ =~= joined);
                                    assert(self.obstacles@ == paired.update(i as int, later).update(
                                        j as int,
                                        earlier,
                                    ).push(burst));
                                }
                            }
                            proof {
                                start.lemma_turn_paired(paired, self.obstacles@, i as int, j as int, frame_info);
                            }
                            j = j + 1;
                        }
                    } else {
                        assert(cues@ =~= heard + start.clash_cues(i + 1, frame_info));
                    }
                    proof {
                        start.lemma_turn_passed(self.obstacles@, i as int, frame_info);
                    }
                    i = i + 1;
                }
            }
        }
        proof {
            start.lemma_turn_grown(self.obstacles@, i as int, 0, halted, Seq::empty(), frame_info);
            assert(start.turn_state(
                self.obstacles@,
                start.halt(frame_info),
                0,
                true,
                Seq::empty(),
                frame_info,
            ));
        }
    }
}

} // verus!
