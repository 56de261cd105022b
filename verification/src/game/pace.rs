//! The pace of the game: the pads and their deflections, the rise of the
//! difficulty, and the sprint charge with the cooldowns.

use vstd::prelude::*;
use crate::constants::{
    ALPHA_CHANGE, MOD_INCREMENT_DIFF, PLAYER_COUNT_OBST, SPRINT_CHARGE_DELTA, SPRINT_MAX_VALUE,
    SPRINT_USE_DELTA,
};
use crate::fixed::{fx_add, fx_mul, fx_sub, sat_add, sat_mul, sat_sub};
use crate::frame::FrameInfo;
use crate::game::{Counters, Cue, NotPong};
use crate::pad::{is_pad_target, Pad};
use crate::player::PlayerView;
use crate::utils::Vector2;

verus! {

/// Whether `after` is the pad `before` after a frame: advanced by the
/// frame, and, where `asked` says that the pad was tried and the player
/// then hits it, with a relocation scheduled as a hit does.
pub open spec fn pad_frame(before: Pad, after: Pad, player_pos: Vector2, frame_info: FrameInfo, asked: bool) -> bool {
    let moved = before.stepped(frame_info.delta_time);
    if asked && moved.touches(player_pos, frame_info.tolerance) && moved.canonical() {
        exists|target: i64| is_pad_target(target, moved.size.y) && after == #[trigger] moved.moved_to(target)
    } else {
        after == moved
    }
}

/// The sprint charge after a frame that lasts `delta_time`: it drains in a
/// sprint while there is any, and fills up outside one, up to its ceiling.
pub open spec fn charged(sprint_amount: i64, sprinting: bool, delta_time: i64) -> int {
    if sprinting {
        if sprint_amount > 0 {
            sat_sub(sprint_amount as int, sat_mul(SPRINT_USE_DELTA as int, delta_time as int))
        } else {
            sprint_amount as int
        }
    } else if sprint_amount < SPRINT_MAX_VALUE {
        let filled = sat_add(sprint_amount as int, sat_mul(SPRINT_CHARGE_DELTA as int, delta_time as int));
        if filled > SPRINT_MAX_VALUE {
            SPRINT_MAX_VALUE as int
        } else {
            filled
        }
    } else {
        sprint_amount as int
    }
}

/// Whether the score `count` raises the difficulty: it has reached the
/// score from which obstacles appear, is a multiple of the score step, and
/// has not raised the difficulty before.
pub open spec fn raises(count: u64, last_player_count: u64) -> bool {
    count >= PLAYER_COUNT_OBST && count != last_player_count && count % MOD_INCREMENT_DIFF == 0
}

impl NotPong {
    /// Whether the left pad, advanced by the frame, is hit by the player.
    pub open spec fn left_hit(&self, frame_info: FrameInfo) -> bool {
        self.left_pad.stepped(frame_info.delta_time).touches(self.player.pos, frame_info.tolerance)
    }

    /// Whether the right pad, advanced by the frame, is hit by the player.
    pub open spec fn right_hit(&self, frame_info: FrameInfo) -> bool {
        self.right_pad.stepped(frame_info.delta_time).touches(self.player.pos, frame_info.tolerance)
    }

    /// Whether `after` is this state after the pads' turn in the frame
    /// `frame_info`, which took the sounds from `heard` to `heard_after`.
    ///
    /// Both pads advance. The left one is tried against the player, and the
    /// right one where the left one is not hit. A hit counts where the time
    /// between two deflections has passed: then the player is turned back
    /// and scores a point, and the hit sound is asked for.
    pub open spec fn pads_to(&self, after: &NotPong, frame_info: FrameInfo, heard: Seq<Cue>, heard_after: Seq<Cue>) -> bool {
        let hit = self.left_hit(frame_info) || self.right_hit(frame_info);
        &&& pad_frame(self.left_pad, after.left_pad, self.player.pos, frame_info, true)
        &&& pad_frame(self.right_pad, after.right_pad, self.player.pos, frame_info, !self.left_hit(frame_info))
        &&& after.obstacles == self.obstacles
        &&& after.obstacle_grid == self.obstacle_grid
        &&& after.bomb == self.bomb
        &&& if hit && self.can_hit() {
            &&& after.player@ == self.player@.inverted()
            &&& after.counters() == (Counters { hit_cooldown: 0, ..self.counters() })
            &&& heard_after == heard.push(Cue::Hit)
        } else {
            &&& after.player == self.player
            &&& after.counters() == self.counters()
            &&& heard_after == heard
        }
    }

    /// Whether `after` is this state with the difficulty raised by one
    /// where the score calls for it.
    pub open spec fn raises_to(&self, after: &NotPong) -> bool {
        &&& after.player == self.player
        &&& after.same_field(self)
        &&& after.counters() == if raises(self.player.count, self.last_player_count) {
            Counters {
                last_player_count: self.player.count,
                difficulty: (self.difficulty + 1) as u16,
                ..self.counters()
            }
        } else {
            self.counters()
        }
    }

    /// Whether `after` is this state after the sprint charge and both
    /// cooldowns have advanced by a frame that lasts `delta_time`. A sprint
    /// that has no charge left ends.
    pub open spec fn recharges_to(&self, after: &NotPong, delta_time: i64) -> bool {
        let spent = self.player.sprinting && self.sprint_amount <= 0;
        &&& after.same_field(self)
        &&& if spent {
            after.player@ == (PlayerView { sprinting: false, ..self.player@ })
        } else {
            after.player == self.player
        }
        &&& after.counters() == (Counters {
            sprint_amount: charged(self.sprint_amount, self.player.sprinting, delta_time) as i64,
            sprint_cooldown: sat_add(self.sprint_cooldown as int, delta_time as int) as i64,
            hit_cooldown: sat_add(self.hit_cooldown as int, delta_time as int) as i64,
            alpha_change: if spent {
                ALPHA_CHANGE
            } else {
                self.alpha_change
            },
            ..self.counters()
        })
    }

    /// Advances both pads by one frame and lets them turn the player back.
    pub fn advance_pads(&mut self, frame_info: FrameInfo, cues: &mut Vec<Cue>)
        requires
            old(self).player.count < u64::MAX,
        ensures
            old(self).pads_to(final(self), frame_info, old(cues)@, final(cues)@),
    {
        self.left_pad.update(frame_info.delta_time);
        self.right_pad.update(frame_info.delta_time);
        let hit: bool = self.left_pad.collides(self.player.pos, frame_info.tolerance, &mut self.rng)
            || self.right_pad.collides(self.player.pos, frame_info.tolerance, &mut self.rng);
        if hit {
            if self.invert() {
                cues.push(Cue::Hit);
            }
        }
    }

    /// Raises the difficulty by one where the score calls for it.
    pub fn raise_difficulty(&mut self)
        requires
            old(self).difficulty < u16::MAX,
        ensures
            old(self).raises_to(final(self)),
    {
        if self.player.count >= PLAYER_COUNT_OBST {
            if self.player.count != self.last_player_count && self.player.count % MOD_INCREMENT_DIFF == 0 {
                self.last_player_count = self.player.count;
                self.difficulty += 1;
            }
        }
    }

    /// Advances the sprint charge and both cooldowns by one frame.
    pub fn recharge(&mut self, delta_time: i64)
        ensures
            old(self).recharges_to(final(self), delta_time),
    {
        if self.player.sprinting {
            if self.sprint_amount > 0 {
                self.sprint_amount = fx_sub(self.sprint_amount, fx_mul(SPRINT_USE_DELTA, delta_time));
            } else {
                self.player_sprint_off();
            }
        } else {
            if self.sprint_amount < SPRINT_MAX_VALUE {
                let filled: i64 = fx_add(self.sprint_amount, fx_mul(SPRINT_CHARGE_DELTA, delta_time));
                self.sprint_amount = if filled > SPRINT_MAX_VALUE {
                    SPRINT_MAX_VALUE
                } else {
                    filled
                };
            }
        }
        self.sprint_cooldown = fx_add(self.sprint_cooldown, delta_time);
        self.hit_cooldown = fx_add(self.hit_cooldown, delta_time);
    }
}

} // verus!
