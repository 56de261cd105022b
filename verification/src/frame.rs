//! What one frame tells the simulation about time.

use vstd::prelude::*;
use crate::constants::DEFAULT_TOLERANCE;
use crate::fixed::{fx_mul, sat_mul, UNIT};

verus! {

/// The timing of one frame.
#[derive(Clone, Copy, Debug, PartialEq, Eq, Structural)]
pub struct FrameInfo {
    /// How long the frame lasts, in reference ticks.
    pub delta_time: i64,
    /// How far apart two edges may be and still count as in contact.
    pub tolerance: i64,
}

/// The contact tolerance of a frame that lasts `delta_time`: the default,
/// stretched with the frame where it lasts longer than a reference tick.
pub open spec fn tolerance_of(delta_time: i64) -> int {
    if delta_time > UNIT {
        sat_mul(DEFAULT_TOLERANCE as int, delta_time as int)
    } else {
        DEFAULT_TOLERANCE as int
    }
}

impl FrameInfo {
    /// The timing of a frame that lasts `delta_time`.
    pub fn new(delta_time: i64) -> (info: FrameInfo)
        ensures
            info.delta_time == delta_time,
            info.tolerance == tolerance_of(delta_time),
    {
        let tolerance: i64 = if delta_time > UNIT {
            fx_mul(DEFAULT_TOLERANCE, delta_time)
        } else {
            DEFAULT_TOLERANCE
        };
        FrameInfo { delta_time, tolerance }
    }
}

} // verus!
