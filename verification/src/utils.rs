//! Vectors, rectangles and the overlap test that every entity shares.

use vstd::prelude::*;
use crate::fixed::{
    fx_add, fx_mul, fx_neg, fx_sub, sat_add, sat_mul, sat_neg, sat_sub, trunc_div,
};

verus! {

/// A position, a velocity or a size, in fixed-point units.
#[derive(Clone, Copy, Debug, PartialEq, Eq, Structural)]
pub struct Vector2 {
    pub x: i64,
    pub y: i64,
}

/// An axis-aligned box: its corner of least coordinates and its extent.
#[derive(Clone, Copy, Debug, PartialEq, Eq, Structural)]
pub struct Rectangle {
    pub x: i64,
    pub y: i64,
    pub width: i64,
    pub height: i64,
}

impl Vector2 {
    /// The vector with both components zero.
    pub fn zero() -> (r: Vector2)
        ensures
            r == (Vector2 { x: 0, y: 0 }),
    {
        Vector2 { x: 0, y: 0 }
    }

    /// Component-wise saturating sum.
    pub open spec fn sum(self, other: Vector2) -> Vector2 {
        Vector2 {
            x: sat_add(self.x as int, other.x as int) as i64,
            y: sat_add(self.y as int, other.y as int) as i64,
        }
    }

    /// Component-wise saturating difference.
    pub open spec fn diff(self, other: Vector2) -> Vector2 {
        Vector2 {
            x: sat_sub(self.x as int, other.x as int) as i64,
            y: sat_sub(self.y as int, other.y as int) as i64,
        }
    }

    /// Both components multiplied by the fixed-point factor `k`.
    pub open spec fn scaled(self, k: i64) -> Vector2 {
        Vector2 {
            x: sat_mul(self.x as int, k as int) as i64,
            y: sat_mul(self.y as int, k as int) as i64,
        }
    }

    /// Both components negated.
    pub open spec fn negated(self) -> Vector2 {
        Vector2 { x: sat_neg(self.x as int) as i64, y: sat_neg(self.y as int) as i64 }
    }

    /// Adds `other` to this vector.
    pub fn plus(self, other: Vector2) -> (r: Vector2)
        ensures
            r == self.sum(other),
    {
        Vector2 { x: fx_add(self.x, other.x), y: fx_add(self.y, other.y) }
    }

    /// Subtracts `other` from this vector.
    pub fn minus(self, other: Vector2) -> (r: Vector2)
        ensures
            r == self.diff(other),
    {
        Vector2 { x: fx_sub(self.x, other.x), y: fx_sub(self.y, other.y) }
    }

    /// Multiplies this vector by the fixed-point factor `k`.
    pub fn times(self, k: i64) -> (r: Vector2)
        ensures
            r == self.scaled(k),
    {
        Vector2 { x: fx_mul(self.x, k), y: fx_mul(self.y, k) }
    }

    /// Negates this vector.
    pub fn neg(self) -> (r: Vector2)
        ensures
            r == self.negated(),
    {
        Vector2 { x: fx_neg(self.x), y: fx_neg(self.y) }
    }
}

impl Rectangle {
    /// The corner of least coordinates.
    pub open spec fn origin(self) -> Vector2 {
        Vector2 { x: self.x, y: self.y }
    }

    /// The extent along both axes.
    pub open spec fn extent(self) -> Vector2 {
        Vector2 { x: self.width, y: self.height }
    }

    /// The centre of the box: its corner moved by half its extent.
    pub open spec fn center(self) -> Vector2 {
        Vector2 {
            x: sat_add(self.x as int, trunc_div(self.width as int, 2)) as i64,
            y: sat_add(self.y as int, trunc_div(self.height as int, 2)) as i64,
        }
    }

    /// The centre of the box.
    pub fn middle(&self) -> (r: Vector2)
        ensures
            r == self.center(),
    {
        Vector2 { x: fx_add(self.x, self.width / 2), y: fx_add(self.y, self.height / 2) }
    }
}

/// Builds a vector from its components.
pub fn vec2(x: i64, y: i64) -> (r: Vector2)
    ensures
        r == (Vector2 { x, y }),
{
    Vector2 { x, y }
}

/// Whether `v` lies in the half-open span that starts at `start` and is `len` long.
pub open spec fn in_span(start: i64, len: i64, v: i64) -> bool {
    start <= v < sat_add(start as int, len as int)
}

/// The overlap test of two boxes: along each axis, the near or the far edge of
/// the second box lies in the half-open span of the first.
///
/// The test looks at the edges of the second box only, so it is one-sided: it
/// misses a first box that lies strictly inside the second.
pub open spec fn overlaps(pos: Vector2, size: Vector2, other_pos: Vector2, other_size: Vector2) -> bool {
    &&& in_span(pos.x, size.x, other_pos.x)
        || in_span(pos.x, size.x, sat_add(other_pos.x as int, other_size.x as int) as i64)
    &&& in_span(pos.y, size.y, other_pos.y)
        || in_span(pos.y, size.y, sat_add(other_pos.y as int, other_size.y as int) as i64)
}

/// Whether the half-open span from `start` of length `len` holds `v`.
pub fn span_contains(start: i64, len: i64, v: i64) -> (r: bool)
    ensures
        r == in_span(start, len, v),
{
    start <= v && v < fx_add(start, len)
}

/// Tests whether the box at `other_pos` of size `other_size` touches the box
/// at `pos` of size `size`, as seen from the latter.
pub fn square_collides(pos: Vector2, size: Vector2, other_pos: Vector2, other_size: Vector2) -> (r: bool)
    ensures
        r == overlaps(pos, size, other_pos, other_size),
{
    let far_x: i64 = fx_add(other_pos.x, other_size.x);
    let far_y: i64 = fx_add(other_pos.y, other_size.y);
    (span_contains(pos.x, size.x, other_pos.x) || span_contains(pos.x, size.x, far_x))
        && (span_contains(pos.y, size.y, other_pos.y) || span_contains(pos.y, size.y, far_y))
}

/// Whether the box `(inner_pos, inner_size)` lies strictly inside the box
/// `(outer_pos, outer_size)`, with no far edge beyond the range of `i64`.
pub open spec fn strictly_inside(
    inner_pos: Vector2,
    inner_size: Vector2,
    outer_pos: Vector2,
    outer_size: Vector2,
) -> bool {
    &&& inner_size.x >= 0
    &&& inner_size.y >= 0
    &&& outer_pos.x < inner_pos.x
    &&& outer_pos.y < inner_pos.y
    &&& inner_pos.x + inner_size.x < outer_pos.x + outer_size.x <= i64::MAX
    &&& inner_pos.y + inner_size.y < outer_pos.y + outer_size.y <= i64::MAX
}

/// The overlap test is not symmetric. Of a box that lies strictly inside
/// another, the outer box sees the inner one, and the inner box does not see
/// the outer one.
pub proof fn lemma_overlap_is_one_sided(
    inner_pos: Vector2,
    inner_size: Vector2,
    outer_pos: Vector2,
    outer_size: Vector2,
)
    requires
        strictly_inside(inner_pos, inner_size, outer_pos, outer_size),
    ensures
        overlaps(outer_pos, outer_size, inner_pos, inner_size),
        !overlaps(inner_pos, inner_size, outer_pos, outer_size),
{
}

} // verus!
