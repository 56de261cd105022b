//! The slot allocator of the static hazards: a grid of spawn places that
//! never hands one place to two hazards and keeps clear of the player.

use vstd::prelude::*;
use vstd::arithmetic::div_mod::{lemma_fundamental_div_mod, lemma_fundamental_div_mod_converse, lemma_mod_bound};
use std::collections::HashMap;
use rand::rngs::ThreadRng;
use crate::constants::{
    NO_OBSTACLES_CENTER_ZONE_X, NO_OBSTACLES_CENTER_ZONE_Y, OBSTACLE_GRID_DIV_X,
    OBSTACLE_GRID_DIV_Y, OBSTACLE_POS_VARIANCE, OBSTACLE_SAFE_ZONE_X, OBSTACLE_SAFE_ZONE_Y,
    RESOLUTION_X, RESOLUTION_Y,
};
use crate::fixed::UNIT;
use crate::rng::random_range;
use crate::utils::Vector2;

verus! {

broadcast use vstd::std_specs::hash::group_hash_axioms;

/// Horizontal step of the grid: the arena's width in whole units over its
/// divisor, rounded down.
pub const GRID_STEP_X: i64 = 26 * UNIT;

/// Vertical step of the grid: the arena's height in whole units over its
/// divisor, rounded down.
pub const GRID_STEP_Y: i64 = 30 * UNIT;

/// Slots per row: the strides that fit between the safe zones, and one
/// stride more.
pub const GRID_COLS: i64 = 8;

/// Rows of slots.
pub const GRID_ROWS: i64 = 6;

/// Left edge of the centred box that holds no slot.
pub const CENTER_ZONE_START_X: i64 = 135 * UNIT;

/// Upper edge of the centred box that holds no slot.
pub const CENTER_ZONE_START_Y: i64 = 65 * UNIT;

/// The grid's dimensions are what the arena, the safe zones, the divisors
/// and the centre zone give.
pub proof fn lemma_grid_dimensions()
    ensures
        GRID_STEP_X == (RESOLUTION_X / UNIT) / (OBSTACLE_GRID_DIV_X as int) * UNIT,
        GRID_STEP_Y == (RESOLUTION_Y / UNIT) / (OBSTACLE_GRID_DIV_Y as int) * UNIT,
        GRID_COLS == (RESOLUTION_X - 2 * OBSTACLE_SAFE_ZONE_X + GRID_STEP_X) / (GRID_STEP_X as int) + 1,
        GRID_ROWS == (RESOLUTION_Y - 2 * OBSTACLE_SAFE_ZONE_Y + GRID_STEP_Y) / (GRID_STEP_Y as int) + 1,
        CENTER_ZONE_START_X == RESOLUTION_X / 2 - NO_OBSTACLES_CENTER_ZONE_X / 2,
        CENTER_ZONE_START_Y == RESOLUTION_Y / 2 - NO_OBSTACLES_CENTER_ZONE_Y / 2,
{
}

/// The place of the slot of index `k`, counted row by row.
pub open spec fn cell_at(k: int) -> Vector2 {
    Vector2 {
        x: (OBSTACLE_SAFE_ZONE_X + (k % GRID_COLS as int) * GRID_STEP_X) as i64,
        y: (OBSTACLE_SAFE_ZONE_Y + (k / GRID_COLS as int) * GRID_STEP_Y) as i64,
    }
}

/// Whether `p` lies strictly inside the centred box that holds no slot.
pub open spec fn in_center_zone(p: Vector2) -> bool {
    &&& CENTER_ZONE_START_X < p.x < CENTER_ZONE_START_X + NO_OBSTACLES_CENTER_ZONE_X
    &&& CENTER_ZONE_START_Y < p.y < CENTER_ZONE_START_Y + NO_OBSTACLES_CENTER_ZONE_Y
}

/// The slots of index below `k` that lie outside the centre zone, in order.
pub open spec fn cells_below(k: int) -> Seq<Vector2>
    decreases k,
{
    if k <= 0 {
        Seq::empty()
    } else if in_center_zone(cell_at(k - 1)) {
        cells_below(k - 1)
    } else {
        cells_below(k - 1).push(cell_at(k - 1))
    }
}

/// All slots of the grid: the partition of the arena that a fresh grid
/// offers.
pub open spec fn grid_cells() -> Seq<Vector2> {
    cells_below(GRID_ROWS * GRID_COLS)
}

/// The coordinate `v` quantized by the grid step `step`: the quotient,
/// rounded down.
pub open spec fn quantized(v: i64, step: i64) -> int {
    v as int / step as int
}

/// Whether `a` and `b` lie in the same cell of the arena: their coordinates,
/// quantized by the steps of the grid, are the same along both axes.
pub open spec fn same_cell(a: Vector2, b: Vector2) -> bool {
    &&& quantized(a.x, GRID_STEP_X) == quantized(b.x, GRID_STEP_X)
    &&& quantized(a.y, GRID_STEP_Y) == quantized(b.y, GRID_STEP_Y)
}

/// Whether `pos` is `base` moved by no more than the variance along each axis.
pub open spec fn within_variance(pos: Vector2, base: Vector2) -> bool {
    exists|jx: i64, jy: i64|
        -OBSTACLE_POS_VARIANCE <= jx <= OBSTACLE_POS_VARIANCE && -OBSTACLE_POS_VARIANCE <= jy
            <= OBSTACLE_POS_VARIANCE && pos == #[trigger] base.sum(Vector2 { x: jx, y: jy })
}

/// The quotient of `v` by a positive `d`, rounded down.
pub fn floor_div(v: i64, d: i64) -> (q: i64)
    requires
        d > 0,
    ensures
        q == v as int / d as int,
{
    if v >= 0 {
        v / d
    } else {
        let n: i128 = -(v as i128);
        let wide: i128 = d as i128;
        let c: i128 = (n + wide - 1) / wide;
        proof {
            let above: int = n + wide - 1;
            lemma_fundamental_div_mod(above, wide as int);
            lemma_mod_bound(above, wide as int);
            let r: int = c * wide - n;
            assert(wide * c == c * wide) by (nonlinear_arith);
            assert((-c) * wide == -(c * wide)) by (nonlinear_arith);
            lemma_fundamental_div_mod_converse(v as int, d as int, -c, r);
            assert(c <= n) by (nonlinear_arith)
                requires
                    c * wide <= n + wide - 1,
                    wide >= 1,
                    n >= 1,
            ;
        }
        (-c) as i64
    }
}

/// Tests whether `a` and `b` lie in the same cell of the arena.
pub fn in_same_cell(a: Vector2, b: Vector2) -> (r: bool)
    ensures
        r == same_cell(a, b),
{
    floor_div(a.x, GRID_STEP_X) == floor_div(b.x, GRID_STEP_X) && floor_div(a.y, GRID_STEP_Y) == floor_div(
        b.y,
        GRID_STEP_Y,
    )
}

/// The identifier that follows `id`: the next one, and zero after the last.
pub open spec fn id_after(id: u16) -> u16 {
    if id == u16::MAX {
        0
    } else {
        (id + 1) as u16
    }
}

/// Whether `after` holds the places of `before` but for `gone`, each once.
pub open spec fn slots_without(after: Seq<Vector2>, before: Seq<Vector2>, gone: Vector2) -> bool {
    &&& after.len() == before.len() - 1
    &&& forall|p: Vector2| after.contains(p) <==> (before.contains(p) && p != gone)
}

/// Whether `after` holds the places of `before`, in whatever order.
pub open spec fn same_slots(after: Seq<Vector2>, before: Seq<Vector2>) -> bool {
    &&& after.len() == before.len()
    &&& forall|p: Vector2| after.contains(p) <==> before.contains(p)
}

/// Taking a place out of a list without duplicates, by moving the last place
/// into the gap, leaves the other places, each once.
pub proof fn lemma_swap_remove(s: Seq<Vector2>, i: int)
    requires
        s.no_duplicates(),
        0 <= i < s.len(),
    ensures
        s.update(i, s.last()).drop_last().no_duplicates(),
        slots_without(s.update(i, s.last()).drop_last(), s, s[i]),
{
    let t = s.update(i, s.last()).drop_last();
    assert forall|p: Vector2| t.contains(p) <==> (s.contains(p) && p != s[i]) by {
        if t.contains(p) {
            let j = choose|j: int| 0 <= j < t.len() && t[j] == p;
            if j == i {
                assert(s[s.len() - 1] == p);
            } else {
                assert(s[j] == p);
            }
        }
        if s.contains(p) && p != s[i] {
            let j = choose|j: int| 0 <= j < s.len() && s[j] == p;
            if j == s.len() - 1 {
                assert(t[i] == p);
            } else {
                assert(t[j] == p);
            }
        }
    }
}

/// Appending a place that a list without duplicates does not hold keeps it
/// without duplicates.
pub proof fn lemma_push_fresh(s: Seq<Vector2>, x: Vector2)
    requires
        s.no_duplicates(),
        !s.contains(x),
    ensures
        s.push(x).no_duplicates(),
        forall|p: Vector2| s.push(x).contains(p) <==> (s.contains(p) || p == x),
{
    let t = s.push(x);
    assert forall|p: Vector2| t.contains(p) <==> (s.contains(p) || p == x) by {
        if t.contains(p) {
            let j = choose|j: int| 0 <= j < t.len() && t[j] == p;
            if j < s.len() {
                assert(s[j] == p);
            }
        }
        if s.contains(p) {
            let j = choose|j: int| 0 <= j < s.len() && s[j] == p;
            assert(t[j] == p);
        }
        if p == x {
            assert(t[s.len() as int] == p);
        }
    }
}

/// The slots of index below `k` are pairwise distinct, and each is a slot of
/// index below `k` outside the centre zone.
pub proof fn lemma_cells_below(k: int)
    requires
        0 <= k <= GRID_ROWS * GRID_COLS,
    ensures
        cells_below(k).no_duplicates(),
        cells_below(k).len() <= k,
        forall|i: int|
            0 <= i < cells_below(k).len() ==> exists|j: int|
                0 <= j < k && #[trigger] cells_below(k)[i] == cell_at(j),
    decreases k,
{
    if k > 0 {
        lemma_cells_below(k - 1);
        let rest = cells_below(k - 1);
        let c = cell_at(k - 1);
        if !in_center_zone(c) {
            assert forall|i: int| 0 <= i < rest.len() implies rest[i] != c by {
                let j = choose|j: int| 0 <= j < k - 1 && rest[i] == cell_at(j);
                assert(j % 8 != (k - 1) % 8 || j / 8 != (k - 1) / 8);
            }
            assert forall|i: int| 0 <= i < rest.push(c).len() implies exists|j: int|
                0 <= j < k && #[trigger] rest.push(c)[i] == cell_at(j) by {
                if i < rest.len() {
                    let j = choose|j: int| 0 <= j < k - 1 && rest[i] == cell_at(j);
                    assert(rest.push(c)[i] == cell_at(j));
                } else {
                    assert(rest.push(c)[i] == cell_at(k - 1));
                }
            }
        } else {
            assert forall|i: int| 0 <= i < rest.len() implies exists|j: int|
                0 <= j < k && #[trigger] rest[i] == cell_at(j) by {
                let j = choose|j: int| 0 <= j < k - 1 && rest[i] == cell_at(j);
                assert(rest[i] == cell_at(j));
            }
        }
    }
}

/// The grid of spawn places: the free ones, and under each active identifier
/// the place that it occupies.
#[derive(Debug)]
pub struct ObstacleGrid {
    free: Vec<Vector2>,
    active: HashMap<u16, Vector2>,
    curr_id: u16,
}

impl ObstacleGrid {
    /// The free places, in the order in which they are kept.
    pub closed spec fn free_cells(&self) -> Seq<Vector2> {
        self.free@
    }

    /// The occupied places, each under its identifier.
    pub closed spec fn active_cells(&self) -> Map<u16, Vector2> {
        self.active@
    }

    /// The identifier that the next allocation hands out.
    pub closed spec fn next_id(&self) -> u16 {
        self.curr_id
    }

    /// The grid's invariant: every place is a slot of the grid, no place is
    /// free twice, no two identifiers occupy one place, no occupied place is
    /// free, and the places are no more than the grid has slots.
    pub open spec fn wf(&self) -> bool {
        &&& self.active_cells().dom().finite()
        &&& self.free_cells().len() + self.active_cells().len() <= grid_cells().len()
        &&& self.free_cells().no_duplicates()
        &&& forall|i: int|
            0 <= i < self.free_cells().len() ==> grid_cells().contains(#[trigger] self.free_cells()[i])
        &&& forall|id: u16|
            self.active_cells().contains_key(id) ==> grid_cells().contains(#[trigger] self.active_cells()[id])
        &&& forall|a: u16, b: u16|
            self.active_cells().contains_key(a) && self.active_cells().contains_key(b) && a != b
                ==> #[trigger] self.active_cells()[a] != #[trigger] self.active_cells()[b]
        &&& forall|i: int, id: u16|
            0 <= i < self.free_cells().len() && self.active_cells().contains_key(id)
                ==> #[trigger] self.free_cells()[i] != #[trigger] self.active_cells()[id]
    }

    /// Whether no slot is lost: the free and the occupied places together
    /// are as many as the grid has slots.
    pub open spec fn complete(&self) -> bool {
        self.free_cells().len() + self.active_cells().len() == grid_cells().len()
    }

    /// Whether a free place lies outside the cell in which `player_pos`
    /// lies, so that an allocation succeeds.
    pub open spec fn has_room(&self, player_pos: Vector2) -> bool {
        exists|i: int|
            0 <= i < self.free_cells().len() && !same_cell(#[trigger] self.free_cells()[i], player_pos)
    }

    /// Whether the grid is as a fresh one: every slot free, in the order of
    /// the grid, none occupied, and the identifiers at their start.
    pub open spec fn is_fresh(&self) -> bool {
        &&& self.wf()
        &&& self.complete()
        &&& self.free_cells() == grid_cells()
        &&& self.active_cells() == Map::<u16, Vector2>::empty()
        &&& self.next_id() == 0
    }

    /// Whether this grid is `before` after the place `base` went from the
    /// free places to the identifier `id`.
    pub open spec fn allocated_from(&self, before: &ObstacleGrid, id: u16, base: Vector2) -> bool {
        &&& id == before.next_id()
        &&& self.next_id() == id_after(id)
        &&& before.free_cells().contains(base)
        &&& self.active_cells() == before.active_cells().insert(id, base)
        &&& slots_without(self.free_cells(), before.free_cells(), base)
    }

    fn init_free() -> (free: Vec<Vector2>)
        ensures
            free@ == grid_cells(),
    {
        let mut free: Vec<Vector2> = Vec::new();
        let mut row: i64 = 0;
        while row < GRID_ROWS
            invariant
                0 <= row <= GRID_ROWS,
                free@ == cells_below(row * GRID_COLS),
            decreases GRID_ROWS - row,
        {
            let y: i64 = OBSTACLE_SAFE_ZONE_Y + row * GRID_STEP_Y;
            let mut col: i64 = 0;
            while col < GRID_COLS
                invariant
                    0 <= row < GRID_ROWS,
                    0 <= col <= GRID_COLS,
                    y == OBSTACLE_SAFE_ZONE_Y + row * GRID_STEP_Y,
                    free@ == cells_below(row * GRID_COLS + col),
                decreases GRID_COLS - col,
            {
                let x: i64 = OBSTACLE_SAFE_ZONE_X + col * GRID_STEP_X;
                let cell = Vector2 { x, y };
                assert(cell == cell_at(row * GRID_COLS + col)) by {
                    assert((row * 8 + col) % 8 == col);
                    assert((row * 8 + col) / 8 == row);
                }
                let inside: bool = CENTER_ZONE_START_X < x && x < CENTER_ZONE_START_X
                    + NO_OBSTACLES_CENTER_ZONE_X && CENTER_ZONE_START_Y < y && y
                    < CENTER_ZONE_START_Y + NO_OBSTACLES_CENTER_ZONE_Y;
                if !inside {
                    free.push(cell);
                }
                col = col + 1;
            }
            row = row + 1;
        }
        free
    }

    /// Creates the grid with every slot free.
    pub fn new() -> (grid: ObstacleGrid)
        ensures
            grid.is_fresh(),
    {
        let free = Self::init_free();
        proof {
            lemma_cells_below(GRID_ROWS * GRID_COLS);
        }
        ObstacleGrid { active: HashMap::with_capacity(free.len()), curr_id: 0, free }
    }

    /// Puts the grid back into the state of a fresh one.
    pub fn reset(&mut self)
        ensures
            final(self).is_fresh(),
    {
        self.free = Self::init_free();
        self.active.clear();
        self.curr_id = 0;
        proof {
            lemma_cells_below(GRID_ROWS * GRID_COLS);
        }
    }

    /// The number of free places.
    pub fn free_len(&self) -> (n: usize)
        ensures
            n == self.free_cells().len(),
    {
        self.free.len()
    }

    /// The number of occupied places.
    pub fn active_len(&self) -> (n: usize)
        ensures
            n == self.active_cells().len(),
    {
        self.active.len()
    }

    /// The place that `id` occupies, if it is active.
    pub fn position(&self, id: u16) -> (r: Option<Vector2>)
        ensures
            r == if self.active_cells().contains_key(id) {
                Some(self.active_cells()[id])
            } else {
                None
            },
    {
        match self.active.get(&id) {
            Some(pos) => Some(*pos),
            None => None,
        }
    }

    /// Takes a random free place that does not lie in the cell of
    /// `player_pos`. A place drawn from that cell is set aside for the rest
    /// of the search and is free again when it ends.
    fn pick(&mut self, player_pos: Vector2, rng: &mut ThreadRng) -> (r: Option<Vector2>)
        requires
            old(self).wf(),
        ensures
            final(self).wf(),
            final(self).active_cells() == old(self).active_cells(),
            final(self).next_id() == old(self).next_id(),
            match r {
                Some(base) => {
                    &&& old(self).free_cells().contains(base)
                    &&& !same_cell(base, player_pos)
                    &&& slots_without(final(self).free_cells(), old(self).free_cells(), base)
                },
                None => {
                    &&& forall|i: int|
                        0 <= i < old(self).free_cells().len() ==> same_cell(
                            #[trigger] old(self).free_cells()[i],
                            player_pos,
                        )
                    &&& same_slots(final(self).free_cells(), old(self).free_cells())
                },
            },
        decreases old(self).free_cells().len(),
    {
        if self.free.is_empty() {
            return None;
        }
        let ghost before = self.free@;
        proof {
            lemma_cells_below(GRID_ROWS * GRID_COLS);
        }
        let last: i64 = (self.free.len() - 1) as i64;
        let idx: usize = random_range(rng, 0, last) as usize;
        let candidate = self.free.swap_remove(idx);
        proof {
            lemma_swap_remove(before, idx as int);
        }
        let ghost rest = self.free@;
        if in_same_cell(candidate, player_pos) {
            let r = self.pick(player_pos, rng);
            let ghost searched = self.free@;
            proof {
                lemma_push_fresh(searched, candidate);
            }
            self.free.push(candidate);
            proof {
                if r is None {
                    assert forall|i: int| 0 <= i < before.len() implies same_cell(
                        #[trigger] before[i],
                        player_pos,
                    ) by {
                        if before[i] != candidate {
                            assert(rest.contains(before[i]));
                        }
                    }
                }
            }
            r
        } else {
            Some(candidate)
        }
    }

    /// Occupies a random free place outside the cell in which `player_pos`
    /// lies, and returns its new identifier with the place, moved by a random
    /// offset of no more than the variance along each axis. The offset is not
    /// kept: the identifier stands for the place itself.
    ///
    /// Returns `None`, and occupies nothing, where no free place lies outside
    /// the player's cell.
    pub fn allocate(&mut self, player_pos: Vector2, rng: &mut ThreadRng) -> (r: Option<(u16, Vector2)>)
        requires
            old(self).wf(),
        ensures
            final(self).wf(),
            r is Some <==> old(self).has_room(player_pos),
            match r {
                Some((id, pos)) => {
                    let base = final(self).active_cells()[id];
                    &&& final(self).allocated_from(old(self), id, base)
                    &&& !same_cell(base, player_pos)
                    &&& within_variance(pos, base)
                    &&& old(self).complete() && !old(self).active_cells().contains_key(id)
                        ==> final(self).complete()
                },
                None => {
                    &&& final(self).active_cells() == old(self).active_cells()
                    &&& final(self).next_id() == old(self).next_id()
                    &&& same_slots(final(self).free_cells(), old(self).free_cells())
                    &&& old(self).complete() ==> final(self).complete()
                },
            },
    {
        let ghost before = self.free@;
        match self.pick(player_pos, rng) {
            None => None,
            Some(base) => {
                proof {
                    let i = choose|i: int| 0 <= i < before.len() && before[i] == base;
                    assert(!same_cell(before[i], player_pos));
                }
                let id: u16 = self.curr_id;
                self.curr_id = self.curr_id.wrapping_add(1);
                self.active.insert(id, base);
                let jx: i64 = random_range(rng, -OBSTACLE_POS_VARIANCE, OBSTACLE_POS_VARIANCE);
                let jy: i64 = random_range(rng, -OBSTACLE_POS_VARIANCE, OBSTACLE_POS_VARIANCE);
                let pos = base.plus(Vector2 { x: jx, y: jy });
                assert(pos == base.sum(Vector2 { x: jx, y: jy }));
                Some((id, pos))
            },
        }
    }

    /// Gives the place of `id` back to the free places. Fails, and changes
    /// nothing, where `id` is not active.
    pub fn free(&mut self, id: u16) -> (r: Result<(), ()>)
        requires
            old(self).wf(),
        ensures
            final(self).wf(),
            r is Ok <==> old(self).active_cells().contains_key(id),
            final(self).next_id() == old(self).next_id(),
            match r {
                Ok(_) => {
                    &&& final(self).active_cells() == old(self).active_cells().remove(id)
                    &&& final(self).free_cells() == old(self).free_cells().push(old(self).active_cells()[id])
                    &&& old(self).complete() ==> final(self).complete()
                },
                Err(_) => {
                    &&& final(self).active_cells() == old(self).active_cells()
                    &&& final(self).free_cells() == old(self).free_cells()
                },
            },
    {
        let ghost before = self.free@;
        match self.active.remove(&id) {
            Some(pos) => {
                proof {
                    assert(!before.contains(pos)) by {
                        if before.contains(pos) {
                            let i = choose|i: int| 0 <= i < before.len() && before[i] == pos;
                            assert(before[i] != old(self).active_cells()[id]);
                        }
                    }
                    lemma_push_fresh(before, pos);
                }
                self.free.push(pos);
                Ok(())
            },
            None => Err(()),
        }
    }
}

/// No two identifiers that are active at the same time stand for one place.
pub proof fn lemma_active_places_distinct(grid: &ObstacleGrid, a: u16, b: u16)
    requires
        grid.wf(),
        grid.active_cells().contains_key(a),
        grid.active_cells().contains_key(b),
        a != b,
    ensures
        grid.active_cells()[a] != grid.active_cells()[b],
{
}

/// A second release fails. In the state `after` that a successful release of
/// `id` leaves, `id` is not active, which is when `free` returns an error.
pub proof fn lemma_double_free_fails(before: &ObstacleGrid, after: &ObstacleGrid, id: u16)
    requires
        before.active_cells().contains_key(id),
        after.active_cells() == before.active_cells().remove(id),
    ensures
        !after.active_cells().contains_key(id),
{
}

/// An identifier that is not active stays so until an allocation hands it
/// out again: neither the allocation of another identifier nor a release
/// makes it active.
pub proof fn lemma_inactive_until_reissued(
    before: &ObstacleGrid,
    after: &ObstacleGrid,
    id: u16,
    other: u16,
    base: Vector2,
)
    requires
        !before.active_cells().contains_key(id),
        (other != id && after.allocated_from(before, other, base)) || after.active_cells()
            == before.active_cells().remove(other),
    ensures
        !after.active_cells().contains_key(id),
{
}

} // verus!
