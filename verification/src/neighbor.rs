//! Counting live neighbors: among the 8 adjacent coordinates of a cell,
//! those that lie on the grid and are in the current live set.
//!
//! There is no wraparound: a candidate neighbor outside the grid is
//! rejected before its liveness is tested, so edge and corner cells see
//! fewer than 8 eligible neighbors.

use vstd::prelude::*;
use crate::grid::HALF_LEN;
use crate::grid::contains_coord;
use crate::grid::in_bounds;
use crate::grid::seq_has;

verus! {

/// 1 when `(x, y)` is on the grid and in the live set `s`, else 0.
pub open spec fn live_indicator(s: Set<(int, int)>, x: int, y: int) -> int {
    if in_bounds(x, y) && s.contains((x, y)) {
        1int
    } else {
        0int
    }
}

/// The number of live neighbors of `(x, y)`: among its 8 axis- and
/// diagonal-adjacent coordinates, those on the grid and in the live set.
pub open spec fn spec_neighbor_count(x: int, y: int, s: Set<(int, int)>) -> int {
    live_indicator(s, x - 1, y - 1) + live_indicator(s, x - 1, y) + live_indicator(s, x - 1, y + 1)
        + live_indicator(s, x, y - 1) + live_indicator(s, x, y + 1) + live_indicator(
        s,
        x + 1,
        y - 1,
    ) + live_indicator(s, x + 1, y) + live_indicator(s, x + 1, y + 1)
}

/// The live set named by a vector of coordinate pairs.
pub open spec fn coord_set(s: Seq<(i32, i32)>) -> Set<(int, int)> {
    Set::new(|p: (int, int)| seq_has(s, p.0, p.1))
}

/// 1 when `(x, y)` is on the grid, else 0.
pub open spec fn bounds_indicator(x: int, y: int) -> int {
    if in_bounds(x, y) {
        1int
    } else {
        0int
    }
}

/// The number of valid neighbor slots of `(x, y)`: among its 8 adjacent
/// coordinates, those that lie on the grid at all.
pub open spec fn valid_slot_count(x: int, y: int) -> int {
    bounds_indicator(x - 1, y - 1) + bounds_indicator(x - 1, y) + bounds_indicator(x - 1, y + 1)
        + bounds_indicator(x, y - 1) + bounds_indicator(x, y + 1) + bounds_indicator(x + 1, y - 1)
        + bounds_indicator(x + 1, y) + bounds_indicator(x + 1, y + 1)
}

/// All 8 neighbors of `(x, y)` lie on the grid.
pub open spec fn strictly_interior(x: int, y: int) -> bool {
    &&& in_bounds(x - 1, y - 1)
    &&& in_bounds(x - 1, y)
    &&& in_bounds(x - 1, y + 1)
    &&& in_bounds(x, y - 1)
    &&& in_bounds(x, y + 1)
    &&& in_bounds(x + 1, y - 1)
    &&& in_bounds(x + 1, y)
    &&& in_bounds(x + 1, y + 1)
}

/// `(x, y)` is one of the four corner cells of the grid.
pub open spec fn is_corner(x: int, y: int) -> bool {
    &&& in_bounds(x, y)
    &&& (x == -(HALF_LEN as int) || x == HALF_LEN as int - 1)
    &&& (y == -(HALF_LEN as int) || y == HALF_LEN as int - 1)
}

/// `(x, y)` lies on the boundary of the grid.
pub open spec fn is_edge(x: int, y: int) -> bool {
    &&& in_bounds(x, y)
    &&& (x == -(HALF_LEN as int) || x == HALF_LEN as int - 1 || y == -(HALF_LEN as int) || y
        == HALF_LEN as int - 1)
}

/// For every coordinate and live set, the neighbor count lies in `[0, 8]`,
/// and for a strictly interior coordinate it reaches 8 only when all 8
/// neighbors are in the live set.
pub proof fn lemma_neighbor_count_range(x: int, y: int, s: Set<(int, int)>)
    ensures
        0 <= spec_neighbor_count(x, y, s) <= 8,
        strictly_interior(x, y) && spec_neighbor_count(x, y, s) == 8 ==> s.contains((x - 1, y - 1))
            && s.contains((x - 1, y)) && s.contains((x - 1, y + 1)) && s.contains((x, y - 1))
            && s.contains((x, y + 1)) && s.contains((x + 1, y - 1)) && s.contains((x + 1, y))
            && s.contains((x + 1, y + 1)),
{
}

/// The neighbor count never exceeds the number of valid neighbor slots.
pub proof fn lemma_neighbor_count_le_slots(x: int, y: int, s: Set<(int, int)>)
    ensures
        spec_neighbor_count(x, y, s) <= valid_slot_count(x, y),
{
}

/// A corner coordinate has at most 3 valid neighbor slots.
pub proof fn lemma_corner_slots(x: int, y: int)
    requires
        is_corner(x, y),
    ensures
        valid_slot_count(x, y) <= 3,
{
}

/// An edge coordinate that is not a corner has at most 5 valid neighbor
/// slots.
pub proof fn lemma_edge_slots(x: int, y: int)
    requires
        is_edge(x, y),
        !is_corner(x, y),
    ensures
        valid_slot_count(x, y) <= 5,
{
}

/// Whether the candidate neighbor `(x, y)` is on the grid and in the live
/// set given by `alives`.
fn neighbor_live(alives: &Vec<(i32, i32)>, x: i32, y: i32) -> (r: bool)
    ensures
        r == (live_indicator(coord_set(alives@), x as int, y as int) == 1),
{
    if -HALF_LEN <= x && x < HALF_LEN && -HALF_LEN <= y && y < HALF_LEN {
        contains_coord(alives, x, y)
    } else {
        false
    }
}

/// The number of live neighbors of `me`: among its 8 adjacent coordinates,
/// those on the grid and present in `alives`.
pub fn alive_neighbor_count(me: &(i32, i32), alives: &Vec<(i32, i32)>) -> (n: usize)
    requires
        in_bounds(me.0 as int, me.1 as int),
    ensures
        n as int == spec_neighbor_count(me.0 as int, me.1 as int, coord_set(alives@)),
        n <= 8,
{
    let x = me.0;
    let y = me.1;
    let mut n: usize = 0;
    if neighbor_live(alives, x - 1, y - 1) {
        n = n + 1;
    }
    if neighbor_live(alives, x - 1, y) {
        n = n + 1;
    }
    if neighbor_live(alives, x - 1, y + 1) {
        n = n + 1;
    }
    if neighbor_live(alives, x, y - 1) {
        n = n + 1;
    }
    if neighbor_live(alives, x, y + 1) {
        n = n + 1;
    }
    if neighbor_live(alives, x + 1, y - 1) {
        n = n + 1;
    }
    if neighbor_live(alives, x + 1, y) {
        n = n + 1;
    }
    if neighbor_live(alives, x + 1, y + 1) {
        n = n + 1;
    }
    n
}

} // verus!
