//! The grid model: a fixed square of cells, one `State` per coordinate.
//!
//! Coordinates range over `[-HALF_LEN, HALF_LEN)` on both axes. The cells
//! are stored in a flat vector, with a bijective mapping between in-range
//! coordinates and vector indices.

use vstd::prelude::*;

verus! {

/// Half the side length of the grid: coordinates run over
/// `[-HALF_LEN, HALF_LEN)` on each axis.
pub const HALF_LEN: i32 = 40;

/// The full side length of the grid, `2 * HALF_LEN`.
pub const SIDE: i32 = 80;

/// The total number of cells, `SIDE * SIDE`.
pub const GRID_CELLS: usize = 6400;

/// The state of one cell.
#[derive(PartialEq, Eq, Structural, Clone, Copy, Debug)]
pub enum State {
    Dead,
    Alive,
}

/// A coordinate lies on the grid: both components in `[-HALF_LEN, HALF_LEN)`.
pub open spec fn in_bounds(x: int, y: int) -> bool {
    &&& -(HALF_LEN as int) <= x < HALF_LEN as int
    &&& -(HALF_LEN as int) <= y < HALF_LEN as int
}

/// The flat index of an in-range coordinate.
pub open spec fn coord_to_index(x: int, y: int) -> int {
    (x + HALF_LEN as int) * (SIDE as int) + (y + HALF_LEN as int)
}

/// The coordinate stored at a flat index.
pub open spec fn index_to_coord(i: int) -> (int, int) {
    (i / (SIDE as int) - HALF_LEN as int, i % (SIDE as int) - HALF_LEN as int)
}

/// The coordinate/index mapping sends every in-range coordinate to a
/// distinct index below `GRID_CELLS` and is inverted by `index_to_coord`.
pub proof fn lemma_coord_to_index_bijective(x: int, y: int)
    requires
        in_bounds(x, y),
    ensures
        0 <= coord_to_index(x, y) < GRID_CELLS as int,
        index_to_coord(coord_to_index(x, y)).0 == x,
        index_to_coord(coord_to_index(x, y)).1 == y,
{
}

/// Every index below `GRID_CELLS` names an in-range coordinate, and
/// `coord_to_index` inverts `index_to_coord`.
pub proof fn lemma_index_to_coord_bijective(i: int)
    requires
        0 <= i < GRID_CELLS as int,
    ensures
        in_bounds(index_to_coord(i).0, index_to_coord(i).1),
        coord_to_index(index_to_coord(i).0, index_to_coord(i).1) == i,
{
}

/// The sequence of coordinate pairs holds `(x, y)`.
pub open spec fn seq_has(s: Seq<(i32, i32)>, x: int, y: int) -> bool {
    exists|j: int| 0 <= j < s.len() && s[j].0 == x && s[j].1 == y
}

/// The cell at `(x, y)` is on the grid and alive in `g`.
pub open spec fn live_at(g: Seq<State>, x: int, y: int) -> bool {
    in_bounds(x, y) && g[coord_to_index(x, y)] == State::Alive
}

/// The set of live coordinates of `g`.
pub open spec fn live_set(g: Seq<State>) -> Set<(int, int)> {
    Set::new(|p: (int, int)| live_at(g, p.0, p.1))
}

/// The number of `Alive` entries among the first `n` cells of `g`.
pub open spec fn count_alive_upto(g: Seq<State>, n: int) -> int
    decreases n,
{
    if n <= 0 {
        0
    } else {
        count_alive_upto(g, n - 1) + if g[n - 1] == State::Alive {
            1int
        } else {
            0int
        }
    }
}

/// The number of `Alive` cells of `g`.
pub open spec fn count_alive(g: Seq<State>) -> int {
    count_alive_upto(g, g.len() as int)
}

/// The census of a prefix lies between 0 and the prefix length.
pub proof fn lemma_count_alive_upto_bounds(g: Seq<State>, n: int)
    requires
        n >= 0,
    ensures
        0 <= count_alive_upto(g, n) <= n,
    decreases n,
{
    if n > 0 {
        lemma_count_alive_upto_bounds(g, n - 1);
    }
}

/// A prefix that holds an `Alive` cell has a positive census.
pub proof fn lemma_count_alive_upto_pos(g: Seq<State>, n: int, k: int)
    requires
        0 <= k < n,
        g[k] == State::Alive,
    ensures
        count_alive_upto(g, n) >= 1,
    decreases n,
{
    if k < n - 1 {
        lemma_count_alive_upto_pos(g, n - 1, k);
    } else {
        lemma_count_alive_upto_bounds(g, n - 1);
    }
}

/// A prefix with no `Alive` cell has census zero.
pub proof fn lemma_count_alive_upto_zero(g: Seq<State>, n: int)
    requires
        forall|k: int| 0 <= k < n ==> (#[trigger] g[k]) != State::Alive,
    ensures
        count_alive_upto(g, n) == 0,
    decreases n,
{
    if n > 0 {
        lemma_count_alive_upto_zero(g, n - 1);
    }
}

/// The live coordinates of `g` whose flat index lies below `n`.
spec fn live_set_upto(g: Seq<State>, n: int) -> Set<(int, int)> {
    Set::new(|p: (int, int)| live_at(g, p.0, p.1) && coord_to_index(p.0, p.1) < n)
}

proof fn lemma_live_set_upto_card(g: Seq<State>, n: int)
    requires
        g.len() == GRID_CELLS as int,
        0 <= n <= GRID_CELLS as int,
    ensures
        live_set_upto(g, n).finite(),
        live_set_upto(g, n).len() == count_alive_upto(g, n),
    decreases n,
{
    if n == 0 {
        assert(live_set_upto(g, 0) =~= Set::<(int, int)>::empty());
    } else {
        lemma_live_set_upto_card(g, n - 1);
        lemma_index_to_coord_bijective(n - 1);
        let c = index_to_coord(n - 1);
        assert forall|p: (int, int)|
            live_set_upto(g, n).contains(p) && p != (c.0, c.1) implies live_set_upto(
            g,
            n - 1,
        ).contains(p) by {
            lemma_coord_to_index_bijective(p.0, p.1);
        }
        if g[n - 1] == State::Alive {
            assert(live_at(g, c.0, c.1));
            assert(!live_set_upto(g, n - 1).contains((c.0, c.1)));
            assert(live_set_upto(g, n) =~= live_set_upto(g, n - 1).insert((c.0, c.1)));
        } else {
            assert(!live_set_upto(g, n).contains((c.0, c.1)));
            assert(live_set_upto(g, n) =~= live_set_upto(g, n - 1));
        }
    }
}

/// On a full grid, the census equals the cardinality of the set of live
/// coordinates: counting cells one by one and collecting them as a set
/// agree.
pub proof fn lemma_count_alive_is_live_set_card(g: Seq<State>)
    requires
        g.len() == GRID_CELLS as int,
    ensures
        live_set(g).finite(),
        live_set(g).len() == count_alive(g),
{
    lemma_live_set_upto_card(g, GRID_CELLS as int);
    assert forall|p: (int, int)| live_set(g).contains(p) implies live_set_upto(
        g,
        GRID_CELLS as int,
    ).contains(p) by {
        lemma_coord_to_index_bijective(p.0, p.1);
    }
    assert(live_set(g) =~= live_set_upto(g, GRID_CELLS as int));
}

/// Whether the vector of coordinate pairs holds `(x, y)`.
pub fn contains_coord(s: &Vec<(i32, i32)>, x: i32, y: i32) -> (r: bool)
    ensures
        r == seq_has(s@, x as int, y as int),
{
    let mut j: usize = 0;
    while j < s.len()
        invariant
            j <= s@.len(),
            forall|k: int| 0 <= k < j ==> !(s@[k].0 == x as int && s@[k].1 == y as int),
        decreases s@.len() - j,
    {
        if s[j].0 == x && s[j].1 == y {
            return true;
        }
        j = j + 1;
    }
    false
}

/// The flat index of an in-range coordinate.
pub fn cell_index(x: i32, y: i32) -> (i: usize)
    requires
        in_bounds(x as int, y as int),
    ensures
        i as int == coord_to_index(x as int, y as int),
        i < GRID_CELLS,
{
    proof {
        lemma_coord_to_index_bijective(x as int, y as int);
    }
    ((x + HALF_LEN) as usize) * (SIDE as usize) + ((y + HALF_LEN) as usize)
}

/// The coordinate stored at a flat index.
pub fn index_coord(i: usize) -> (c: (i32, i32))
    requires
        i < GRID_CELLS,
    ensures
        c.0 as int == index_to_coord(i as int).0,
        c.1 as int == index_to_coord(i as int).1,
        in_bounds(c.0 as int, c.1 as int),
{
    proof {
        lemma_index_to_coord_bijective(i as int);
    }
    ((i / (SIDE as usize)) as i32 - HALF_LEN, (i % (SIDE as usize)) as i32 - HALF_LEN)
}

/// The grid: exactly one cell per in-range coordinate, stored flat.
pub struct Grid {
    cells: Vec<State>,
}

impl View for Grid {
    type V = Seq<State>;

    closed spec fn view(&self) -> Seq<State> {
        self.cells@
    }
}

impl Grid {
    /// The grid is well formed: it holds exactly `GRID_CELLS` cells.
    pub open spec fn wf(&self) -> bool {
        self@.len() == GRID_CELLS as int
    }

    /// Build the initial grid: a cell is alive exactly when its coordinate
    /// appears in `alives`.
    pub fn from_seed(alives: &Vec<(i32, i32)>) -> (g: Grid)
        ensures
            g.wf(),
            forall|x: int, y: int|
                in_bounds(x, y) ==> ((#[trigger] live_at(g@, x, y)) == seq_has(alives@, x, y)),
    {
        let mut cells: Vec<State> = Vec::new();
        let mut i: usize = 0;
        while i < GRID_CELLS
            invariant
                i <= GRID_CELLS,
                cells@.len() == i as int,
                forall|k: int|
                    0 <= k < i ==> (((#[trigger] cells@[k]) == State::Alive) == seq_has(
                        alives@,
                        index_to_coord(k).0,
                        index_to_coord(k).1,
                    )),
            decreases GRID_CELLS - i,
        {
            let (x, y) = index_coord(i);
            let state = if contains_coord(alives, x, y) {
                State::Alive
            } else {
                State::Dead
            };
            cells.push(state);
            i = i + 1;
        }
        proof {
            assert forall|x: int, y: int| in_bounds(x, y) implies ((cells@[coord_to_index(x, y)]
                == State::Alive) == seq_has(alives@, x, y)) by {
                lemma_coord_to_index_bijective(x, y);
            }
        }
        Grid { cells }
    }

    /// Collect the coordinates of the live cells: the result holds a
    /// coordinate exactly when its cell is alive, and it is empty exactly
    /// when the census is zero.
    pub fn alive_coords(&self) -> (ac: Vec<(i32, i32)>)
        requires
            self.wf(),
        ensures
            forall|x: int, y: int| #[trigger] seq_has(ac@, x, y) == live_at(self@, x, y),
            (ac@.len() == 0) == (count_alive(self@) == 0),
    {
        let mut ac: Vec<(i32, i32)> = Vec::new();
        let mut i: usize = 0;
        while i < GRID_CELLS
            invariant
                i <= GRID_CELLS,
                self.wf(),
                forall|j: int|
                    0 <= j < ac@.len() ==> {
                        let p = #[trigger] ac@[j];
                        live_at(self@, p.0 as int, p.1 as int)
                    },
                forall|x: int, y: int|
                    live_at(self@, x, y) && coord_to_index(x, y) < i as int ==> #[trigger] seq_has(
                        ac@,
                        x,
                        y,
                    ),
            decreases GRID_CELLS - i,
        {
            let ghost old_ac = ac@;
            let c = index_coord(i);
            if self.cell_state(c.0, c.1) == State::Alive {
                ac.push(c);
            }
            proof {
                lemma_index_to_coord_bijective(i as int);
                if self@[i as int] == State::Alive {
                    assert(ac@[ac@.len() - 1] == c);
                    assert(seq_has(ac@, c.0 as int, c.1 as int));
                }
                assert forall|x: int, y: int|
                    live_at(self@, x, y) && coord_to_index(x, y) < i as int
                        + 1 implies #[trigger] seq_has(ac@, x, y) by {
                    lemma_coord_to_index_bijective(x, y);
                    if coord_to_index(x, y) < i as int {
                        assert(seq_has(old_ac, x, y));
                        let j = choose|j: int|
                            0 <= j < old_ac.len() && old_ac[j].0 == x && old_ac[j].1 == y;
                        assert(ac@[j] == old_ac[j]);
                        assert(ac@[j].0 == x && ac@[j].1 == y);
                    }
                }
            }
            i = i + 1;
        }
        proof {
            assert forall|x: int, y: int| #[trigger] seq_has(ac@, x, y) implies live_at(
                self@,
                x,
                y,
            ) by {
                let j = choose|j: int| 0 <= j < ac@.len() && ac@[j].0 == x && ac@[j].1 == y;
            }
            assert forall|x: int, y: int| live_at(self@, x, y) implies #[trigger] seq_has(
                ac@,
                x,
                y,
            ) by {
                lemma_coord_to_index_bijective(x, y);
            }
            if ac@.len() == 0 {
                assert forall|k: int| 0 <= k < GRID_CELLS as int implies (#[trigger] self@[k])
                    != State::Alive by {
                    lemma_index_to_coord_bijective(k);
                    let c = index_to_coord(k);
                    assert(!seq_has(ac@, c.0, c.1));
                }
                lemma_count_alive_upto_zero(self@, GRID_CELLS as int);
            } else {
                let p = ac@[0];
                assert(live_at(self@, p.0 as int, p.1 as int));
                lemma_count_alive_upto_pos(
                    self@,
                    GRID_CELLS as int,
                    coord_to_index(p.0 as int, p.1 as int),
                );
            }
        }
        ac
    }

    /// Replace the whole cell vector; the caller supplies one state per
    /// cell.
    pub(crate) fn set_cells(&mut self, cells: Vec<State>)
        requires
            cells@.len() == GRID_CELLS as int,
        ensures
            final(self).wf(),
            final(self)@ == cells@,
    {
        self.cells = cells;
    }

    /// The state of the cell at an in-range coordinate.
    pub fn cell_state(&self, x: i32, y: i32) -> (s: State)
        requires
            self.wf(),
            in_bounds(x as int, y as int),
        ensures
            s == self@[coord_to_index(x as int, y as int)],
    {
        let i = cell_index(x, y);
        self.cells[i]
    }
}

} // verus!
