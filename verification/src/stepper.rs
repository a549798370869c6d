//! The generation stepper: one synchronous application of the classic
//! Life rule to every cell, plus the dashboard counters it maintains.
//!
//! A step first snapshots the live coordinates of the current generation;
//! every cell's next state is decided against that snapshot alone, never
//! against another cell's already-updated state. A step that observes an
//! empty live set is a no-op: the grid and the counters freeze.

use vstd::prelude::*;
use crate::grid::Grid;
use crate::grid::GRID_CELLS;
use crate::grid::State;
use crate::grid::count_alive;
use crate::grid::count_alive_upto;
use crate::grid::index_coord;
use crate::grid::index_to_coord;
use crate::grid::lemma_count_alive_is_live_set_card;
use crate::grid::lemma_index_to_coord_bijective;
use crate::grid::live_at;
use crate::grid::live_set;
use crate::grid::seq_has;
use crate::neighbor::alive_neighbor_count;
use crate::neighbor::coord_set;
use crate::neighbor::spec_neighbor_count;

verus! {

/// The per-round counters read by the display: the round number and the
/// number of cells alive after the last completed step.
pub struct Dashboard {
    pub round: usize,
    pub survival: usize,
}

impl Default for Dashboard {
    /// A fresh dashboard: no round completed, no survivor counted.
    fn default() -> (d: Dashboard)
        ensures
            d.round == 0,
            d.survival == 0,
    {
        Dashboard { round: 0, survival: 0 }
    }
}

/// The classic Life rule for one cell: `s` is the cell's current state and
/// `n` its live-neighbor count. A live cell survives exactly on counts 2
/// and 3; a dead cell comes to life exactly on count 3.
pub open spec fn next_state(s: State, n: int) -> State {
    match s {
        State::Alive => if 2 <= n <= 3 {
            State::Alive
        } else {
            State::Dead
        },
        State::Dead => if n == 3 {
            State::Alive
        } else {
            State::Dead
        },
    }
}

/// One synchronous update of the whole grid: every cell's next state is
/// decided by the rule against the live set of `g` itself.
pub open spec fn step_cells(g: Seq<State>) -> Seq<State> {
    Seq::new(
        g.len(),
        |i: int|
            next_state(
                g[i],
                spec_neighbor_count(index_to_coord(i).0, index_to_coord(i).1, live_set(g)),
            ),
    )
}

/// One tick of the simulation on (grid, round, survival): a no-op when no
/// cell is alive, else a synchronous update with the round incremented and
/// the survival counter set to the new census.
pub open spec fn sim_step(g: Seq<State>, round: int, survival: int) -> (Seq<State>, int, int) {
    if count_alive(g) == 0 {
        (g, round, survival)
    } else {
        (step_cells(g), round + 1, count_alive(step_cells(g)))
    }
}

/// `n` ticks of the simulation, in order.
pub open spec fn sim_steps(g: Seq<State>, round: int, survival: int, n: nat) -> (
    Seq<State>,
    int,
    int,
)
    decreases n,
{
    if n == 0 {
        (g, round, survival)
    } else {
        let prev = sim_steps(g, round, survival, (n - 1) as nat);
        sim_step(prev.0, prev.1, prev.2)
    }
}

/// Extinction is terminal: once a generation has no live cell, any number
/// of further ticks leaves the grid, the round counter and the survival
/// counter exactly as they are.
pub proof fn lemma_extinction_frozen(g: Seq<State>, round: int, survival: int, n: nat)
    requires
        count_alive(g) == 0,
    ensures
        sim_steps(g, round, survival, n) == (g, round, survival),
    decreases n,
{
    if n > 0 {
        lemma_extinction_frozen(g, round, survival, (n - 1) as nat);
    }
}

/// After a completed (non-frozen) step, the survival counter equals the
/// cardinality of the set of live coordinates of the grid at that moment:
/// the counter never drifts from the underlying state.
pub proof fn lemma_survival_is_live_card(g: Seq<State>, round: int, survival: int)
    requires
        g.len() == GRID_CELLS as int,
        count_alive(g) != 0,
    ensures
        live_set(sim_step(g, round, survival).0).finite(),
        sim_step(g, round, survival).2 == live_set(sim_step(g, round, survival).0).len(),
{
    lemma_count_alive_is_live_set_card(step_cells(g));
}

/// Run one simulation tick on the grid and the dashboard.
///
/// If the current generation has no live cell, nothing changes. Otherwise
/// every cell is updated by the Life rule against a snapshot of the
/// current live set, the round counter is incremented, and the survival
/// counter is set to the number of cells now alive.
pub fn dead_or_alive(db: &mut Dashboard, grid: &mut Grid)
    requires
        old(grid).wf(),
        old(db).round < usize::MAX,
    ensures
        final(grid).wf(),
        final(grid)@ == sim_step(old(grid)@, old(db).round as int, old(db).survival as int).0,
        final(db).round as int == sim_step(
            old(grid)@,
            old(db).round as int,
            old(db).survival as int,
        ).1,
        final(db).survival as int == sim_step(
            old(grid)@,
            old(db).round as int,
            old(db).survival as int,
        ).2,
{
    let ghost g0 = grid@;
    let alive_coords = grid.alive_coords();
    if alive_coords.len() == 0 {
        // end of the world: the step is a no-op and the counters freeze
        return ;
    }
    proof {
        assert forall|p: (int, int)| #[trigger]
            coord_set(alive_coords@).contains(p) == live_set(g0).contains(p) by {
            assert(coord_set(alive_coords@).contains(p) == seq_has(alive_coords@, p.0, p.1));
            assert(live_set(g0).contains(p) == live_at(g0, p.0, p.1));
        }
        assert(coord_set(alive_coords@) =~= live_set(g0));
    }
    let mut next: Vec<State> = Vec::new();
    let mut survival: usize = 0;
    let mut i: usize = 0;
    while i < GRID_CELLS
        invariant
            i <= GRID_CELLS,
            grid.wf(),
            grid@ == g0,
            coord_set(alive_coords@) == live_set(g0),
            next@.len() == i as int,
            forall|k: int| 0 <= k < i ==> (#[trigger] next@[k]) == step_cells(g0)[k],
            survival as int == count_alive_upto(step_cells(g0), i as int),
            survival <= i,
        decreases GRID_CELLS - i,
    {
        let c = index_coord(i);
        let n = alive_neighbor_count(&c, &alive_coords);
        let cur = grid.cell_state(c.0, c.1);
        let ns = match cur {
            State::Alive => if n < 2 || n > 3 {
                State::Dead
            } else {
                State::Alive
            },
            State::Dead => if n == 3 {
                State::Alive
            } else {
                State::Dead
            },
        };
        proof {
            lemma_index_to_coord_bijective(i as int);
            assert(cur == g0[i as int]);
            assert(ns == step_cells(g0)[i as int]);
        }
        next.push(ns);
        if ns == State::Alive {
            survival = survival + 1;
        }
        i = i + 1;
    }
    proof {
        assert(next@ =~= step_cells(g0));
    }
    grid.set_cells(next);
    db.survival = survival;
    db.round = db.round + 1;
}

} // verus!
