//! The generation step: a hexagonal analogue of the Game of Life.
//!
//! Only interior cells, those at distance less than `radius - 1` from the
//! origin, count their neighbours. A boundary cell always counts zero, so it
//! is dead after every step.

use vstd::prelude::*;
use crate::axial::{
    Axial, lemma_distance_is_largest, lemma_distance_triangle, lemma_neighbor_distance,
};
use crate::coordinate::HexCoordinate;
use crate::disk::{
    cell_index, disk_cells, in_disk, lemma_disk_cell_at_index, lemma_disk_cells_len,
};
use crate::grid::HexGrid;

verus! {

/// One if `cells` holds `c` and `c` is alive, zero otherwise.
pub open spec fn alive_at(cells: Map<Axial, bool>, c: Axial) -> int {
    if cells.dom().contains(c) && cells[c] {
        1
    } else {
        0
    }
}

/// The number of live cells among the first `k` neighbours of `c`.
pub open spec fn live_among(cells: Map<Axial, bool>, c: Axial, k: int) -> int
    decreases k,
{
    if k <= 0 {
        0
    } else {
        live_among(cells, c, k - 1) + alive_at(cells, c.neighbor(k - 1))
    }
}

/// The neighbour count that the rule sees for `c` in a grid of the given
/// radius: the number of live neighbours of an interior cell, and zero for
/// any other cell.
pub open spec fn live_neighbors(cells: Map<Axial, bool>, radius: int, c: Axial) -> int {
    if in_disk(c, radius - 1) {
        live_among(cells, c, 6)
    } else {
        0
    }
}

/// The rule: a cell is alive in the next generation if it counts three live
/// neighbours, or if it is alive and counts two.
pub open spec fn next_state(alive: bool, count: int) -> bool {
    (alive && count == 2) || count == 3
}

/// The generation that follows `cells` in a grid of the given radius: every
/// cell's next state, computed from `cells` alone.
pub open spec fn next_generation(cells: Map<Axial, bool>, radius: int) -> Map<Axial, bool> {
    Map::new(
        |c: Axial| cells.dom().contains(c),
        |c: Axial| next_state(cells[c], live_neighbors(cells, radius, c)),
    )
}

/// Where no neighbour is alive, the count is zero.
pub proof fn lemma_live_among_dead(cells: Map<Axial, bool>, c: Axial, k: int)
    requires
        forall|p: Axial| cells.dom().contains(p) ==> !cells[p],
    ensures
        live_among(cells, c, k) == 0,
    decreases k,
{
    if k > 0 {
        lemma_live_among_dead(cells, c, k - 1);
    }
}

/// Every neighbour of an interior cell belongs to the grid.
pub proof fn lemma_interior_neighbors_in_grid(radius: int, c: Axial, k: int)
    requires
        in_disk(c, radius - 1),
        0 <= k < 6,
    ensures
        in_disk(c.neighbor(k), radius),
{
    lemma_neighbor_distance(c, k);
    lemma_distance_triangle(Axial::origin(), c, c.neighbor(k));
}

/// A cell that is not interior is dead in the next generation, whatever its
/// state and that of its neighbours.
pub proof fn lemma_boundary_cells_die(cells: Map<Axial, bool>, radius: int, c: Axial)
    requires
        cells.dom().contains(c),
        !in_disk(c, radius - 1),
    ensures
        !next_generation(cells, radius)[c],
{
}

/// The grid in which every cell is dead is a fixed point of the step.
pub proof fn lemma_dead_grid_is_fixed(cells: Map<Axial, bool>, radius: int)
    requires
        forall|c: Axial| cells.dom().contains(c) ==> !cells[c],
    ensures
        next_generation(cells, radius) == cells,
{
    assert forall|c: Axial| cells.dom().contains(c) implies !next_generation(cells, radius)[c] by {
        lemma_live_among_dead(cells, c, 6);
    }
    assert(next_generation(cells, radius) =~= cells);
}

/// The rule on machine values.
pub fn survives(alive: bool, count: i32) -> (next: bool)
    ensures
        next == next_state(alive, count as int),
{
    match (count, alive) {
        (2, true) => true,
        (3, _) => true,
        _ => false,
    }
}

impl HexGrid {
    /// Tells whether `c` is an interior cell: one at distance less than
    /// `radius - 1` from the origin.
    pub fn is_interior(&self, c: HexCoordinate) -> (inside: bool)
        requires
            self.wf(),
        ensures
            inside == in_disk(c@, self.spec_radius() - 1),
            inside ==> c.in_range() && self@.dom().contains(c@),
    {
        proof {
            self.lemma_wf();
            lemma_distance_is_largest(Axial::origin(), c@);
        }
        if !c.is_in_range() {
            return false;
        }
        c.distance(HexCoordinate::origin()) < self.radius() - 1
    }

    /// The number of live neighbours that the rule sees for `c`: counted for
    /// an interior cell, zero for any other coordinate.
    pub fn neighbor_alive_count(&self, c: HexCoordinate) -> (count: i32)
        requires
            self.wf(),
        ensures
            count == live_neighbors(self@, self.spec_radius(), c@),
            0 <= count <= 6,
    {
        let mut count: i32 = 0;
        if self.is_interior(c) {
            let around = c.neighbors();
            let mut k: usize = 0;
            while k < 6
                invariant
                    self.wf(),
                    0 <= k <= 6,
                    0 <= count <= k,
                    count == live_among(self@, c@, k as int),
                    forall|j: int| 0 <= j < 6 ==> (#[trigger] around[j])@ == c@.neighbor(j),
                decreases 6 - k,
            {
                match self.get(around[k]) {
                    Ok(alive) => {
                        if alive {
                            count += 1;
                        }
                    },
                    Err(_) => {},
                }
                k += 1;
            }
        }
        count
    }

    /// Advances the grid by one generation. Every next state is computed
    /// from the generation before the step, and the new generation replaces
    /// the old one as a whole.
    pub fn tick(&mut self)
        requires
            old(self).wf(),
        ensures
            final(self).wf(),
            final(self).spec_radius() == old(self).spec_radius(),
            final(self)@ == next_generation(old(self)@, old(self).spec_radius()),
            forall|c: Axial|
                old(self)@.dom().contains(c) && !in_disk(c, old(self).spec_radius() - 1)
                    ==> !(#[trigger] final(self)@[c]),
            (forall|c: Axial| old(self)@.dom().contains(c) ==> !old(self)@[c]) ==> final(self)@
                == old(self)@,
    {
        let n = self.len();
        let ghost r = self.spec_radius();
        let mut next: Vec<bool> = Vec::new();
        let mut i: usize = 0;
        proof {
            self.lemma_wf();
            lemma_disk_cells_len(r);
        }
        while i < n
            invariant
                self.wf(),
                r == self.spec_radius(),
                n == self.states().len(),
                n == disk_cells(r).len(),
                0 <= i <= n,
                next@.len() == i,
                forall|j: int|
                    0 <= j < i ==> #[trigger] next@[j] == next_state(
                        self.states()[j],
                        live_neighbors(self@, r, disk_cells(r)[j]),
                    ),
            decreases n - i,
        {
            let (c, alive) = self.cell_at(i);
            let count = self.neighbor_alive_count(c);
            next.push(survives(alive, count));
            i += 1;
        }
        self.replace_states(next);
        proof {
            old(self).lemma_wf();
            assert forall|c: Axial| in_disk(c, r) implies final(self)@[c] == next_generation(
                old(self)@,
                r,
            )[c] by {
                lemma_disk_cell_at_index(r, c);
                assert(next@[cell_index(c)] == next_state(
                    old(self).states()[cell_index(c)],
                    live_neighbors(old(self)@, r, disk_cells(r)[cell_index(c)]),
                ));
            }
            assert(self@ =~= next_generation(old(self)@, r));
            if forall|c: Axial| old(self)@.dom().contains(c) ==> !old(self)@[c] {
                lemma_dead_grid_is_fixed(old(self)@, r);
            }
        }
    }
}

} // verus!
