//! The bounded grid: the live or dead state of every cell of a hexagonal
//! disk.
//!
//! The cells are kept in layout order (see [`crate::disk`]), so a lookup
//! computes the place of a coordinate instead of searching for it. The set of
//! cells is fixed by the radius; only the states change.

use vstd::prelude::*;
use crate::axial::{Axial, lemma_distance_is_largest, lemma_distance_zero, ring_position};
use crate::coordinate::{HexCoordinate, cells_of};
use crate::disk::{
    cell_index, disk, disk_cells, disk_size, in_disk, lemma_disk_cell_at_index,
    lemma_disk_cells_len, lemma_disk_index_of_cell,
};

verus! {

/// The largest radius of a grid: up to it the number of cells fits in 32
/// bits.
pub const MAX_RADIUS: i32 = 32_768;

/// What can go wrong when a grid is built or read.
#[derive(Clone, Copy, Debug, PartialEq, Eq, Structural)]
pub enum GridError {
    /// A grid was asked for with a radius below one.
    InvalidRadius,
    /// A cell was asked for that does not belong to the grid.
    CellOutOfBounds,
}

/// The state of every cell of the hexagonal disk of a given radius.
#[derive(Clone, Debug, PartialEq, Eq)]
pub struct HexGrid {
    radius: i32,
    coords: Vec<HexCoordinate>,
    alive: Vec<bool>,
}

/// The grid of radius `r` in which every cell is dead.
pub open spec fn blank_cells(r: int) -> Map<Axial, bool> {
    Map::new(|c: Axial| in_disk(c, r), |c: Axial| false)
}

/// The states `before` with the place of each cell overwritten by the draw
/// at that place, as far as the draws go.
pub open spec fn redrawn_cells(before: Map<Axial, bool>, draws: Seq<bool>) -> Map<Axial, bool> {
    Map::new(
        |c: Axial| before.dom().contains(c),
        |c: Axial|
            if cell_index(c) < draws.len() {
                draws[cell_index(c)]
            } else {
                before[c]
            },
    )
}

impl View for HexGrid {
    type V = Map<Axial, bool>;

    /// The grid as a map from each cell of its disk to that cell's state.
    open spec fn view(&self) -> Map<Axial, bool> {
        Map::new(
            |c: Axial| in_disk(c, self.spec_radius()),
            |c: Axial| self.states()[cell_index(c)],
        )
    }
}

/// The place of `c` in the ring of radius `n` around the origin.
fn ring_place(c: HexCoordinate, n: i32) -> (at: i32)
    requires
        1 <= n <= MAX_RADIUS,
        c@.norm() == n,
    ensures
        at == ring_position(Axial::origin(), n as int, c@),
        0 <= at < 6 * n,
{
    proof {
        lemma_distance_is_largest(Axial::origin(), c@);
    }
    let dx = c.x;
    let dy = c.y;
    if dy == n && dx < 0 {
        dx + n
    } else if dx + dy == n && 0 <= dx && dx < n {
        n + dx
    } else if dx == n && dy > -n {
        2 * n - dy
    } else if dy == -n && dx > 0 {
        4 * n - dx
    } else if dx + dy == -n && -n < dx && dx <= 0 {
        4 * n - dx
    } else {
        5 * n + dy
    }
}

impl HexGrid {
    /// The radius: the number of rings, the centre included.
    pub closed spec fn spec_radius(&self) -> int {
        self.radius as int
    }

    /// The cells in layout order.
    pub closed spec fn layout(&self) -> Seq<Axial> {
        cells_of(self.coords@)
    }

    /// The states of the cells in layout order.
    pub closed spec fn states(&self) -> Seq<bool> {
        self.alive@
    }

    /// The invariant of a grid: the radius is valid, and the cells are those
    /// of its disk, in layout order, each with one state.
    pub closed spec fn wf(&self) -> bool {
        &&& 1 <= self.radius <= MAX_RADIUS
        &&& cells_of(self.coords@) == disk_cells(self.radius as int)
        &&& self.alive@.len() == self.coords@.len()
    }

    /// Whether this is the grid of the given radius with every cell dead.
    pub open spec fn is_blank(&self, radius: int) -> bool {
        &&& self.wf()
        &&& self.spec_radius() == radius
        &&& self@ == blank_cells(radius)
    }

    /// What the invariant says of the radius, the layout and the number of
    /// states: the set of cells is the disk of the radius, whatever the
    /// states are.
    pub proof fn lemma_wf(&self)
        requires
            self.wf(),
        ensures
            1 <= self.spec_radius() <= MAX_RADIUS,
            self.layout() == disk_cells(self.spec_radius()),
            self.states().len() == disk_size(self.spec_radius()),
            self@.dom() == disk(self.spec_radius()),
    {
        lemma_disk_cells_len(self.radius as int);
        assert(cells_of(self.coords@).len() == self.coords@.len());
        assert(self@.dom() =~= disk(self.spec_radius()));
    }

    /// Two grids of one radius with every cell dead are the same grid: they
    /// agree in their layout and in every state. So a grid that was reset is
    /// the grid that would be built anew.
    pub proof fn lemma_blank_is_unique(&self, other: &HexGrid, radius: int)
        requires
            self.is_blank(radius),
            other.is_blank(radius),
        ensures
            self.spec_radius() == other.spec_radius(),
            self.layout() == other.layout(),
            self.states() == other.states(),
            self@ == other@,
    {
        self.lemma_wf();
        other.lemma_wf();
        assert forall|i: int| 0 <= i < self.states().len() implies self.states()[i]
            == other.states()[i] by {
            lemma_disk_index_of_cell(radius, i);
            let c = disk_cells(radius)[i];
            assert(self@[c] == self.states()[i]);
            assert(other@[c] == other.states()[i]);
        }
        assert(self.states() =~= other.states());
    }

    /// Builds the grid of the given radius with every cell dead: the origin,
    /// then the rings of radius `1` to `radius - 1` around it.
    pub fn new(radius: i32) -> (made: Result<HexGrid, GridError>)
        requires
            radius <= MAX_RADIUS,
        ensures
            radius < 1 ==> made == Err::<HexGrid, GridError>(GridError::InvalidRadius),
            radius >= 1 ==> made is Ok,
            made matches Ok(grid) ==> grid.is_blank(radius as int) && grid.states().len()
                == disk_size(radius as int),
    {
        if radius < 1 {
            return Err(GridError::InvalidRadius);
        }
        let center = HexCoordinate::origin();
        let mut coords: Vec<HexCoordinate> = Vec::new();
        let mut alive: Vec<bool> = Vec::new();
        coords.push(center);
        alive.push(false);
        let mut layer: i32 = 1;
        assert(cells_of(coords@) =~= disk_cells(1)) by {
            assert(disk_cells(0) =~= Seq::<Axial>::empty());
        }
        while layer < radius
            invariant
                1 <= layer <= radius <= MAX_RADIUS,
                center@ == Axial::origin(),
                center.in_range(),
                cells_of(coords@) == disk_cells(layer as int),
                alive@.len() == coords@.len(),
                forall|i: int| 0 <= i < alive@.len() ==> !alive@[i],
            decreases radius - layer,
        {
            let ring = center.ring(layer);
            let ghost before = coords@;
            let mut j: usize = 0;
            while j < ring.len()
                invariant
                    0 <= j <= ring@.len(),
                    coords@ == before + ring@.subrange(0, j as int),
                    alive@.len() == coords@.len(),
                    forall|i: int| 0 <= i < alive@.len() ==> !alive@[i],
                decreases ring@.len() - j,
            {
                coords.push(ring[j]);
                alive.push(false);
                j += 1;
                assert(coords@ =~= before + ring@.subrange(0, j as int));
            }
            assert(cells_of(coords@) =~= disk_cells(layer + 1)) by {
                assert(ring@.subrange(0, j as int) =~= ring@);
                assert(cells_of(before + ring@) =~= cells_of(before) + cells_of(ring@));
            }
            layer += 1;
        }
        let grid = HexGrid { radius, coords, alive };
        proof {
            lemma_disk_cells_len(radius as int);
            assert(cells_of(grid.coords@).len() == grid.coords@.len());
            assert forall|c: Axial| in_disk(c, radius as int) implies !grid.states()[cell_index(c)] by {
                lemma_disk_cell_at_index(radius as int, c);
            }
            assert(grid@ =~= blank_cells(radius as int));
        }
        Ok(grid)
    }

    /// The radius that the grid was built with.
    pub fn radius(&self) -> (r: i32)
        requires
            self.wf(),
        ensures
            r == self.spec_radius(),
            1 <= r <= MAX_RADIUS,
    {
        self.radius
    }

    /// The number of cells.
    pub fn len(&self) -> (n: usize)
        requires
            self.wf(),
        ensures
            n == disk_size(self.spec_radius()),
            n == self.states().len(),
    {
        proof {
            self.lemma_wf();
        }
        self.alive.len()
    }

    /// The place of `c` in layout order, if the grid holds it.
    pub fn index_of(&self, c: HexCoordinate) -> (at: Option<usize>)
        requires
            self.wf(),
        ensures
            in_disk(c@, self.spec_radius()) ==> at is Some && at->Some_0 == cell_index(c@)
                && cell_index(c@) < self.states().len(),
            !in_disk(c@, self.spec_radius()) ==> at is None,
    {
        proof {
            self.lemma_wf();
            lemma_distance_is_largest(Axial::origin(), c@);
            lemma_distance_zero(Axial::origin(), c@);
            if in_disk(c@, self.spec_radius()) {
                lemma_disk_cell_at_index(self.spec_radius(), c@);
            }
        }
        if !c.is_in_range() {
            return None;
        }
        let d = c.distance(HexCoordinate::origin());
        if d >= self.radius {
            return None;
        }
        if d == 0 {
            return Some(0);
        }
        let at = ring_place(c, d);
        let k = d as u64;
        assert(3 * k * (k - 1) <= 3 * 32767 * 32766) by (nonlinear_arith)
            requires
                1 <= k <= 32767,
        ;
        let place: u64 = 1 + 3 * k * (k - 1) + at as u64;
        Some(place as usize)
    }

    /// Tells whether the grid holds the cell `c`.
    pub fn contains(&self, c: HexCoordinate) -> (held: bool)
        requires
            self.wf(),
        ensures
            held == self@.dom().contains(c@),
            held == in_disk(c@, self.spec_radius()),
    {
        self.index_of(c).is_some()
    }

    /// The state of the cell `c`, or `CellOutOfBounds` if the grid does not
    /// hold it.
    pub fn get(&self, c: HexCoordinate) -> (got: Result<bool, GridError>)
        requires
            self.wf(),
        ensures
            self@.dom().contains(c@) ==> got == Ok::<bool, GridError>(self@[c@]),
            !self@.dom().contains(c@) ==> got == Err::<bool, GridError>(
                GridError::CellOutOfBounds,
            ),
    {
        match self.index_of(c) {
            Some(at) => Ok(self.alive[at]),
            None => Err(GridError::CellOutOfBounds),
        }
    }

    /// Sets the state of the cell `c`. A coordinate outside the grid is
    /// ignored: the set of cells never changes.
    pub fn set(&mut self, c: HexCoordinate, alive: bool)
        requires
            old(self).wf(),
        ensures
            final(self).wf(),
            final(self).spec_radius() == old(self).spec_radius(),
            old(self)@.dom().contains(c@) ==> final(self)@ == old(self)@.insert(c@, alive),
            !old(self)@.dom().contains(c@) ==> *final(self) == *old(self),
    {
        match self.index_of(c) {
            Some(at) => {
                self.alive.set(at, alive);
                proof {
                    let r = self.spec_radius();
                    old(self).lemma_wf();
                    lemma_disk_cell_at_index(r, c@);
                    assert forall|p: Axial| in_disk(p, r) implies self@[p] == old(self)@.insert(
                        c@,
                        alive,
                    )[p] by {
                        lemma_disk_cell_at_index(r, p);
                    }
                    assert(self@ =~= old(self)@.insert(c@, alive));
                }
            },
            None => {},
        }
    }

    /// The coordinate and the state of the cell at place `at` of the layout
    /// order.
    pub fn cell_at(&self, at: usize) -> (cell: (HexCoordinate, bool))
        requires
            self.wf(),
            at < self.states().len(),
        ensures
            cell.0@ == disk_cells(self.spec_radius())[at as int],
            cell.1 == self.states()[at as int],
            cell_index(cell.0@) == at,
            self@.dom().contains(cell.0@),
            cell.1 == self@[cell.0@],
            cell.0.in_range(),
    {
        proof {
            self.lemma_wf();
            lemma_disk_index_of_cell(self.spec_radius(), at as int);
            assert(cells_of(self.coords@)[at as int] == self.coords@[at as int]@);
            lemma_distance_is_largest(Axial::origin(), self.coords@[at as int]@);
        }
        (self.coords[at], self.alive[at])
    }

    /// Every cell with its state, in layout order.
    pub fn iterate(&self) -> (cells: Vec<(HexCoordinate, bool)>)
        requires
            self.wf(),
        ensures
            cells@.len() == disk_size(self.spec_radius()),
            forall|i: int|
                0 <= i < cells@.len() ==> {
                    &&& (#[trigger] cells@[i]).0@ == disk_cells(self.spec_radius())[i]
                    &&& cells@[i].1 == self@[cells@[i].0@]
                },
    {
        let n = self.len();
        let mut cells: Vec<(HexCoordinate, bool)> = Vec::new();
        let mut i: usize = 0;
        while i < n
            invariant
                self.wf(),
                n == self.states().len(),
                n == disk_size(self.spec_radius()),
                0 <= i <= n,
                cells@.len() == i,
                forall|j: int|
                    0 <= j < i ==> {
                        &&& (#[trigger] cells@[j]).0@ == disk_cells(self.spec_radius())[j]
                        &&& cells@[j].1 == self@[cells@[j].0@]
                    },
            decreases n - i,
        {
            cells.push(self.cell_at(i));
            i += 1;
        }
        cells
    }

    /// Overwrites the state of each cell by the draw at its place in layout
    /// order. Cells beyond the last draw keep their state.
    pub fn randomize(&mut self, draws: &Vec<bool>)
        requires
            old(self).wf(),
        ensures
            final(self).wf(),
            final(self).spec_radius() == old(self).spec_radius(),
            final(self)@ == redrawn_cells(old(self)@, draws@),
    {
        let n = self.len();
        let mut i: usize = 0;
        while i < n && i < draws.len()
            invariant
                self.wf(),
                self.spec_radius() == old(self).spec_radius(),
                n == self.states().len(),
                n == old(self).states().len(),
                0 <= i <= n,
                i <= draws@.len(),
                forall|j: int| 0 <= j < i ==> self.states()[j] == draws@[j],
                forall|j: int| i <= j < n ==> self.states()[j] == old(self).states()[j],
            decreases n - i,
        {
            self.alive.set(i, draws[i]);
            i += 1;
        }
        proof {
            let r = self.spec_radius();
            assert forall|c: Axial| in_disk(c, r) implies 0 <= cell_index(c) < n by {
                lemma_disk_cell_at_index(r, c);
            }
            assert(self@ =~= redrawn_cells(old(self)@, draws@));
        }
    }

    /// Puts a whole new generation in the place of the current one.
    pub(crate) fn replace_states(&mut self, next: Vec<bool>)
        requires
            old(self).wf(),
            next@.len() == old(self).states().len(),
        ensures
            final(self).wf(),
            final(self).spec_radius() == old(self).spec_radius(),
            final(self).states() == next@,
    {
        self.alive = next;
    }

    /// Replaces the grid by a new one of the given radius with every cell
    /// dead. With a radius below one the grid stays as it is.
    pub fn reset(&mut self, radius: i32) -> (done: Result<(), GridError>)
        requires
            old(self).wf(),
            radius <= MAX_RADIUS,
        ensures
            final(self).wf(),
            radius < 1 ==> done == Err::<(), GridError>(GridError::InvalidRadius) && *final(self)
                == *old(self),
            radius >= 1 ==> done is Ok && final(self).is_blank(radius as int),
    {
        match HexGrid::new(radius) {
            Ok(grid) => {
                *self = grid;
                Ok(())
            },
            Err(e) => Err(e),
        }
    }
}

} // verus!
