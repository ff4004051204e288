//! The hexagonal disk: the domain of a grid, and the order in which its
//! cells are laid out.
//!
//! A disk of radius `r` holds the cells at distance less than `r` from the
//! origin. They are enumerated ring by ring from the centre outwards, so the
//! place of a cell can be computed from its coordinates alone.

use vstd::prelude::*;
use crate::axial::{
    Axial, lemma_distance_is_largest, lemma_distance_zero, lemma_ring_cell_distance,
    lemma_ring_cell_of_position, lemma_ring_position_of_cell, ring_cells, ring_position,
};

verus! {

/// The number of cells of a disk of radius `r >= 1`: the centred hexagonal
/// number `1 + 3 r (r - 1)`.
pub open spec fn disk_size(r: int) -> int {
    1 + 3 * r * (r - 1)
}

/// Whether `c` belongs to the disk of radius `r`.
pub open spec fn in_disk(c: Axial, r: int) -> bool {
    c.norm() < r
}

/// The disk of radius `r` as a set of cells.
pub open spec fn disk(r: int) -> Set<Axial> {
    Set::new(|c: Axial| in_disk(c, r))
}

/// The cells of the disk of radius `r` in layout order: the origin, then the
/// rings of radius `1` to `r - 1` around it, each in its own order.
pub open spec fn disk_cells(r: int) -> Seq<Axial>
    decreases r,
{
    if r <= 0 {
        Seq::empty()
    } else {
        disk_cells(r - 1) + ring_cells(Axial::origin(), r - 1)
    }
}

/// The place of `c` in the layout order of any disk that holds it.
pub open spec fn cell_index(c: Axial) -> int {
    if c == Axial::origin() {
        0
    } else {
        disk_size(c.norm()) + ring_position(Axial::origin(), c.norm(), c)
    }
}

/// Each ring adds six cells per unit of its radius.
pub proof fn lemma_disk_size_step(r: int)
    ensures
        disk_size(r + 1) == disk_size(r) + 6 * r,
{
    assert(3 * (r + 1) * r == 3 * r * (r - 1) + 6 * r) by (nonlinear_arith);
}

/// The layout of a disk has as many cells as the disk's size says.
pub proof fn lemma_disk_cells_len(r: int)
    requires
        r >= 1,
    ensures
        disk_cells(r).len() == disk_size(r),
    decreases r,
{
    if r == 1 {
        assert(disk_cells(0).len() == 0);
        assert(disk_size(1) == 1) by (nonlinear_arith);
    } else {
        lemma_disk_cells_len(r - 1);
        lemma_disk_size_step(r - 1);
    }
}

/// Every cell of a disk stands in its layout, at the place that
/// [`cell_index`] gives.
pub proof fn lemma_disk_cell_at_index(r: int, c: Axial)
    requires
        r >= 1,
        in_disk(c, r),
    ensures
        0 <= cell_index(c) < disk_size(r),
        disk_cells(r)[cell_index(c)] == c,
    decreases r,
{
    lemma_distance_is_largest(Axial::origin(), c);
    lemma_distance_zero(Axial::origin(), c);
    lemma_disk_cells_len(r);
    let k = c.norm();
    if r == 1 {
        assert(disk_cells(0).len() == 0);
    } else {
        lemma_disk_cells_len(r - 1);
        lemma_disk_size_step(r - 1);
        if k < r - 1 {
            lemma_disk_cell_at_index(r - 1, c);
        } else {
            lemma_ring_cell_of_position(Axial::origin(), k, c);
            let at = ring_position(Axial::origin(), k, c);
            assert(ring_cells(Axial::origin(), k)[at] == c);
        }
    }
}

/// Every place of a disk's layout holds a cell of the disk, and
/// [`cell_index`] leads back from that cell to its place.
pub proof fn lemma_disk_index_of_cell(r: int, i: int)
    requires
        r >= 1,
        0 <= i < disk_size(r),
    ensures
        in_disk(disk_cells(r)[i], r),
        cell_index(disk_cells(r)[i]) == i,
    decreases r,
{
    lemma_disk_cells_len(r);
    if r == 1 {
        assert(disk_cells(0).len() == 0);
        assert(disk_size(1) == 1) by (nonlinear_arith);
        assert(disk_cells(1)[0] == Axial::origin());
    } else {
        lemma_disk_cells_len(r - 1);
        lemma_disk_size_step(r - 1);
        if i < disk_size(r - 1) {
            lemma_disk_index_of_cell(r - 1, i);
        } else {
            let k = r - 1;
            let j = i - disk_size(k);
            let c = disk_cells(r)[i];
            assert(c == ring_cells(Axial::origin(), k)[j]);
            lemma_ring_cell_distance(Axial::origin(), k, j);
            lemma_ring_position_of_cell(Axial::origin(), k, j);
            lemma_distance_zero(Axial::origin(), c);
        }
    }
}

/// The layout of a disk holds exactly the cells of the disk, each of them
/// once, so a disk of radius `r` has `1 + 3 r (r - 1)` cells.
pub proof fn lemma_disk_layout(r: int)
    requires
        r >= 1,
    ensures
        disk_cells(r).len() == disk_size(r),
        disk_cells(r).no_duplicates(),
        disk_cells(r).to_set() == disk(r),
        disk(r).finite(),
        disk(r).len() == disk_size(r),
{
    let cells = disk_cells(r);
    lemma_disk_cells_len(r);
    assert forall|i: int, j: int| 0 <= i < cells.len() && 0 <= j < cells.len() && i != j implies cells[i] != cells[j] by {
        lemma_disk_index_of_cell(r, i);
        lemma_disk_index_of_cell(r, j);
    }
    assert forall|c: Axial| cells.to_set().contains(c) <==> disk(r).contains(c) by {
        if cells.contains(c) {
            let i = choose|i: int| 0 <= i < cells.len() && cells[i] == c;
            lemma_disk_index_of_cell(r, i);
        }
        if in_disk(c, r) {
            lemma_disk_cell_at_index(r, c);
            assert(cells[cell_index(c)] == c);
        }
    }
    assert(cells.to_set() =~= disk(r));
    cells.unique_seq_to_set();
}

} // verus!
