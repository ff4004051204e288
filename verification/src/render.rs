//! What a renderer reads besides the cells themselves: the lines that join
//! live cells.

use vstd::prelude::*;
use crate::axial::{Axial, lemma_neighbors_distinct};
use crate::coordinate::HexCoordinate;
use crate::disk::{
    cell_index, disk_cells, in_disk, lemma_disk_cell_at_index, lemma_disk_cells_len,
    lemma_disk_index_of_cell,
};
use crate::engine::alive_at;
use crate::grid::HexGrid;

verus! {

/// Whether a line is drawn from `a` to `b`: `a` is a live interior cell and
/// `b` is a live neighbour of it.
pub open spec fn edge_drawn(cells: Map<Axial, bool>, radius: int, a: Axial, b: Axial) -> bool {
    &&& in_disk(a, radius - 1)
    &&& alive_at(cells, a) == 1
    &&& a.adjacent(b)
    &&& alive_at(cells, b) == 1
}

/// The pairs of cells that a sequence of pairs of coordinates stands for.
pub open spec fn ends_of(lines: Seq<(HexCoordinate, HexCoordinate)>) -> Seq<(Axial, Axial)> {
    Seq::new(lines.len(), |i: int| (lines[i].0@, lines[i].1@))
}

impl HexGrid {
    /// The lines to draw: one from each live interior cell to each of its
    /// live neighbours, and no others.
    pub fn edges(&self) -> (lines: Vec<(HexCoordinate, HexCoordinate)>)
        requires
            self.wf(),
        ensures
            ends_of(lines@).no_duplicates(),
            forall|a: Axial, b: Axial|
                #[trigger] ends_of(lines@).contains((a, b)) <==> edge_drawn(
                    self@,
                    self.spec_radius(),
                    a,
                    b,
                ),
    {
        let n = self.len();
        let ghost r = self.spec_radius();
        let ghost layout = disk_cells(r);
        let mut lines: Vec<(HexCoordinate, HexCoordinate)> = Vec::new();
        // For each line, the place of its first end and the direction of its second.
        let ghost mut picks: Seq<(int, int)> = Seq::empty();
        let mut i: usize = 0;
        proof {
            self.lemma_wf();
            lemma_disk_cells_len(r);
        }
        while i < n
            invariant
                self.wf(),
                r == self.spec_radius(),
                layout == disk_cells(r),
                n == self.states().len(),
                n == layout.len(),
                0 <= i <= n,
                picks.len() == lines@.len(),
                forall|m: int|
                    0 <= m < picks.len() ==> {
                        &&& 0 <= (#[trigger] picks[m]).0 < i
                        &&& 0 <= picks[m].1 < 6
                        &&& lines@[m].0@ == layout[picks[m].0]
                        &&& lines@[m].1@ == layout[picks[m].0].neighbor(picks[m].1)
                        &&& edge_drawn(self@, r, lines@[m].0@, lines@[m].1@)
                    },
                forall|m: int, q: int| 0 <= m < q < picks.len() ==> picks[m] != picks[q],
                forall|j: int, k: int|
                    0 <= j < i && 0 <= k < 6 && edge_drawn(
                        self@,
                        r,
                        layout[j],
                        #[trigger] layout[j].neighbor(k),
                    ) ==> picks.contains((j, k)),
            decreases n - i,
        {
            let (a, alive) = self.cell_at(i);
            if alive && self.is_interior(a) {
                let around = a.neighbors();
                let mut k: usize = 0;
                while k < 6
                    invariant
                        self.wf(),
                        r == self.spec_radius(),
                        layout == disk_cells(r),
                        n == layout.len(),
                        0 <= i < n,
                        0 <= k <= 6,
                        a@ == layout[i as int],
                        in_disk(a@, r - 1),
                        alive_at(self@, a@) == 1,
                        forall|j: int| 0 <= j < 6 ==> (#[trigger] around[j])@ == a@.neighbor(j),
                        picks.len() == lines@.len(),
                        forall|m: int|
                            0 <= m < picks.len() ==> {
                                &&& 0 <= (#[trigger] picks[m]).0 <= i
                                &&& 0 <= picks[m].1 < 6
                                &&& picks[m].0 == i ==> picks[m].1 < k
                                &&& lines@[m].0@ == layout[picks[m].0]
                                &&& lines@[m].1@ == layout[picks[m].0].neighbor(picks[m].1)
                                &&& edge_drawn(self@, r, lines@[m].0@, lines@[m].1@)
                            },
                        forall|m: int, q: int| 0 <= m < q < picks.len() ==> picks[m] != picks[q],
                        forall|j: int, d: int|
                            0 <= j < i && 0 <= d < 6 && edge_drawn(
                                self@,
                                r,
                                layout[j],
                                #[trigger] layout[j].neighbor(d),
                            ) ==> picks.contains((j, d)),
                        forall|d: int|
                            0 <= d < k && edge_drawn(self@, r, a@, #[trigger] a@.neighbor(d))
                                ==> picks.contains((i as int, d)),
                    decreases 6 - k,
                {
                    let b = around[k];
                    let lit = match self.get(b) {
                        Ok(state) => state,
                        Err(_) => false,
                    };
                    if lit {
                        let ghost before = picks;
                        lines.push((a, b));
                        proof {
                            picks = picks.push((i as int, k as int));
                            assert(a@.neighbor(k as int) == b@);
                            assert(a@.adjacent(b@));
                            assert forall|p: (int, int)| before.contains(p) implies picks.contains(
                                p,
                            ) by {
                                let m = choose|m: int| 0 <= m < before.len() && before[m] == p;
                                assert(picks[m] == p);
                            }
                            assert(picks[picks.len() - 1] == (i as int, k as int));
                        }
                    }
                    k += 1;
                }
            }
            i += 1;
        }
        proof {
            let ends = ends_of(lines@);
            assert forall|m: int, q: int| 0 <= m < ends.len() && 0 <= q < ends.len() && m
                != q implies ends[m] != ends[q] by {
                lemma_disk_index_of_cell(r, picks[m].0);
                lemma_disk_index_of_cell(r, picks[q].0);
                if picks[m].0 == picks[q].0 {
                    lemma_neighbors_distinct(layout[picks[m].0], picks[m].1, picks[q].1);
                }
            }
            assert forall|a: Axial, b: Axial| #[trigger]
                ends.contains((a, b)) <==> edge_drawn(self@, r, a, b) by {
                if ends.contains((a, b)) {
                    let m = choose|m: int| 0 <= m < ends.len() && ends[m] == (a, b);
                    assert(picks[m].1 < 6);
                }
                if edge_drawn(self@, r, a, b) {
                    let k = choose|k: int| 0 <= k < 6 && #[trigger] a.neighbor(k) == b;
                    lemma_disk_cell_at_index(r, a);
                    let j = cell_index(a);
                    assert(layout[j] == a);
                    assert(picks.contains((j, k)));
                    let m = choose|m: int| 0 <= m < picks.len() && picks[m] == (j, k);
                    assert(ends[m] == (a, b));
                }
            }
        }
        lines
    }
}

} // verus!
