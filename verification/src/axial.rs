//! The unbounded hexagonal plane in axial coordinates, as a mathematical
//! model: every contract of the crate is stated over the items of this file.

use vstd::prelude::*;

verus! {

/// A cell of the unbounded hexagonal plane.
///
/// The third cube coordinate is implied: `z = -x - y`.
pub struct Axial {
    pub x: int,
    pub y: int,
}

/// Absolute value of an integer.
pub open spec fn magnitude(v: int) -> int {
    if v < 0 {
        -v
    } else {
        v
    }
}

/// The largest of three integers.
pub open spec fn largest(a: int, b: int, c: int) -> int {
    if a >= b && a >= c {
        a
    } else if b >= c {
        b
    } else {
        c
    }
}

/// The unit step in direction `k`, for `0 <= k < 6`, in clockwise order:
/// `+y-z`, `-z+x`, `+x-y`, `-y+z`, `+z-x`, `-x+y`.
pub open spec fn direction(k: int) -> Axial {
    if k == 0 {
        Axial { x: 0, y: 1 }
    } else if k == 1 {
        Axial { x: 1, y: 0 }
    } else if k == 2 {
        Axial { x: 1, y: -1 }
    } else if k == 3 {
        Axial { x: 0, y: -1 }
    } else if k == 4 {
        Axial { x: -1, y: 0 }
    } else {
        Axial { x: -1, y: 1 }
    }
}

impl Axial {
    /// The centre of the plane.
    pub open spec fn origin() -> Axial {
        Axial { x: 0, y: 0 }
    }

    /// The implied third cube coordinate.
    pub open spec fn z(self) -> int {
        -self.x - self.y
    }

    /// Component-wise sum.
    pub open spec fn plus(self, other: Axial) -> Axial {
        Axial { x: self.x + other.x, y: self.y + other.y }
    }

    /// Hex distance: half the sum of the three cube-coordinate differences.
    pub open spec fn distance(self, other: Axial) -> int {
        (magnitude(self.x - other.x) + magnitude(self.y - other.y) + magnitude(
            self.z() - other.z(),
        )) / 2
    }

    /// Distance from the origin.
    pub open spec fn norm(self) -> int {
        self.distance(Axial::origin())
    }

    /// The adjacent cell in direction `k`, for `0 <= k < 6`.
    pub open spec fn neighbor(self, k: int) -> Axial {
        self.plus(direction(k))
    }

    /// Whether `other` is one of the six neighbours of `self`.
    pub open spec fn adjacent(self, other: Axial) -> bool {
        exists|k: int| 0 <= k < 6 && #[trigger] self.neighbor(k) == other
    }
}

/// The `i`-th cell, for `0 <= i < 6 * n`, of the ring of radius `n >= 1`
/// around `center`.
///
/// The ring starts at the corner `n` steps from the centre in direction 5
/// (`-x+y`) and runs clockwise: six sides of `n` cells each, walked in
/// directions 1, 2, 3, 4, 5, 0.
pub open spec fn ring_cell(center: Axial, n: int, i: int) -> Axial {
    if i < n {
        Axial { x: center.x - n + i, y: center.y + n }
    } else if i < 2 * n {
        Axial { x: center.x + (i - n), y: center.y + n - (i - n) }
    } else if i < 3 * n {
        Axial { x: center.x + n, y: center.y - (i - 2 * n) }
    } else if i < 4 * n {
        Axial { x: center.x + n - (i - 3 * n), y: center.y - n }
    } else if i < 5 * n {
        Axial { x: center.x - (i - 4 * n), y: center.y - n + (i - 4 * n) }
    } else {
        Axial { x: center.x - n, y: center.y + (i - 5 * n) }
    }
}

/// The ring of radius `n` around `center` as a sequence: the centre alone for
/// `n == 0`, otherwise the `6 * n` cells of [`ring_cell`].
pub open spec fn ring_cells(center: Axial, n: int) -> Seq<Axial> {
    if n <= 0 {
        seq![center]
    } else {
        Seq::new((6 * n) as nat, |i: int| ring_cell(center, n, i))
    }
}

/// The place of `c` in the ring of radius `n >= 1` around `center`, for a
/// cell `c` at distance `n` from it: the inverse of [`ring_cell`].
pub open spec fn ring_position(center: Axial, n: int, c: Axial) -> int {
    let dx = c.x - center.x;
    let dy = c.y - center.y;
    if dy == n && dx < 0 {
        dx + n
    } else if dx + dy == n && 0 <= dx < n {
        n + dx
    } else if dx == n && dy > -n {
        2 * n - dy
    } else if dy == -n && dx > 0 {
        4 * n - dx
    } else if dx + dy == -n && -n < dx <= 0 {
        4 * n - dx
    } else {
        5 * n + dy
    }
}

/// The hex distance is the largest of the three cube-coordinate differences.
pub proof fn lemma_distance_is_largest(a: Axial, b: Axial)
    ensures
        a.distance(b) == largest(
            magnitude(a.x - b.x),
            magnitude(a.y - b.y),
            magnitude(a.z() - b.z()),
        ),
        a.distance(b) >= 0,
{
}

/// The hex distance is symmetric.
pub proof fn lemma_distance_symmetric(a: Axial, b: Axial)
    ensures
        a.distance(b) == b.distance(a),
{
}

/// Two cells are at distance zero exactly when they are the same cell.
pub proof fn lemma_distance_zero(a: Axial, b: Axial)
    ensures
        a.distance(b) == 0 <==> a == b,
{
    lemma_distance_is_largest(a, b);
}

/// The hex distance satisfies the triangle inequality.
pub proof fn lemma_distance_triangle(a: Axial, b: Axial, c: Axial)
    ensures
        a.distance(c) <= a.distance(b) + b.distance(c),
{
    lemma_distance_is_largest(a, b);
    lemma_distance_is_largest(b, c);
    lemma_distance_is_largest(a, c);
}

/// Each of the six neighbours of a cell is at distance one from it.
pub proof fn lemma_neighbor_distance(c: Axial, k: int)
    requires
        0 <= k < 6,
    ensures
        c.distance(c.neighbor(k)) == 1,
{
}

/// The six neighbours of a cell are pairwise distinct.
pub proof fn lemma_neighbors_distinct(c: Axial, j: int, k: int)
    requires
        0 <= j < 6,
        0 <= k < 6,
        j != k,
    ensures
        c.neighbor(j) != c.neighbor(k),
{
}

/// The cells at distance one from a cell are exactly its six neighbours.
pub proof fn lemma_adjacent_is_distance_one(a: Axial, b: Axial)
    ensures
        a.adjacent(b) <==> a.distance(b) == 1,
{
    if a.adjacent(b) {
        let k = choose|k: int| 0 <= k < 6 && #[trigger] a.neighbor(k) == b;
        lemma_neighbor_distance(a, k);
    }
    if a.distance(b) == 1 {
        lemma_distance_is_largest(a, b);
        let dx = b.x - a.x;
        let dy = b.y - a.y;
        let k: int = if dx == 0 && dy == 1 {
            0
        } else if dx == 1 && dy == 0 {
            1
        } else if dx == 1 && dy == -1 {
            2
        } else if dx == 0 && dy == -1 {
            3
        } else if dx == -1 && dy == 0 {
            4
        } else {
            5
        };
        assert(a.neighbor(k) == b);
    }
}

/// Adjacency is symmetric: `b` is a neighbour of `a` exactly when `a` is a
/// neighbour of `b`.
pub proof fn lemma_adjacency_symmetric(a: Axial, b: Axial)
    ensures
        a.adjacent(b) <==> b.adjacent(a),
{
    lemma_adjacent_is_distance_one(a, b);
    lemma_adjacent_is_distance_one(b, a);
    lemma_distance_symmetric(a, b);
}

/// Every cell of a ring lies at the ring's radius from its centre.
pub proof fn lemma_ring_cell_distance(center: Axial, n: int, i: int)
    requires
        n >= 1,
        0 <= i < 6 * n,
    ensures
        center.distance(ring_cell(center, n, i)) == n,
{
}

/// A ring holds each of its cells at the place that [`ring_position`] gives:
/// no cell occurs twice.
pub proof fn lemma_ring_position_of_cell(center: Axial, n: int, i: int)
    requires
        n >= 1,
        0 <= i < 6 * n,
    ensures
        ring_position(center, n, ring_cell(center, n, i)) == i,
{
}

/// A ring holds every cell at its radius from the centre, at the place that
/// [`ring_position`] gives.
pub proof fn lemma_ring_cell_of_position(center: Axial, n: int, c: Axial)
    requires
        n >= 1,
        center.distance(c) == n,
    ensures
        0 <= ring_position(center, n, c) < 6 * n,
        ring_cell(center, n, ring_position(center, n, c)) == c,
{
    lemma_distance_is_largest(center, c);
}

/// A ring is the circle of its radius: it holds exactly the cells at that
/// distance from the centre, each of them once.
pub proof fn lemma_ring_is_circle(center: Axial, n: int)
    requires
        n >= 0,
    ensures
        ring_cells(center, n).len() == if n == 0 { 1 } else { 6 * n },
        ring_cells(center, n).no_duplicates(),
        forall|c: Axial| #[trigger]
            ring_cells(center, n).contains(c) <==> center.distance(c) == n,
{
    let ring = ring_cells(center, n);
    if n == 0 {
        assert forall|c: Axial| #[trigger] ring.contains(c) <==> center.distance(c) == n by {
            lemma_distance_zero(center, c);
            if c == center {
                assert(ring[0] == c);
            }
        }
    } else {
        assert forall|i: int, j: int| 0 <= i < ring.len() && 0 <= j < ring.len() && i != j implies ring[i] != ring[j] by {
            lemma_ring_position_of_cell(center, n, i);
            lemma_ring_position_of_cell(center, n, j);
        }
        assert forall|c: Axial| #[trigger] ring.contains(c) <==> center.distance(c) == n by {
            if ring.contains(c) {
                let i = choose|i: int| 0 <= i < ring.len() && ring[i] == c;
                lemma_ring_cell_distance(center, n, i);
            }
            if center.distance(c) == n {
                lemma_ring_cell_of_position(center, n, c);
                assert(ring[ring_position(center, n, c)] == c);
            }
        }
    }
}

} // verus!
