//! The executable coordinate type.
//!
//! The geometry itself (distance, neighbours, rings) is computed by the
//! `hex2d` crate. The three functions at the end of this file make those
//! calls; their contracts are taken on trust from that crate's source, and
//! everything else is proved from them.

use vstd::prelude::*;
use crate::axial::{
    Axial, lemma_distance_is_largest, lemma_neighbor_distance, lemma_neighbors_distinct,
    lemma_ring_is_circle, ring_cells,
};

verus! {

/// The largest absolute value of a coordinate component on which the
/// geometry is computed: within it no intermediate result leaves `i32`.
pub const COORD_LIMIT: i32 = 134_217_728;

/// One hexagonal cell, addressed by a pair of signed axial coordinates.
#[derive(Clone, Copy, Debug, PartialEq, Eq, Hash, Structural)]
pub struct HexCoordinate {
    pub x: i32,
    pub y: i32,
}

impl View for HexCoordinate {
    type V = Axial;

    open spec fn view(&self) -> Axial {
        Axial { x: self.x as int, y: self.y as int }
    }
}

/// The cells that a sequence of coordinates stands for, in the same order.
pub open spec fn cells_of(coords: Seq<HexCoordinate>) -> Seq<Axial> {
    Seq::new(coords.len(), |i: int| coords[i]@)
}

impl HexCoordinate {
    /// Whether both components lie within [`COORD_LIMIT`] of zero.
    pub open spec fn in_range(self) -> bool {
        &&& -COORD_LIMIT <= self.x <= COORD_LIMIT
        &&& -COORD_LIMIT <= self.y <= COORD_LIMIT
    }

    /// The cell with the given axial coordinates.
    pub fn new(x: i32, y: i32) -> (c: HexCoordinate)
        ensures
            c.x == x,
            c.y == y,
    {
        HexCoordinate { x, y }
    }

    /// The centre of the plane.
    pub fn origin() -> (c: HexCoordinate)
        ensures
            c@ == Axial::origin(),
            c.in_range(),
    {
        HexCoordinate { x: 0, y: 0 }
    }

    /// Tells whether the geometry can be computed on this coordinate.
    pub fn is_in_range(&self) -> (ok: bool)
        ensures
            ok == self.in_range(),
    {
        -COORD_LIMIT <= self.x && self.x <= COORD_LIMIT && -COORD_LIMIT <= self.y && self.y
            <= COORD_LIMIT
    }

    /// The hex distance to `other`: the least number of steps between
    /// adjacent cells that leads from one to the other.
    pub fn distance(&self, other: HexCoordinate) -> (d: i32)
        requires
            self.in_range(),
            other.in_range(),
        ensures
            d == self@.distance(other@),
            d >= 0,
    {
        proof {
            lemma_distance_is_largest(self@, other@);
        }
        hex2d_distance(*self, other)
    }

    /// The six adjacent cells, in the fixed clockwise order of
    /// [`crate::axial::direction`].
    pub fn neighbors(&self) -> (around: [HexCoordinate; 6])
        requires
            self.in_range(),
        ensures
            forall|k: int| 0 <= k < 6 ==> (#[trigger] around[k])@ == self@.neighbor(k),
            forall|k: int| 0 <= k < 6 ==> self@.distance((#[trigger] around[k])@) == 1,
            forall|j: int, k: int|
                0 <= j < 6 && 0 <= k < 6 && j != k ==> (#[trigger] around[j]) != (
                #[trigger] around[k]),
    {
        let around = hex2d_neighbors(*self);
        proof {
            assert forall|j: int, k: int| 0 <= j < 6 && 0 <= k < 6 && j != k implies (
            #[trigger] around[j]) != (#[trigger] around[k]) by {
                lemma_neighbors_distinct(self@, j, k);
            }
            assert forall|k: int| 0 <= k < 6 implies self@.distance((#[trigger] around[k])@)
                == 1 by {
                lemma_neighbor_distance(self@, k);
            }
        }
        around
    }

    /// The ring of radius `n` around this cell: every cell at distance `n`
    /// from it, once each, clockwise from the corner in direction 5.
    pub fn ring(&self, n: i32) -> (cells: Vec<HexCoordinate>)
        requires
            self.in_range(),
            0 <= n <= COORD_LIMIT,
        ensures
            cells_of(cells@) == ring_cells(self@, n as int),
            cells@.len() == if n == 0 { 1 } else { 6 * n },
            cells_of(cells@).no_duplicates(),
            forall|c: Axial| #[trigger]
                cells_of(cells@).contains(c) <==> self@.distance(c) == n,
    {
        proof {
            lemma_ring_is_circle(self@, n as int);
        }
        hex2d_ring(*self, n)
    }
}

/// Calls `hex2d::Coordinate::distance`.
///
/// That function halves the sum of the absolute differences of the three
/// cube coordinates, in `i32` arithmetic; the contract claims that result
/// for components small enough that no step of it overflows.
#[verifier::external_body]
fn hex2d_distance(a: HexCoordinate, b: HexCoordinate) -> (d: i32)
    requires
        a.in_range(),
        b.in_range(),
    ensures
        d == a@.distance(b@),
{
    hex2d::Coordinate::new(a.x, a.y).distance(hex2d::Coordinate::new(b.x, b.y))
}

/// Calls `hex2d::Coordinate::neighbors`.
///
/// That function returns the coordinate plus each of the six unit steps, in
/// the order `YZ`, `XZ`, `XY`, `ZY`, `ZX`, `YX`; the contract claims those
/// six sums, for components that leave room for the step.
#[verifier::external_body]
fn hex2d_neighbors(c: HexCoordinate) -> (around: [HexCoordinate; 6])
    requires
        c.in_range(),
    ensures
        forall|k: int| 0 <= k < 6 ==> (#[trigger] around[k])@ == c@.neighbor(k),
{
    hex2d::Coordinate::new(c.x, c.y).neighbors().map(|h| HexCoordinate { x: h.x, y: h.y })
}

/// Calls `hex2d::Coordinate::ring` with the spin `CW(YX)`.
///
/// For a radius of zero that function returns the centre alone. Otherwise it
/// starts `n` steps from the centre in direction `YX` and walks six sides of
/// `n` cells each, in directions `XZ`, `XY`, `ZY`, `ZX`, `YX`, `YZ`; the
/// contract claims that sequence, for a centre and a radius that keep every
/// cell of the walk within `i32`.
#[verifier::external_body]
#[allow(deprecated)]
fn hex2d_ring(center: HexCoordinate, n: i32) -> (cells: Vec<HexCoordinate>)
    requires
        center.in_range(),
        0 <= n <= COORD_LIMIT,
    ensures
        cells_of(cells@) == ring_cells(center@, n as int),
{
    let spin = hex2d::Spin::CW(hex2d::Direction::YX);
    let ring = hex2d::Coordinate::new(center.x, center.y).ring(n, spin);
    ring.iter().map(|h| HexCoordinate { x: h.x, y: h.y }).collect()
}

} // verus!
