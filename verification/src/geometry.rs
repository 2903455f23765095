//! Fixed-point world geometry.
//!
//! World positions are stored as whole thousandths of a world unit, so that
//! every distance test of the simulation is exact integer arithmetic.

use vstd::prelude::*;

verus! {

/// Number of fixed-point steps in one world unit.
pub const UNIT: i32 = 1000;

/// Side length of a chunk, in world units.
pub const CHUNK_SIZE: i32 = 64;

/// Side length of a chunk, in fixed-point steps.
pub const CHUNK_SPAN: i32 = 64000;

/// A position on the world plane, in thousandths of a world unit.
#[derive(Clone, Copy, Debug, PartialEq, Eq, Structural, Hash)]
pub struct Point {
    pub x: i32,
    pub y: i32,
}

/// The grid cell of a chunk: one square region of side `CHUNK_SIZE`.
#[derive(Clone, Copy, Debug, PartialEq, Eq, Structural, Hash)]
pub struct ChunkCoord {
    pub x: i32,
    pub y: i32,
}

/// Squared Euclidean distance between two integer pairs.
pub open spec fn dist_sq(ax: int, ay: int, bx: int, by: int) -> int {
    (ax - bx) * (ax - bx) + (ay - by) * (ay - by)
}

/// `v` limited to the range of a coordinate.
pub open spec fn clamp_coord(v: int) -> int {
    if v < i32::MIN {
        i32::MIN as int
    } else if v > i32::MAX {
        i32::MAX as int
    } else {
        v
    }
}

/// The square of a coordinate difference.
fn square(d: i64) -> (s: u128)
    requires
        -0x1_0000_0000 < d < 0x1_0000_0000,
    ensures
        s == d * d,
        s < 0x1_0000_0000_0000_0000,
{
    let a: u64 = if d < 0 { (-d) as u64 } else { d as u64 };
    assert(a * a == d * d) by (nonlinear_arith)
        requires
            a == d || a == -d,
    ;
    assert(a * a < 0x1_0000_0000_0000_0000) by (nonlinear_arith)
        requires
            0 <= a < 0x1_0000_0000,
    ;
    (a as u128) * (a as u128)
}

/// Squared Euclidean distance between two integer pairs.
fn pair_distance_squared(ax: i32, ay: i32, bx: i32, by: i32) -> (d: u128)
    ensures
        d == dist_sq(ax as int, ay as int, bx as int, by as int),
{
    let dx: i64 = ax as i64 - bx as i64;
    let dy: i64 = ay as i64 - by as i64;
    square(dx) + square(dy)
}

/// A coordinate moved by `delta`, held at the ends of the coordinate range.
fn shift_coord(v: i32, delta: i64) -> (r: i32)
    ensures
        r == clamp_coord(v + delta),
{
    // a move beyond the width of the range ends at the same place as one
    // of that width
    let step: i64 = if delta > 0x1_0000_0000 {
        0x1_0000_0000
    } else if delta < -0x1_0000_0000 {
        -0x1_0000_0000
    } else {
        delta
    };
    let moved: i64 = v as i64 + step;
    if moved < i32::MIN as i64 {
        i32::MIN
    } else if moved > i32::MAX as i64 {
        i32::MAX
    } else {
        moved as i32
    }
}

impl Point {
    /// Squared distance to `other`, in squared fixed-point steps.
    pub open spec fn dist_sq(self, other: Point) -> int {
        dist_sq(self.x as int, self.y as int, other.x as int, other.y as int)
    }

    /// Whether `self` lies strictly inside the disc around `center`.
    pub open spec fn inside(self, center: Point, radius: u32) -> bool {
        self.dist_sq(center) < radius * radius
    }

    /// The point moved by `(dx, dy)`, each coordinate held at the ends of
    /// the coordinate range.
    pub open spec fn shifted(self, dx: int, dy: int) -> Point {
        Point { x: clamp_coord(self.x + dx) as i32, y: clamp_coord(self.y + dy) as i32 }
    }

    /// The chunk whose region holds the point.
    pub open spec fn chunk_of(self) -> ChunkCoord {
        ChunkCoord { x: (self.x as int / 64000) as i32, y: (self.y as int / 64000) as i32 }
    }

    pub fn new(x: i32, y: i32) -> (p: Point)
        ensures
            p == (Point { x, y }),
    {
        Point { x, y }
    }

    /// Squared distance to `other`.
    pub fn distance_squared(&self, other: &Point) -> (d: u128)
        ensures
            d == self.dist_sq(*other),
    {
        pair_distance_squared(self.x, self.y, other.x, other.y)
    }

    /// Whether the point lies strictly inside the disc of `radius` around
    /// `center`. A point on the rim is outside.
    pub fn within(&self, center: &Point, radius: u32) -> (b: bool)
        ensures
            b == self.inside(*center, radius),
    {
        let r: u128 = radius as u128;
        assert(r * r == radius * radius);
        assert(r * r < 0x1_0000_0000_0000_0000) by (nonlinear_arith)
            requires
                0 <= r < 0x1_0000_0000,
        ;
        self.distance_squared(center) < r * r
    }

    /// The point moved by `(dx, dy)`; a coordinate that would leave the
    /// coordinate range stays at its end.
    pub fn offset(&self, dx: i64, dy: i64) -> (p: Point)
        ensures
            p == self.shifted(dx as int, dy as int),
    {
        Point { x: shift_coord(self.x, dx), y: shift_coord(self.y, dy) }
    }

    /// The chunk whose region holds the point: each coordinate divided by the
    /// chunk span, rounded down.
    pub fn chunk(&self) -> (c: ChunkCoord)
        ensures
            c == self.chunk_of(),
    {
        ChunkCoord { x: floor_div_span(self.x), y: floor_div_span(self.y) }
    }
}

/// `v` divided by the chunk span, rounded toward negative infinity.
fn floor_div_span(v: i32) -> (q: i32)
    ensures
        q == v as int / 64000,
{
    let a: i32 = v / CHUNK_SPAN;
    let b: i32 = v % CHUNK_SPAN;
    if b < 0 {
        a - 1
    } else {
        a
    }
}

impl ChunkCoord {
    /// Squared distance to `other`, in squared chunks.
    pub open spec fn dist_sq(self, other: ChunkCoord) -> int {
        dist_sq(self.x as int, self.y as int, other.x as int, other.y as int)
    }

    pub fn new(x: i32, y: i32) -> (c: ChunkCoord)
        ensures
            c == (ChunkCoord { x, y }),
    {
        ChunkCoord { x, y }
    }

    /// Squared distance to `other`.
    pub fn distance_squared(&self, other: &ChunkCoord) -> (d: u128)
        ensures
            d == self.dist_sq(*other),
    {
        pair_distance_squared(self.x, self.y, other.x, other.y)
    }
}

} // verus!
