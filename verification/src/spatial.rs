//! A read-only snapshot of tracked points that answers radius queries.
//!
//! The snapshot is rebuilt by its owner on a fixed cadence and may lag behind
//! the set of live entities: a consumer must be ready to find that an entity
//! named by a hit no longer exists.

use vstd::prelude::*;
use crate::geometry::Point;

verus! {

/// One tracked point: where it was when the snapshot was taken, and the
/// identifier of the entity that stood there.
#[derive(Clone, Copy, Debug, PartialEq, Eq, Structural)]
pub struct IndexEntry {
    pub pos: Point,
    pub id: u64,
}

/// A snapshot of tracked points.
pub struct SpatialIndex {
    entries: Vec<IndexEntry>,
}

/// The entries of `entries` that lie strictly inside the disc of `radius`
/// around `center`, in their order in `entries`.
pub open spec fn hits(entries: Seq<IndexEntry>, center: Point, radius: u32) -> Seq<IndexEntry> {
    entries.filter(|e: IndexEntry| e.pos.inside(center, radius))
}

/// The identifiers of `entries`, in order.
pub open spec fn ids(entries: Seq<IndexEntry>) -> Seq<u64> {
    entries.map_values(|e: IndexEntry| e.id)
}

impl View for SpatialIndex {
    type V = Seq<IndexEntry>;

    closed spec fn view(&self) -> Seq<IndexEntry> {
        self.entries@
    }
}

impl SpatialIndex {
    /// A snapshot that tracks nothing.
    pub fn new() -> (index: SpatialIndex)
        ensures
            index@ == Seq::<IndexEntry>::empty(),
    {
        SpatialIndex { entries: Vec::new() }
    }

    /// A snapshot of exactly `entries`.
    pub fn build(entries: Vec<IndexEntry>) -> (index: SpatialIndex)
        ensures
            index@ == entries@,
    {
        SpatialIndex { entries }
    }

    /// Number of tracked points.
    pub fn len(&self) -> (n: usize)
        ensures
            n == self@.len(),
    {
        self.entries.len()
    }

    /// Every tracked point strictly closer to `center` than `radius`, in
    /// snapshot order. A point at distance exactly `radius` is no hit.
    pub fn within_distance(&self, center: &Point, radius: u32) -> (out: Vec<IndexEntry>)
        ensures
            out@ == hits(self@, *center, radius),
    {
        let ghost pred = |e: IndexEntry| e.pos.inside(*center, radius);
        let mut out: Vec<IndexEntry> = Vec::new();
        let mut i: usize = 0;
        proof {
            reveal(Seq::filter);
            assert(self.entries@.take(0) =~= Seq::<IndexEntry>::empty());
        }
        while i < self.entries.len()
            invariant
                i <= self.entries.len(),
                pred == (|e: IndexEntry| e.pos.inside(*center, radius)),
                out@ == self.entries@.take(i as int).filter(pred),
            decreases self.entries.len() - i,
        {
            let entry: IndexEntry = self.entries[i];
            proof {
                self.entries@.lemma_take_succ_push(i as int);
                self.entries@.take(i as int).lemma_filter_push(entry, pred);
            }
            if entry.pos.within(center, radius) {
                out.push(entry);
            }
            i = i + 1;
        }
        proof {
            assert(self.entries@.take(i as int) =~= self.entries@);
        }
        out
    }
}

} // verus!
