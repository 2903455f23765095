//! Content placement: what a freshly generated chunk holds.
//!
//! A chunk is divided into `CHUNK_SUBDIV` cells along each axis. For every
//! cell the host samples the density field and draws the draws;
//! the functions below decide from those plain values what is placed in the
//! cell. Where inside its cell an item ends up, and how large it is, is left
//! to the host.

use vstd::prelude::*;
use crate::geometry::{ChunkCoord, CHUNK_SIZE};
use crate::space::density::{
    asteroid_distribution,
    asteroid_distribution_spec,
    explosive_orb_distribution,
    explosive_orb_distribution_spec,
    is_isqrt,
};
use crate::space::ledger::PopulatedChunks;
use crate::space::PopulateChunk;

verus! {

/// Number of gas orbs wanted on a thousand square units.
pub const MAX_CLOUD_DENSITY: u16 = 30;

/// Number of cells along each axis of a chunk.
pub const CHUNK_SUBDIV: u32 = 11;

/// Number of cells of a chunk.
pub const CHUNK_CELLS: usize = 121;

/// Density above which a cell holds a gas orb.
pub const ORB_THRESHOLD: i32 = 100_000;

/// Level of the asteroid curve above which a cell may hold an asteroid.
pub const ASTEROID_LEVEL: u32 = 600_000;

/// Level of the explosive-orb curve above which a cell may hold an
/// explosive orb.
pub const EXPLOSIVE_ORB_LEVEL: u32 = 700_000;

/// Level of the explosive-orb curve above which a cell of the intro region
/// may hold an explosive orb.
pub const INTRO_EXPLOSIVE_ORB_LEVEL: u32 = 500_000;

/// A draw, in thousandths, must reach this to let an asteroid through.
pub const ASTEROID_BAR: u16 = 999;

/// A draw, in thousandths, must reach this to let an explosive orb through.
pub const EXPLOSIVE_ORB_BAR: u16 = 990;

/// A draw, in thousandths, must reach this to let an explosive orb of the
/// intro region through.
pub const INTRO_EXPLOSIVE_ORB_BAR: u16 = 950;

/// Radius around the world origin, in world units, inside which the intro
/// region's own content is placed as well.
pub const INTRO_SCENE_RADIUS: i32 = 2000;

/// What the host has sampled and drawn for one cell.
#[derive(Clone, Copy, Debug, PartialEq, Eq, Structural)]
pub struct CellSample {
    /// The density field at the cell, in millionths.
    pub density: i32,
    /// The intro region's density field at the cell, in millionths.
    pub intro_density: i32,
    /// The draw that decides on an asteroid, in thousandths of one.
    pub asteroid_draw: u16,
    /// The draw that decides on an explosive orb, in thousandths of one.
    pub explosive_draw: u16,
    /// The draw that decides on an explosive orb of the intro region, in
    /// thousandths of one.
    pub intro_explosive_draw: u16,
}

/// What is placed in a cell.
#[derive(Clone, Copy, Debug, PartialEq, Eq, Structural)]
pub enum SpawnKind {
    /// A gas orb of the given mass: the density that called for it.
    GasOrb(i32),
    /// An asteroid.
    Asteroid,
    /// An explosive orb.
    RedGasOrb,
}

/// One item to place: what, and in which cell of the chunk.
#[derive(Clone, Copy, Debug, PartialEq, Eq, Structural)]
pub struct Spawn {
    pub cell_x: u32,
    pub cell_y: u32,
    pub kind: SpawnKind,
}

/// How a placement that hangs on a draw ends.
#[derive(Clone, Copy, Debug, PartialEq, Eq, Structural)]
pub enum Sieve {
    /// The curve does not call for the item: nothing is placed, and the
    /// cell's later placements are considered.
    Pass,
    /// The curve calls for the item but the draw holds it back: nothing is
    /// placed, and nothing more is placed in the cell.
    Stop,
    /// The item is placed, and the cell's later placements are considered.
    Place,
}

/// Why a chunk was not populated.
#[derive(Clone, Copy, Debug, PartialEq, Eq, Structural)]
pub enum PopulateError {
    /// The ledger already holds the chunk.
    AlreadyPopulated,
    /// The samples are not one per cell of the chunk.
    SampleCount,
}

/// The outcome of a placement that hangs on a draw: `level` is what the curve gives,
/// `threshold` what it must exceed, `draw` the draw and `bar` what
/// the draw must reach.
pub open spec fn sieve_spec(level: int, threshold: int, draw: int, bar: int) -> Sieve {
    if level > threshold {
        if draw < bar {
            Sieve::Stop
        } else {
            Sieve::Place
        }
    } else {
        Sieve::Pass
    }
}

/// `kinds` with `kind` added if the sieve places it.
pub open spec fn placed(kinds: Seq<SpawnKind>, sieve: Sieve, kind: SpawnKind) -> Seq<SpawnKind> {
    if sieve == Sieve::Place {
        kinds.push(kind)
    } else {
        kinds
    }
}

/// `kinds` with a gas orb of mass `density` added if the density exceeds
/// the threshold.
pub open spec fn with_gas(kinds: Seq<SpawnKind>, density: i32) -> Seq<SpawnKind> {
    if density > ORB_THRESHOLD {
        kinds.push(SpawnKind::GasOrb(density))
    } else {
        kinds
    }
}

/// The sieve of the cell's asteroid.
pub open spec fn asteroid_sieve(s: CellSample) -> Sieve {
    sieve_spec(
        asteroid_distribution_spec(s.density as int),
        ASTEROID_LEVEL as int,
        s.asteroid_draw as int,
        ASTEROID_BAR as int,
    )
}

/// The sieve of the cell's explosive orb.
pub open spec fn explosive_sieve(s: CellSample) -> Sieve {
    sieve_spec(
        explosive_orb_distribution_spec(s.density as int),
        EXPLOSIVE_ORB_LEVEL as int,
        s.explosive_draw as int,
        EXPLOSIVE_ORB_BAR as int,
    )
}

/// The sieve of the cell's explosive orb of the intro region.
pub open spec fn intro_explosive_sieve(s: CellSample) -> Sieve {
    sieve_spec(
        explosive_orb_distribution_spec(s.intro_density as int),
        INTRO_EXPLOSIVE_ORB_LEVEL as int,
        s.intro_explosive_draw as int,
        INTRO_EXPLOSIVE_ORB_BAR as int,
    )
}

/// What is placed in a cell, in the order of placement: a gas orb where the
/// density exceeds the threshold; then an asteroid and an explosive orb,
/// each where its curve calls for it and its draw lets it through; then,
/// near the world origin, the same for the intro region's density. A draw
/// that holds an item back ends the cell.
pub open spec fn cell_kinds(s: CellSample, near_origin: bool) -> Seq<SpawnKind> {
    let gas = with_gas(Seq::empty(), s.density);
    if asteroid_sieve(s) == Sieve::Stop {
        gas
    } else {
        let rocks = placed(gas, asteroid_sieve(s), SpawnKind::Asteroid);
        if explosive_sieve(s) == Sieve::Stop {
            rocks
        } else {
            let orbs = placed(rocks, explosive_sieve(s), SpawnKind::RedGasOrb);
            if near_origin {
                placed(
                    with_gas(orbs, s.intro_density),
                    intro_explosive_sieve(s),
                    SpawnKind::RedGasOrb,
                )
            } else {
                orbs
            }
        }
    }
}

/// Whether the cell `(ix, iy)` of `chunk` lies near the world origin: its
/// corner is closer to the origin than `INTRO_SCENE_RADIUS`. The corner
/// stands at `CHUNK_SIZE * (chunk + index / CHUNK_SUBDIV)` world units;
/// both sides of the comparison are taken `CHUNK_SUBDIV` times as large,
/// which keeps them whole.
pub open spec fn cell_near_origin(chunk: ChunkCoord, ix: int, iy: int) -> bool {
    let sx = CHUNK_SIZE * (CHUNK_SUBDIV * chunk.x + ix);
    let sy = CHUNK_SIZE * (CHUNK_SUBDIV * chunk.y + iy);
    let reach = CHUNK_SUBDIV * INTRO_SCENE_RADIUS;
    sx * sx + sy * sy < reach * reach
}

/// What is placed in the cell of index `idx`, counted row by row.
pub open spec fn cell_spawns(chunk: ChunkCoord, samples: Seq<CellSample>, idx: int) -> Seq<Spawn> {
    cell_kinds(samples[idx], cell_near_origin(chunk, idx % 11, idx / 11)).map_values(
        |kind: SpawnKind| Spawn { cell_x: (idx % 11) as u32, cell_y: (idx / 11) as u32, kind },
    )
}

/// What is placed in the first `cells` cells of the chunk.
pub open spec fn spawns_upto(chunk: ChunkCoord, samples: Seq<CellSample>, cells: nat) -> Seq<Spawn>
    decreases cells,
{
    if cells == 0 {
        Seq::empty()
    } else {
        spawns_upto(chunk, samples, (cells - 1) as nat) + cell_spawns(chunk, samples, cells - 1)
    }
}

/// Everything that is placed in the chunk.
pub open spec fn chunk_spawns(chunk: ChunkCoord, samples: Seq<CellSample>) -> Seq<Spawn> {
    spawns_upto(chunk, samples, CHUNK_CELLS as nat)
}

/// Decides a placement that hangs on a draw.
pub fn sieve(level: u32, threshold: u32, draw: u16, bar: u16) -> (outcome: Sieve)
    ensures
        outcome == sieve_spec(level as int, threshold as int, draw as int, bar as int),
{
    if level > threshold {
        if draw < bar {
            Sieve::Stop
        } else {
            Sieve::Place
        }
    } else {
        Sieve::Pass
    }
}

/// Whether the cell `(ix, iy)` of `chunk` lies near the world origin.
pub fn near_origin(chunk: &ChunkCoord, ix: u32, iy: u32) -> (near: bool)
    ensures
        near == cell_near_origin(*chunk, ix as int, iy as int),
{
    let side: i128 = CHUNK_SIZE as i128;
    let cells: i128 = CHUNK_SUBDIV as i128;
    let reach: i128 = cells * INTRO_SCENE_RADIUS as i128;
    assert(reach == 22000);
    let sx: i128 = side * (cells * (chunk.x as i128) + ix as i128);
    let sy: i128 = side * (cells * (chunk.y as i128) + iy as i128);
    assert(0 <= sx * sx <= 0x1_0000_0000_0000 * 0x1_0000_0000_0000) by (nonlinear_arith)
        requires
            -0x1_0000_0000_0000 <= sx <= 0x1_0000_0000_0000,
    ;
    assert(0 <= sy * sy <= 0x1_0000_0000_0000 * 0x1_0000_0000_0000) by (nonlinear_arith)
        requires
            -0x1_0000_0000_0000 <= sy <= 0x1_0000_0000_0000,
    ;
    sx * sx + sy * sy < reach * reach
}

/// What is placed in one cell, in the order of placement.
pub fn cell_content(sample: &CellSample, near_origin: bool) -> (kinds: Vec<SpawnKind>)
    ensures
        kinds@ == cell_kinds(*sample, near_origin),
{
    let mut kinds: Vec<SpawnKind> = Vec::new();
    if sample.density > ORB_THRESHOLD {
        kinds.push(SpawnKind::GasOrb(sample.density));
    }
    let rock: Sieve = sieve(
        asteroid_distribution(sample.density),
        ASTEROID_LEVEL,
        sample.asteroid_draw,
        ASTEROID_BAR,
    );
    match rock {
        Sieve::Stop => {
            return kinds;
        },
        Sieve::Place => {
            kinds.push(SpawnKind::Asteroid);
        },
        Sieve::Pass => {},
    }
    let orb: Sieve = sieve(
        explosive_orb_distribution(sample.density),
        EXPLOSIVE_ORB_LEVEL,
        sample.explosive_draw,
        EXPLOSIVE_ORB_BAR,
    );
    match orb {
        Sieve::Stop => {
            return kinds;
        },
        Sieve::Place => {
            kinds.push(SpawnKind::RedGasOrb);
        },
        Sieve::Pass => {},
    }
    if near_origin {
        if sample.intro_density > ORB_THRESHOLD {
            kinds.push(SpawnKind::GasOrb(sample.intro_density));
        }
        let intro_orb: Sieve = sieve(
            explosive_orb_distribution(sample.intro_density),
            INTRO_EXPLOSIVE_ORB_LEVEL,
            sample.intro_explosive_draw,
            INTRO_EXPLOSIVE_ORB_BAR,
        );
        match intro_orb {
            Sieve::Place => {
                kinds.push(SpawnKind::RedGasOrb);
            },
            _ => {},
        }
    }
    kinds
}

/// Populates the chunk named by `event` and records `container` as its
/// owner. `samples` holds one sample per cell, row by row from the lowest
/// `y`, each row from the lowest `x`. Returns what the host has to place,
/// cell by cell in the same order.
///
/// A chunk that the ledger already holds is not populated again, and
/// samples that are not one per cell populate nothing; the ledger is then
/// left as it was.
pub fn populate_chunk(
    event: &PopulateChunk,
    container: u64,
    samples: &Vec<CellSample>,
    populated: &mut PopulatedChunks,
) -> (result: Result<Vec<Spawn>, PopulateError>)
    ensures
        match result {
            Ok(spawns) => {
                &&& !old(populated)@.contains_key(event.0)
                &&& samples@.len() == CHUNK_CELLS
                &&& spawns@ == chunk_spawns(event.0, samples@)
                &&& final(populated)@ == old(populated)@.insert(event.0, container)
            },
            Err(PopulateError::AlreadyPopulated) => {
                &&& old(populated)@.contains_key(event.0)
                &&& final(populated)@ == old(populated)@
            },
            Err(PopulateError::SampleCount) => {
                &&& !old(populated)@.contains_key(event.0)
                &&& samples@.len() != CHUNK_CELLS
                &&& final(populated)@ == old(populated)@
            },
        },
{
    if populated.contains_key(&event.0) {
        return Err(PopulateError::AlreadyPopulated);
    }
    if samples.len() != CHUNK_CELLS {
        return Err(PopulateError::SampleCount);
    }
    let chunk: ChunkCoord = event.0;
    let mut spawns: Vec<Spawn> = Vec::new();
    let mut idx: usize = 0;
    while idx < CHUNK_CELLS
        invariant
            idx <= CHUNK_CELLS,
            samples@.len() == CHUNK_CELLS,
            chunk == event.0,
            spawns@ == spawns_upto(chunk, samples@, idx as nat),
        decreases CHUNK_CELLS - idx,
    {
        let ix: u32 = (idx % 11) as u32;
        let iy: u32 = (idx / 11) as u32;
        let near: bool = near_origin(&chunk, ix, iy);
        let kinds: Vec<SpawnKind> = cell_content(&samples[idx], near);
        let ghost base = spawns@;
        let ghost cell = cell_spawns(chunk, samples@, idx as int);
        let mut k: usize = 0;
        while k < kinds.len()
            invariant
                k <= kinds.len(),
                idx < CHUNK_CELLS,
                ix == idx % 11,
                iy == idx / 11,
                cell.len() == kinds@.len(),
                forall|j: int|
                    0 <= j < cell.len() ==> #[trigger] cell[j] == (Spawn {
                        cell_x: ix,
                        cell_y: iy,
                        kind: kinds@[j],
                    }),
                spawns@ == base + cell.take(k as int),
            decreases kinds.len() - k,
        {
            spawns.push(Spawn { cell_x: ix, cell_y: iy, kind: kinds[k] });
            proof {
                cell.lemma_take_succ_push(k as int);
                assert(spawns@ =~= base + cell.take(k as int + 1));
            }
            k = k + 1;
        }
        proof {
            assert(cell.take(k as int) =~= cell);
        }
        idx = idx + 1;
    }
    populated.insert(chunk, container);
    Ok(spawns)
}

/// The number of cells along each axis of a chunk is the integer square
/// root of the number of cells wanted: the density of the cloud times the
/// area of a chunk.
pub proof fn lemma_subdivisions_fit_the_density()
    ensures
        is_isqrt(MAX_CLOUD_DENSITY * CHUNK_SIZE * CHUNK_SIZE / 1000, CHUNK_SUBDIV as int),
        CHUNK_CELLS == CHUNK_SUBDIV * CHUNK_SUBDIV,
{
}

/// Which cells qualify for which content is decided by the densities
/// alone: two samples with the same densities place a gas orb of the
/// density alike, and call for an asteroid and for an explosive orb alike,
/// whatever was drawn for them. The draws decide only whether an item that
/// is called for is let through.
pub proof fn lemma_qualifying_ignores_draws(a: CellSample, b: CellSample, near_origin: bool)
    requires
        a.density == b.density,
        a.intro_density == b.intro_density,
    ensures
        cell_kinds(a, near_origin).contains(SpawnKind::GasOrb(a.density)) == (a.density
            > ORB_THRESHOLD),
        cell_kinds(b, near_origin).contains(SpawnKind::GasOrb(b.density)) == (b.density
            > ORB_THRESHOLD),
        (asteroid_sieve(a) == Sieve::Pass) == (asteroid_sieve(b) == Sieve::Pass),
        (explosive_sieve(a) == Sieve::Pass) == (explosive_sieve(b) == Sieve::Pass),
        (intro_explosive_sieve(a) == Sieve::Pass) == (intro_explosive_sieve(b) == Sieve::Pass),
{
    lemma_gas_first(a, near_origin);
    lemma_gas_first(b, near_origin);
}

/// A cell holds a gas orb of its density exactly if the density exceeds
/// the threshold; the orb is then the first item of the cell.
proof fn lemma_gas_first(s: CellSample, near_origin: bool)
    ensures
        cell_kinds(s, near_origin).contains(SpawnKind::GasOrb(s.density)) == (s.density
            > ORB_THRESHOLD),
        s.density > ORB_THRESHOLD ==> cell_kinds(s, near_origin)[0] == SpawnKind::GasOrb(
            s.density,
        ),
{
    let kinds = cell_kinds(s, near_origin);
    if s.density > ORB_THRESHOLD {
        assert(kinds[0] == SpawnKind::GasOrb(s.density));
    } else {
        assert forall|i: int| 0 <= i < kinds.len() implies kinds[i] != SpawnKind::GasOrb(
            s.density,
        ) by {
            match kinds[i] {
                SpawnKind::GasOrb(mass) => {
                    assert(mass == s.intro_density && s.intro_density > ORB_THRESHOLD);
                },
                _ => {},
            }
        }
    }
}

} // verus!
