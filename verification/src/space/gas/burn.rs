//! The fire front: how a burn spreads through a cloud of gas orbs.
//!
//! The front is a queue of cells. A cell waits until it is ready, then looks
//! for gas orbs around itself, sets them on fire and, if it found any, is
//! replaced by up to four cells next to it, each with one unit of life less.
//! New cells compete for the room that is left under `MAX_COUNT`.

use vstd::prelude::*;
use std::collections::VecDeque;
use crate::geometry::Point;
use crate::red_gas::{event_targets, RedOrbExplosionEvent};
use crate::space::gas::BurningGasOrb;
use crate::spatial::{hits, ids, IndexEntry, SpatialIndex};

verus! {

/// Time, in milliseconds, that each of the first two phases of a burning
/// orb lasts.
pub const BURN_TIME: u32 = 670;

/// Base side length of a cell of the front, in fixed-point steps.
pub const CELL_SIZE: i32 = 16_000;

/// Length of the queue above which no new cell is admitted.
pub const MAX_COUNT: usize = 1000;

/// Life of a cell that an ignition creates.
pub const LIFETIME: u32 = 30;

/// Additional delay, in milliseconds, for each unit of life that a cell has
/// lost.
pub const SLOWDOWN: u32 = 10;

/// Delay, in milliseconds, before a cell of full life spreads.
pub const BASE_DELAY: u32 = 30;

/// A request to ignite the gas at a position.
#[derive(Clone, Copy, Debug, PartialEq, Eq, Structural)]
pub struct OrbExplosion {
    pub pos: Point,
}

/// One cell of the fire front.
#[derive(Clone, Copy, Debug, PartialEq, Eq, Structural)]
pub struct OrbExplosionCell {
    /// Where the cell stands.
    pub pos: Point,
    /// When the cell was created, in milliseconds of the simulation clock.
    pub time: u32,
    /// How many more generations the cell may found, itself included.
    pub life: u32,
}

/// What one step of the front asks the host to do.
pub struct BurnReport {
    /// The gas orbs that the front has reached, to be set on fire; an orb
    /// reached by several cells is named once for each.
    pub burning: Vec<u64>,
    /// The explosive orbs that the front has reached, to be detonated.
    pub red_orb_events: Vec<RedOrbExplosionEvent>,
}

/// The phases that a burning orb goes through.
#[derive(Clone, Copy, Debug, PartialEq, Eq, Structural)]
pub enum BurnPhase {
    /// The orb has just caught fire and swells.
    Flaring,
    /// The orb shrinks.
    Fading,
    /// The orb is burnt out and changes no more.
    Spent,
}

/// The weight of the `i`-th use of the cycle of variations, in tenths:
/// `3, 7, 4, 6, 8`, then again from the start.
pub open spec fn variation(i: int) -> int {
    let k = i % 5;
    if k == 0 {
        3
    } else if k == 1 {
        7
    } else if k == 2 {
        4
    } else if k == 3 {
        6
    } else {
        8
    }
}

/// Side length of the cell that takes the `i`-th variation.
pub open spec fn cell_extent(i: int) -> int {
    CELL_SIZE / 10 * variation(i)
}

/// Whether `cell` may spread at time `now`: the older a cell's line is, the
/// longer it waits.
pub open spec fn ready(cell: OrbExplosionCell, now: u32) -> bool {
    now > cell.time + BASE_DELAY + SLOWDOWN * (LIFETIME - cell.life)
}

/// The cell that an ignition at `pos` creates at time `now`.
pub open spec fn ignition_cell(pos: Point, now: u32) -> OrbExplosionCell {
    OrbExplosionCell { pos, time: now, life: LIFETIME }
}

/// The cell that `parent` founds at time `now`, moved by `(dx, dy)`.
pub open spec fn child(parent: OrbExplosionCell, dx: int, dy: int, now: u32) -> OrbExplosionCell {
    OrbExplosionCell {
        pos: parent.pos.shifted(dx, dy),
        time: now,
        life: (parent.life - 1) as u32,
    }
}

/// The cells that replace `parent` when it spreads with side length
/// `extent`: one above, one below, one to the right, one to the left; none
/// if their life would be zero.
pub open spec fn successors(
    parent: OrbExplosionCell,
    extent: int,
    now: u32,
) -> Seq<OrbExplosionCell> {
    if parent.life <= 1 {
        Seq::empty()
    } else {
        seq![
            child(parent, 0, extent, now),
            child(parent, 0, -extent, now),
            child(parent, extent, 0, now),
            child(parent, -extent, 0, now),
        ]
    }
}

/// What a pass over the queue has gathered.
pub struct Scan {
    /// The cells that stay in the queue, in order.
    pub kept: Seq<OrbExplosionCell>,
    /// The cells that the pass has founded, in order.
    pub born: Seq<OrbExplosionCell>,
    /// The gas orbs reached.
    pub burning: Seq<u64>,
    /// The explosive orbs reached.
    pub detonated: Seq<u64>,
    /// How many variations the pass has used.
    pub counter: nat,
}

/// The pass before its first cell.
pub open spec fn scan_start() -> Scan {
    Scan {
        kept: Seq::empty(),
        born: Seq::empty(),
        burning: Seq::empty(),
        detonated: Seq::empty(),
        counter: 0,
    }
}

/// The pass `s` after it has handled `cell`.
///
/// A cell without life is dropped and takes no variation. Any other cell
/// takes the next variation as its side length. If it is not ready it
/// stays. If it is ready it leaves the queue: the gas orbs and explosive
/// orbs within half its side length are reached, and if there was a gas
/// orb among them, its successors are founded.
pub open spec fn scan_step(
    s: Scan,
    cell: OrbExplosionCell,
    now: u32,
    orbs: Seq<IndexEntry>,
    red_orbs: Seq<IndexEntry>,
) -> Scan {
    if cell.life == 0 {
        s
    } else {
        let extent = cell_extent(s.counter as int);
        let reach = (extent / 2) as u32;
        if !ready(cell, now) {
            Scan { kept: s.kept.push(cell), counter: s.counter + 1, ..s }
        } else {
            let found = hits(orbs, cell.pos, reach);
            Scan {
                kept: s.kept,
                born: if found.len() > 0 {
                    s.born + successors(cell, extent, now)
                } else {
                    s.born
                },
                burning: s.burning + ids(found),
                detonated: s.detonated + ids(hits(red_orbs, cell.pos, reach)),
                counter: s.counter + 1,
            }
        }
    }
}

/// The pass over `cells`, front to back.
pub open spec fn scan(
    cells: Seq<OrbExplosionCell>,
    now: u32,
    orbs: Seq<IndexEntry>,
    red_orbs: Seq<IndexEntry>,
) -> Scan
    decreases cells.len(),
{
    if cells.len() == 0 {
        scan_start()
    } else {
        scan_step(scan(cells.drop_last(), now, orbs, red_orbs), cells.last(), now, orbs, red_orbs)
    }
}

/// The room left in a queue of length `kept`.
pub open spec fn free_space(kept: int) -> int {
    if kept >= MAX_COUNT {
        0
    } else {
        MAX_COUNT - kept
    }
}

/// Whether the `j`-th of `born` founded cells is admitted when `free`
/// places are left, after a pass that has used `counter` variations: its
/// variation, times the number of founded cells, must stay under the room
/// that is left.
pub open spec fn admits(counter: int, j: int, born: int, free: int) -> bool {
    variation(counter + j + 1) * born < 10 * free
}

/// The admitted ones among the first `n` founded cells, in order.
pub open spec fn admitted_upto(
    born: Seq<OrbExplosionCell>,
    counter: int,
    free: int,
    n: nat,
) -> Seq<OrbExplosionCell>
    decreases n,
{
    if n == 0 {
        Seq::empty()
    } else {
        let before = admitted_upto(born, counter, free, (n - 1) as nat);
        if admits(counter, n - 1, born.len() as int, free) {
            before.push(born[n - 1])
        } else {
            before
        }
    }
}

/// The founded cells of the pass `s` that are admitted to the queue.
pub open spec fn admitted(s: Scan) -> Seq<OrbExplosionCell> {
    admitted_upto(s.born, s.counter as int, free_space(s.kept.len() as int), s.born.len())
}

/// The queue with one cell of full life for each event, in order.
pub open spec fn enqueued(
    queue: Seq<OrbExplosionCell>,
    events: Seq<OrbExplosion>,
    now: u32,
) -> Seq<OrbExplosionCell> {
    queue + events.map_values(|e: OrbExplosion| ignition_cell(e.pos, now))
}

/// The pass of one step: over the queue and the cells of the step's events.
pub open spec fn step_scan(
    queue: Seq<OrbExplosionCell>,
    events: Seq<OrbExplosion>,
    now: u32,
    orbs: Seq<IndexEntry>,
    red_orbs: Seq<IndexEntry>,
) -> Scan {
    scan(enqueued(queue, events, now), now, orbs, red_orbs)
}

/// The queue after one step: the cells that stayed, then the founded cells
/// that were admitted.
pub open spec fn queue_after(
    queue: Seq<OrbExplosionCell>,
    events: Seq<OrbExplosion>,
    now: u32,
    orbs: Seq<IndexEntry>,
    red_orbs: Seq<IndexEntry>,
) -> Seq<OrbExplosionCell> {
    let s = step_scan(queue, events, now, orbs, red_orbs);
    s.kept + admitted(s)
}

/// The weight, in tenths, at place `phase` of the cycle of variations.
fn variation_at(phase: usize) -> (w: u32)
    requires
        phase < 5,
    ensures
        w == variation(phase as int),
        3 <= w <= 8,
{
    if phase == 0 {
        3
    } else if phase == 1 {
        7
    } else if phase == 2 {
        4
    } else if phase == 3 {
        6
    } else {
        8
    }
}

/// The place in the cycle after `phase`.
fn next_phase(phase: usize) -> (next: usize)
    requires
        phase < 5,
    ensures
        next == (phase + 1) % 5,
        next < 5,
{
    if phase == 4 {
        0
    } else {
        phase + 1
    }
}

impl OrbExplosionCell {
    /// The cell that an ignition at `pos` creates at time `now`.
    pub fn ignition(pos: Point, now: u32) -> (cell: OrbExplosionCell)
        ensures
            cell == ignition_cell(pos, now),
    {
        OrbExplosionCell { pos, time: now, life: LIFETIME }
    }

    /// Whether the cell may spread at time `now`.
    pub fn is_ready(&self, now: u32) -> (yes: bool)
        ensures
            yes == ready(*self, now),
    {
        let wait: i64 = self.time as i64 + BASE_DELAY as i64 + SLOWDOWN as i64 * (LIFETIME as i64
            - self.life as i64);
        now as i64 > wait
    }

    /// The cells that replace this one when it spreads with side length
    /// `extent`.
    pub fn spread(&self, extent: i32, now: u32) -> (cells: Vec<OrbExplosionCell>)
        ensures
            cells@ == successors(*self, extent as int, now),
    {
        let mut cells: Vec<OrbExplosionCell> = Vec::new();
        if self.life > 1 {
            let life: u32 = self.life - 1;
            let step: i64 = extent as i64;
            cells.push(OrbExplosionCell { pos: self.pos.offset(0, step), time: now, life });
            cells.push(OrbExplosionCell { pos: self.pos.offset(0, -step), time: now, life });
            cells.push(OrbExplosionCell { pos: self.pos.offset(step, 0), time: now, life });
            cells.push(OrbExplosionCell { pos: self.pos.offset(-step, 0), time: now, life });
        }
        proof {
            assert(cells@ =~= successors(*self, extent as int, now));
        }
        cells
    }
}

/// Appends the identifiers of `found` to `out`.
fn append_ids(out: &mut Vec<u64>, found: &Vec<IndexEntry>)
    ensures
        final(out)@ == old(out)@ + ids(found@),
{
    let mut k: usize = 0;
    while k < found.len()
        invariant
            k <= found.len(),
            out@ == old(out)@ + ids(found@.take(k as int)),
        decreases found.len() - k,
    {
        out.push(found[k].id);
        proof {
            found@.lemma_take_succ_push(k as int);
            found@.take(k as int).lemma_push_map_commute(|e: IndexEntry| e.id, found@[k as int]);
            assert(out@ =~= old(out)@ + ids(found@.take(k as int + 1)));
        }
        k = k + 1;
    }
    proof {
        assert(found@.take(k as int) =~= found@);
    }
}

/// Appends one detonation event for each of `found` to `out`.
fn append_events(out: &mut Vec<RedOrbExplosionEvent>, found: &Vec<IndexEntry>)
    ensures
        event_targets(final(out)@) == event_targets(old(out)@) + ids(found@),
{
    let mut k: usize = 0;
    while k < found.len()
        invariant
            k <= found.len(),
            event_targets(out@) == event_targets(old(out)@) + ids(found@.take(k as int)),
        decreases found.len() - k,
    {
        let ghost before = out@;
        out.push(RedOrbExplosionEvent { entity: found[k].id });
        proof {
            found@.lemma_take_succ_push(k as int);
            found@.take(k as int).lemma_push_map_commute(|e: IndexEntry| e.id, found@[k as int]);
            before.lemma_push_map_commute(
                |e: RedOrbExplosionEvent| e.entity,
                RedOrbExplosionEvent { entity: found@[k as int].id },
            );
            assert(event_targets(out@) =~= event_targets(old(out)@) + ids(
                found@.take(k as int + 1),
            ));
        }
        k = k + 1;
    }
    proof {
        assert(found@.take(k as int) =~= found@);
    }
}

/// One step of the fire front at time `now`.
///
/// Every event adds a cell of full life to the back of the queue. Then the
/// queue is passed front to back as `scan` says, against the snapshots of
/// the gas orbs and of the explosive orbs; the cells that stay keep their
/// order, and the founded cells that `admitted` lets in follow them.
/// Returns the orbs that were reached.
pub fn propagate_explosion(
    events: &Vec<OrbExplosion>,
    orb_tree: &SpatialIndex,
    red_orb_tree: &SpatialIndex,
    now: u32,
    explosion_queue: &mut VecDeque<OrbExplosionCell>,
) -> (report: BurnReport)
    ensures
        final(explosion_queue)@ == queue_after(
            old(explosion_queue)@,
            events@,
            now,
            orb_tree@,
            red_orb_tree@,
        ),
        report.burning@ == step_scan(
            old(explosion_queue)@,
            events@,
            now,
            orb_tree@,
            red_orb_tree@,
        ).burning,
        event_targets(report.red_orb_events@) == step_scan(
            old(explosion_queue)@,
            events@,
            now,
            orb_tree@,
            red_orb_tree@,
        ).detonated,
{
    let ghost seed = |e: OrbExplosion| ignition_cell(e.pos, now);
    let mut e: usize = 0;
    while e < events.len()
        invariant
            e <= events.len(),
            seed == (|e: OrbExplosion| ignition_cell(e.pos, now)),
            explosion_queue@ == old(explosion_queue)@ + events@.take(e as int).map_values(seed),
        decreases events.len() - e,
    {
        explosion_queue.push_back(OrbExplosionCell::ignition(events[e].pos, now));
        proof {
            events@.lemma_take_succ_push(e as int);
            events@.take(e as int).lemma_push_map_commute(seed, events@[e as int]);
            assert(explosion_queue@ =~= old(explosion_queue)@ + events@.take(
                e as int + 1,
            ).map_values(seed));
        }
        e = e + 1;
    }
    proof {
        assert(events@.take(e as int) =~= events@);
    }
    let ghost all = explosion_queue@;
    assert(all == enqueued(old(explosion_queue)@, events@, now));

    let mut kept: VecDeque<OrbExplosionCell> = VecDeque::new();
    let mut born: Vec<OrbExplosionCell> = Vec::new();
    let mut burning: Vec<u64> = Vec::new();
    let mut red_orb_events: Vec<RedOrbExplosionEvent> = Vec::new();
    let mut phase: usize = 0;
    let ghost mut state = scan_start();
    let mut i: usize = 0;
    proof {
        assert(all.take(0) =~= Seq::<OrbExplosionCell>::empty());
    }
    while i < explosion_queue.len()
        invariant
            i <= explosion_queue.len(),
            explosion_queue@ == all,
            phase < 5,
            phase == state.counter % 5,
            state == scan(all.take(i as int), now, orb_tree@, red_orb_tree@),
            kept@ == state.kept,
            born@ == state.born,
            burning@ == state.burning,
            event_targets(red_orb_events@) == state.detonated,
        decreases explosion_queue.len() - i,
    {
        let cell: OrbExplosionCell = explosion_queue[i];
        proof {
            assert(all.take(i as int + 1).drop_last() =~= all.take(i as int));
            assert(all.take(i as int + 1).last() == cell);
            state = scan_step(state, cell, now, orb_tree@, red_orb_tree@);
        }
        if cell.life != 0 {
            let tenths: u32 = variation_at(phase);
            let extent: i32 = CELL_SIZE / 10 * tenths as i32;
            let reach: u32 = (extent / 2) as u32;
            phase = next_phase(phase);
            if cell.is_ready(now) {
                let found: Vec<IndexEntry> = orb_tree.within_distance(&cell.pos, reach);
                let red_found: Vec<IndexEntry> = red_orb_tree.within_distance(&cell.pos, reach);
                append_ids(&mut burning, &found);
                append_events(&mut red_orb_events, &red_found);
                if found.len() > 0 {
                    let mut cells: Vec<OrbExplosionCell> = cell.spread(extent, now);
                    born.append(&mut cells);
                }
            } else {
                kept.push_back(cell);
            }
        }
        i = i + 1;
    }
    proof {
        assert(all.take(i as int) =~= all);
    }
    let free: usize = if kept.len() >= MAX_COUNT {
        0
    } else {
        MAX_COUNT - kept.len()
    };
    let total: usize = born.len();
    let ghost counter = state.counter as int;
    let mut j: usize = 0;
    while j < total
        invariant
            j <= total,
            total == born@.len(),
            born@ == state.born,
            free == free_space(state.kept.len() as int),
            free <= MAX_COUNT,
            phase < 5,
            phase == (counter + j) % 5,
            counter == state.counter,
            kept@ == state.kept + admitted_upto(state.born, counter, free as int, j as nat),
        decreases total - j,
    {
        phase = next_phase(phase);
        let tenths: u32 = variation_at(phase);
        assert(variation(counter + j + 1) == tenths);
        assert(tenths as u128 * total as u128 <= 8 * 0xffff_ffff_ffff_ffff) by (nonlinear_arith)
            requires
                0 <= tenths <= 8,
                0 <= total <= 0xffff_ffff_ffff_ffff,
        ;
        if (tenths as u128) * (total as u128) < 10 * (free as u128) {
            kept.push_back(born[j]);
        }
        proof {
            assert(kept@ =~= state.kept + admitted_upto(
                state.born,
                counter,
                free as int,
                (j + 1) as nat,
            ));
        }
        j = j + 1;
    }
    *explosion_queue = kept;
    BurnReport { burning, red_orb_events }
}

/// The phase of an orb that caught fire at `since`, at time `now`: flaring
/// up to `BURN_TIME` after it caught fire, fading up to twice that, spent
/// from then on.
pub open spec fn phase_at(since: u32, now: u32) -> BurnPhase {
    if now - since > 2 * BURN_TIME {
        BurnPhase::Spent
    } else if now - since > BURN_TIME {
        BurnPhase::Fading
    } else {
        BurnPhase::Flaring
    }
}

/// The phase of a burning orb at time `now`. It depends on nothing but the
/// time that has passed since the orb caught fire.
pub fn burn_phase(orb: &BurningGasOrb, now: u32) -> (phase: BurnPhase)
    ensures
        phase == phase_at(orb.0, now),
{
    let since: u32 = orb.0;
    if now <= since {
        BurnPhase::Flaring
    } else if now - since > 2 * BURN_TIME {
        BurnPhase::Spent
    } else if now - since > BURN_TIME {
        BurnPhase::Fading
    } else {
        BurnPhase::Flaring
    }
}

} // verus!
