//! What holds of the fire front whatever it meets: where its cells come
//! from, how long a line of descent can get, and how far the queue can
//! grow.

use vstd::prelude::*;
use crate::space::gas::burn::{
    scan_start,
    admits,
    admitted,
    admitted_upto,
    cell_extent,
    enqueued,
    free_space,
    queue_after,
    ready,
    scan,
    scan_step,
    step_scan,
    successors,
    variation,
    OrbExplosion,
    OrbExplosionCell,
    Scan,
    BASE_DELAY,
    LIFETIME,
    MAX_COUNT,
    SLOWDOWN,
};
use crate::spatial::IndexEntry;

verus! {

/// Whether `cell` descends from `parent` in one generation: a cell that
/// has life founds cells with one unit of life less, and none without
/// life.
pub open spec fn founded_by(cell: OrbExplosionCell, parent: OrbExplosionCell) -> bool {
    parent.life >= 1 && cell.life >= 1 && cell.life + 1 == parent.life
}

/// Whether each cell of `chain` but the first is founded by the one before
/// it.
pub open spec fn is_descent(chain: Seq<OrbExplosionCell>) -> bool {
    forall|k: int| 0 < k < chain.len() ==> founded_by(#[trigger] chain[k], chain[k - 1])
}

/// Whether every cell of `born` was founded at time `now` by a cell of
/// `cells` that had life and was ready.
pub open spec fn born_of(
    born: Seq<OrbExplosionCell>,
    cells: Seq<OrbExplosionCell>,
    now: u32,
) -> bool {
    forall|b: int|
        0 <= b < born.len() ==> exists|k: int|
            0 <= k < cells.len() && ready(cells[k], now) && (#[trigger] born[b]).time == now
                && founded_by(born[b], #[trigger] cells[k])
}

/// Whether every cell of `kept` is a cell of `cells` that has life and is
/// not ready.
pub open spec fn kept_of(
    kept: Seq<OrbExplosionCell>,
    cells: Seq<OrbExplosionCell>,
    now: u32,
) -> bool {
    forall|a: int|
        0 <= a < kept.len() ==> (#[trigger] kept[a]).life >= 1 && !ready(kept[a], now)
            && cells.contains(kept[a])
}

/// A cell without life is never propagated: the pass drops it without a
/// query, without founding a cell, and without taking a variation.
pub proof fn lemma_lifeless_cell_is_inert(
    s: Scan,
    cell: OrbExplosionCell,
    now: u32,
    orbs: Seq<IndexEntry>,
    red_orbs: Seq<IndexEntry>,
)
    requires
        cell.life == 0,
    ensures
        scan_step(s, cell, now, orbs, red_orbs) == s,
{
}

/// What a pass founds and keeps: every founded cell descends from a cell
/// of the queue that had life and was ready, with one unit of life less,
/// and still has life itself; every cell that stays is a cell of the queue
/// that has life and is not ready. No more than four cells are founded for
/// each cell of the queue.
pub proof fn lemma_scan_lineage(
    cells: Seq<OrbExplosionCell>,
    now: u32,
    orbs: Seq<IndexEntry>,
    red_orbs: Seq<IndexEntry>,
)
    ensures
        born_of(scan(cells, now, orbs, red_orbs).born, cells, now),
        kept_of(scan(cells, now, orbs, red_orbs).kept, cells, now),
        scan(cells, now, orbs, red_orbs).kept.len() <= cells.len(),
        scan(cells, now, orbs, red_orbs).born.len() + 4 * scan(
            cells,
            now,
            orbs,
            red_orbs,
        ).kept.len() <= 4 * cells.len(),
        scan(cells, now, orbs, red_orbs).counter <= cells.len(),
    decreases cells.len(),
{
    if cells.len() > 0 {
        let front = cells.drop_last();
        let cell = cells.last();
        let before = scan(front, now, orbs, red_orbs);
        let after = scan(cells, now, orbs, red_orbs);
        lemma_scan_lineage(front, now, orbs, red_orbs);
        assert forall|a: int| 0 <= a < after.kept.len() implies (#[trigger] after.kept[a]).life >= 1
            && !ready(after.kept[a], now) && cells.contains(after.kept[a]) by {
            if a < before.kept.len() {
                assert(after.kept[a] == before.kept[a]);
                let k = choose|k: int| 0 <= k < front.len() && front[k] == before.kept[a];
                assert(cells[k] == after.kept[a]);
            } else {
                assert(after.kept[a] == cell);
                assert(cells[cells.len() - 1] == cell);
            }
        }
        assert forall|b: int| 0 <= b < after.born.len() implies exists|k: int|
            0 <= k < cells.len() && ready(cells[k], now) && (#[trigger] after.born[b]).time == now
                && founded_by(after.born[b], #[trigger] cells[k]) by {
            if b < before.born.len() {
                assert(after.born[b] == before.born[b]);
                let k = choose|k: int|
                    0 <= k < front.len() && ready(front[k], now) && before.born[b].time == now
                        && founded_by(before.born[b], #[trigger] front[k]);
                assert(cells[k] == front[k]);
            } else {
                let extent = cell_extent(before.counter as int);
                let fresh = successors(cell, extent, now);
                assert(after.born[b] == fresh[b - before.born.len()]);
                assert(founded_by(after.born[b], cells[cells.len() - 1]));
            }
        }
    }
}

/// A line of descent that starts from a cell with life `L` has at most `L`
/// cells: each generation has one unit of life less than the one before,
/// and none is without life.
pub proof fn lemma_descent_is_bounded(chain: Seq<OrbExplosionCell>)
    requires
        chain.len() >= 1,
        chain[0].life >= 1,
        is_descent(chain),
    ensures
        chain.len() <= chain[0].life,
        forall|k: int| 0 <= k < chain.len() ==> (#[trigger] chain[k]).life == chain[0].life - k,
    decreases chain.len(),
{
    if chain.len() > 1 {
        let front = chain.drop_last();
        assert forall|k: int| 0 < k < front.len() implies founded_by(
            #[trigger] front[k],
            front[k - 1],
        ) by {
            assert(founded_by(chain[k], chain[k - 1]));
        }
        lemma_descent_is_bounded(front);
        let last = chain.len() - 1;
        assert(founded_by(chain[last], chain[last - 1]));
        assert(front[last - 1] == chain[last - 1]);
        assert forall|k: int| 0 <= k < chain.len() implies (#[trigger] chain[k]).life
            == chain[0].life - k by {
            if k < last {
                assert(front[k] == chain[k]);
            }
        }
    }
}

/// The admitted cells are founded cells, no more than were founded; and
/// where one is admitted, three tenths of the number of founded cells stay
/// under the room that is left.
pub proof fn lemma_admitted_bounds(born: Seq<OrbExplosionCell>, counter: int, free: int, n: nat)
    requires
        n <= born.len(),
        0 <= counter,
    ensures
        admitted_upto(born, counter, free, n).len() <= n,
        admitted_upto(born, counter, free, n).len() > 0 ==> 3 * born.len() < 10 * free,
        forall|a: int|
            0 <= a < admitted_upto(born, counter, free, n).len() ==> born.contains(
                #[trigger] admitted_upto(born, counter, free, n)[a],
            ),
    decreases n,
{
    if n > 0 {
        lemma_admitted_bounds(born, counter, free, (n - 1) as nat);
        let before = admitted_upto(born, counter, free, (n - 1) as nat);
        let after = admitted_upto(born, counter, free, n);
        if admits(counter, n - 1, born.len() as int, free) {
            assert(variation(counter + n) >= 3);
            assert(3 * born.len() <= variation(counter + n) * born.len()) by (nonlinear_arith)
                requires
                    variation(counter + n) >= 3,
                    born.len() >= 0,
            ;
        }
        assert forall|a: int| 0 <= a < after.len() implies born.contains(#[trigger] after[a]) by {
            if a < before.len() {
                assert(after[a] == before[a]);
            } else {
                assert(after[a] == born[n - 1]);
            }
        }
    }
}

/// No cell without life is ever in the queue after a step, and every cell
/// in it either stayed, or was founded in this step by a ready cell that
/// had life.
pub proof fn lemma_queue_lineage(
    queue: Seq<OrbExplosionCell>,
    events: Seq<OrbExplosion>,
    now: u32,
    orbs: Seq<IndexEntry>,
    red_orbs: Seq<IndexEntry>,
)
    ensures
        forall|a: int|
            0 <= a < queue_after(queue, events, now, orbs, red_orbs).len() ==> (
            #[trigger] queue_after(queue, events, now, orbs, red_orbs)[a]).life >= 1,
        forall|a: int|
            0 <= a < queue_after(queue, events, now, orbs, red_orbs).len() ==> {
                let cell = #[trigger] queue_after(queue, events, now, orbs, red_orbs)[a];
                let cells = enqueued(queue, events, now);
                ||| cells.contains(cell) && !ready(cell, now)
                ||| exists|k: int|
                    0 <= k < cells.len() && ready(cells[k], now) && founded_by(
                        cell,
                        #[trigger] cells[k],
                    )
            },
{
    let cells = enqueued(queue, events, now);
    let s = step_scan(queue, events, now, orbs, red_orbs);
    let after = queue_after(queue, events, now, orbs, red_orbs);
    lemma_scan_lineage(cells, now, orbs, red_orbs);
    lemma_admitted_bounds(s.born, s.counter as int, free_space(s.kept.len() as int), s.born.len());
    assert forall|a: int| 0 <= a < after.len() implies {
        let cell = #[trigger] after[a];
        &&& cell.life >= 1
        &&& (cells.contains(cell) && !ready(cell, now)) || exists|k: int|
            0 <= k < cells.len() && ready(cells[k], now) && founded_by(cell, #[trigger] cells[k])
    } by {
        let cell = after[a];
        if a < s.kept.len() {
            assert(cell == s.kept[a]);
        } else {
            let let_in = admitted(s);
            assert(cell == let_in[a - s.kept.len()]);
            assert(s.born.contains(cell));
            let b = choose|b: int| 0 <= b < s.born.len() && s.born[b] == cell;
            let k = choose|k: int|
                0 <= k < cells.len() && ready(cells[k], now) && s.born[b].time == now
                    && founded_by(s.born[b], #[trigger] cells[k]);
            assert(founded_by(cell, cells[k]));
        }
    }
}

/// Admission is closed at capacity: when the cells that stay fill the
/// queue to `MAX_COUNT` or beyond, no founded cell is admitted, so that
/// the queue is no longer than it was after the step's events were added.
pub proof fn lemma_admission_closes_at_capacity(
    queue: Seq<OrbExplosionCell>,
    events: Seq<OrbExplosion>,
    now: u32,
    orbs: Seq<IndexEntry>,
    red_orbs: Seq<IndexEntry>,
)
    requires
        step_scan(queue, events, now, orbs, red_orbs).kept.len() >= MAX_COUNT,
    ensures
        admitted(step_scan(queue, events, now, orbs, red_orbs)).len() == 0,
        queue_after(queue, events, now, orbs, red_orbs).len() <= queue.len() + events.len(),
{
    let s = step_scan(queue, events, now, orbs, red_orbs);
    lemma_scan_lineage(enqueued(queue, events, now), now, orbs, red_orbs);
    lemma_admitted_bounds(s.born, s.counter as int, 0, s.born.len());
}

/// Number of weights in the cycle of variations that are at most `w`.
pub open spec fn weights_upto(w: int) -> int {
    if w < 3 {
        0
    } else if w < 4 {
        1
    } else if w < 6 {
        2
    } else if w < 7 {
        3
    } else if w < 8 {
        4
    } else {
        5
    }
}

/// The heaviest weight that is admitted when `born` founded cells compete
/// for `free` places; zero if none is.
pub open spec fn heaviest_admitted(born: int, free: int) -> int {
    if 8 * born < 10 * free {
        8
    } else if 7 * born < 10 * free {
        7
    } else if 6 * born < 10 * free {
        6
    } else if 4 * born < 10 * free {
        4
    } else if 3 * born < 10 * free {
        3
    } else {
        0
    }
}

/// Number of the first `n` founded cells whose weight is at most `w`.
spec fn lighter(counter: int, n: nat, w: int) -> nat
    decreases n,
{
    if n == 0 {
        0
    } else {
        lighter(counter, (n - 1) as nat, w) + if variation(counter + n) <= w {
            1nat
        } else {
            0nat
        }
    }
}

/// Any five founded cells in a row take each weight of the cycle once.
proof fn lemma_lighter_round(counter: int, n: nat, w: int)
    requires
        0 <= counter,
    ensures
        lighter(counter, n + 5, w) == lighter(counter, n, w) + weights_upto(w),
{
    let l1 = lighter(counter, n + 1, w);
    let l2 = lighter(counter, n + 2, w);
    let l3 = lighter(counter, n + 3, w);
    let l4 = lighter(counter, n + 4, w);
    let l5 = lighter(counter, n + 5, w);
    assert(l1 == lighter(counter, n, w) + if variation(counter + n + 1) <= w {
        1nat
    } else {
        0nat
    });
    assert(l2 == l1 + if variation(counter + n + 2) <= w {
        1nat
    } else {
        0nat
    });
    assert(l3 == l2 + if variation(counter + n + 3) <= w {
        1nat
    } else {
        0nat
    });
    assert(l4 == l3 + if variation(counter + n + 4) <= w {
        1nat
    } else {
        0nat
    });
    assert(l5 == l4 + if variation(counter + n + 5) <= w {
        1nat
    } else {
        0nat
    });
}

/// Of `n` founded cells in a row, those of a weight up to `w` are no more
/// than `n`, and no more than the weights up to `w` for each round of the
/// cycle that the cells begin.
proof fn lemma_lighter_bound(counter: int, n: nat, w: int)
    requires
        0 <= counter,
    ensures
        lighter(counter, n, w) <= n,
        lighter(counter, n, w) <= weights_upto(w) * (n / 5 + 1),
    decreases n,
{
    if n >= 5 {
        lemma_lighter_bound(counter, (n - 5) as nat, w);
        lemma_lighter_round(counter, (n - 5) as nat, w);
        assert(weights_upto(w) * ((n - 5) / 5 + 1) + weights_upto(w) == weights_upto(w) * (n / 5
            + 1)) by (nonlinear_arith)
            requires
                n >= 5,
                (n - 5) / 5 + 1 == n / 5,
        ;
    } else {
        // fewer than five cells: no more than the five that complete the round
        lemma_lighter_round(counter, 0, w);
        lemma_lighter_grows(counter, n, 5, w);
        assert(weights_upto(w) * (n / 5 + 1) == weights_upto(w)) by (nonlinear_arith)
            requires
                n / 5 == 0,
        ;
        lemma_lighter_at_most(counter, n, w);
    }
    if n >= 5 {
        lemma_lighter_at_most(counter, n, w);
    }
}

/// The count does not go down as more cells are looked at.
proof fn lemma_lighter_grows(counter: int, n: nat, m: nat, w: int)
    requires
        n <= m,
    ensures
        lighter(counter, n, w) <= lighter(counter, m, w),
    decreases m,
{
    if n < m {
        lemma_lighter_grows(counter, n, (m - 1) as nat, w);
    }
}

/// No more cells are counted than were looked at.
proof fn lemma_lighter_at_most(counter: int, n: nat, w: int)
    ensures
        lighter(counter, n, w) <= n,
    decreases n,
{
    if n > 0 {
        lemma_lighter_at_most(counter, (n - 1) as nat, w);
    }
}

/// The founded cells that are admitted are those whose weight is at most
/// the heaviest admitted weight.
proof fn lemma_admitted_are_the_lighter(
    born: Seq<OrbExplosionCell>,
    counter: int,
    free: int,
    n: nat,
)
    requires
        n <= born.len(),
        0 <= counter,
    ensures
        admitted_upto(born, counter, free, n).len() == lighter(
            counter,
            n,
            heaviest_admitted(born.len() as int, free),
        ),
    decreases n,
{
    if n > 0 {
        lemma_admitted_are_the_lighter(born, counter, free, (n - 1) as nat);
        let total = born.len() as int;
        let v = variation(counter + n);
        assert(v == 3 || v == 4 || v == 6 || v == 7 || v == 8);
        assert(admits(counter, n - 1, total, free) == (v * total < 10 * free));
        assert((v * total < 10 * free) == (v <= heaviest_admitted(total, free)))
            by (nonlinear_arith)
            requires
                v == 3 || v == 4 || v == 6 || v == 7 || v == 8,
                total >= 0,
                heaviest_admitted(total, free) == (if 8 * total < 10 * free {
                    8int
                } else if 7 * total < 10 * free {
                    7int
                } else if 6 * total < 10 * free {
                    6int
                } else if 4 * total < 10 * free {
                    4int
                } else if 3 * total < 10 * free {
                    3int
                } else {
                    0int
                }),
        ;
    }
}

/// Admission is proportional to the room that is left: the founded cells
/// that are admitted are at most five fourths of the free places and four
/// more.
pub proof fn lemma_admission_is_proportional(s: Scan)
    ensures
        4 * admitted(s).len() <= 5 * free_space(s.kept.len() as int) + 16,
{
    let total = s.born.len();
    let free = free_space(s.kept.len() as int);
    let w = heaviest_admitted(total as int, free);
    lemma_admitted_are_the_lighter(s.born, s.counter as int, free, total);
    lemma_lighter_bound(s.counter as int, total, w);
    let let_in = admitted(s).len();
    assert(let_in <= total);
    assert(let_in <= weights_upto(w) * (total / 5 + 1));
    assert(5 * (total / 5) <= total);
    if w == 0 {
        assert(weights_upto(w) * (total / 5 + 1) == 0) by (nonlinear_arith)
            requires
                weights_upto(w) == 0,
        ;
    } else if w == 3 {
        assert(weights_upto(w) * (total / 5 + 1) == total / 5 + 1) by (nonlinear_arith)
            requires
                weights_upto(w) == 1,
        ;
    } else if w == 4 {
        assert(weights_upto(w) * (total / 5 + 1) == 2 * (total / 5) + 2) by (nonlinear_arith)
            requires
                weights_upto(w) == 2,
        ;
    } else if w == 6 {
        assert(weights_upto(w) * (total / 5 + 1) == 3 * (total / 5) + 3) by (nonlinear_arith)
            requires
                weights_upto(w) == 3,
        ;
    } else if w == 7 {
        assert(weights_upto(w) * (total / 5 + 1) == 4 * (total / 5) + 4) by (nonlinear_arith)
            requires
                weights_upto(w) == 4,
        ;
    }
}

/// The length of the queue is bounded whatever the events: founded cells
/// never take it beyond five fourths of `MAX_COUNT` and four more, so that
/// it is at most the larger of that and of its length after the step's
/// events were added.
pub proof fn lemma_queue_growth_is_bounded(
    queue: Seq<OrbExplosionCell>,
    events: Seq<OrbExplosion>,
    now: u32,
    orbs: Seq<IndexEntry>,
    red_orbs: Seq<IndexEntry>,
)
    ensures
        queue_after(queue, events, now, orbs, red_orbs).len() <= queue.len() + events.len()
            || 4 * queue_after(queue, events, now, orbs, red_orbs).len() <= 5 * MAX_COUNT + 16,
{
    let s = step_scan(queue, events, now, orbs, red_orbs);
    lemma_scan_lineage(enqueued(queue, events, now), now, orbs, red_orbs);
    lemma_admitted_bounds(s.born, s.counter as int, free_space(s.kept.len() as int), s.born.len());
    lemma_admission_is_proportional(s);
}

/// Whether no cell has more than the full life.
pub open spec fn within_lifetime(cells: Seq<OrbExplosionCell>) -> bool {
    forall|i: int| 0 <= i < cells.len() ==> (#[trigger] cells[i]).life <= LIFETIME
}

/// Whether every cell has life and waits at time `now`.
pub open spec fn all_waiting(cells: Seq<OrbExplosionCell>, now: u32) -> bool {
    forall|i: int|
        0 <= i < cells.len() ==> (#[trigger] cells[i]).life >= 1 && !ready(cells[i], now)
}

/// Lives stay in range: if no cell of the queue has more than the full
/// life, then after a step every cell of the queue has at least one unit
/// of life and at most the full life.
pub proof fn lemma_lives_stay_in_range(
    queue: Seq<OrbExplosionCell>,
    events: Seq<OrbExplosion>,
    now: u32,
    orbs: Seq<IndexEntry>,
    red_orbs: Seq<IndexEntry>,
)
    requires
        within_lifetime(queue),
    ensures
        within_lifetime(queue_after(queue, events, now, orbs, red_orbs)),
        forall|a: int|
            0 <= a < queue_after(queue, events, now, orbs, red_orbs).len() ==> (
            #[trigger] queue_after(queue, events, now, orbs, red_orbs)[a]).life >= 1,
{
    let cells = enqueued(queue, events, now);
    let after = queue_after(queue, events, now, orbs, red_orbs);
    lemma_queue_lineage(queue, events, now, orbs, red_orbs);
    assert(within_lifetime(cells));
    assert forall|a: int| 0 <= a < after.len() implies (#[trigger] after[a]).life <= LIFETIME by {
        let cell = after[a];
        if cells.contains(cell) && !ready(cell, now) {
            let k = choose|k: int| 0 <= k < cells.len() && cells[k] == cell;
            assert(cells[k].life <= LIFETIME);
        } else {
            let k = choose|k: int|
                0 <= k < cells.len() && ready(cells[k], now) && founded_by(
                    cell,
                    #[trigger] cells[k],
                );
            assert(cells[k].life <= LIFETIME);
        }
    }
}

/// A pass over cells that all have life and wait keeps every cell, founds
/// none and reaches no orb.
proof fn lemma_waiting_cells_stay(
    cells: Seq<OrbExplosionCell>,
    now: u32,
    orbs: Seq<IndexEntry>,
    red_orbs: Seq<IndexEntry>,
)
    requires
        all_waiting(cells, now),
    ensures
        scan(cells, now, orbs, red_orbs) == (Scan {
            kept: cells,
            counter: cells.len(),
            ..scan_start()
        }),
    decreases cells.len(),
{
    if cells.len() > 0 {
        let front = cells.drop_last();
        assert(all_waiting(front, now)) by {
            assert(forall|i: int| 0 <= i < front.len() ==> front[i] == cells[i]);
        }
        lemma_waiting_cells_stay(front, now, orbs, red_orbs);
        assert(cells.last() == cells[cells.len() - 1]);
        assert(front.push(cells.last()) =~= cells);
    } else {
        assert(cells =~= Seq::empty());
    }
}

/// A clock that stands still freezes the front: a second step at the same
/// time, without new events, leaves the queue as the first step left it
/// and reaches no orb.
pub proof fn lemma_frozen_clock_freezes_the_front(
    queue: Seq<OrbExplosionCell>,
    events: Seq<OrbExplosion>,
    now: u32,
    orbs: Seq<IndexEntry>,
    red_orbs: Seq<IndexEntry>,
)
    requires
        within_lifetime(queue),
    ensures
        queue_after(
            queue_after(queue, events, now, orbs, red_orbs),
            Seq::empty(),
            now,
            orbs,
            red_orbs,
        ) == queue_after(queue, events, now, orbs, red_orbs),
        step_scan(
            queue_after(queue, events, now, orbs, red_orbs),
            Seq::empty(),
            now,
            orbs,
            red_orbs,
        ).burning == Seq::<u64>::empty(),
        step_scan(
            queue_after(queue, events, now, orbs, red_orbs),
            Seq::empty(),
            now,
            orbs,
            red_orbs,
        ).detonated == Seq::<u64>::empty(),
{
    let cells = enqueued(queue, events, now);
    let s = step_scan(queue, events, now, orbs, red_orbs);
    let once = queue_after(queue, events, now, orbs, red_orbs);
    lemma_scan_lineage(cells, now, orbs, red_orbs);
    lemma_admitted_bounds(s.born, s.counter as int, free_space(s.kept.len() as int), s.born.len());
    assert(within_lifetime(cells));
    assert forall|a: int| 0 <= a < once.len() implies (#[trigger] once[a]).life >= 1 && !ready(
        once[a],
        now,
    ) by {
        if a >= s.kept.len() {
            let cell = admitted(s)[a - s.kept.len()];
            assert(once[a] == cell);
            assert(s.born.contains(cell));
            let b = choose|b: int| 0 <= b < s.born.len() && s.born[b] == cell;
            let k = choose|k: int|
                0 <= k < cells.len() && ready(cells[k], now) && s.born[b].time == now
                    && founded_by(s.born[b], #[trigger] cells[k]);
            assert(cells[k].life <= LIFETIME);
        } else {
            assert(once[a] == s.kept[a]);
        }
    }
    let again = enqueued(once, Seq::empty(), now);
    assert(again =~= once);
    lemma_waiting_cells_stay(once, now, orbs, red_orbs);
    let t = step_scan(once, Seq::empty(), now, orbs, red_orbs);
    assert(admitted(t) =~= Seq::<OrbExplosionCell>::empty());
    assert(queue_after(once, Seq::empty(), now, orbs, red_orbs) =~= once);
}

/// No cell waits forever: once more than the base delay and the slowdown
/// of a full life have passed since a cell was created, the cell is ready,
/// and a ready cell does not stay in the queue.
pub proof fn lemma_cells_expire(cell: OrbExplosionCell, now: u32)
    requires
        now > cell.time + BASE_DELAY + SLOWDOWN * LIFETIME,
    ensures
        ready(cell, now),
{
}

} // verus!
