//! The streamed world: an unbounded plane made of square chunks that are
//! populated around the player and unloaded behind them.

use vstd::prelude::*;
use crate::geometry::{ChunkCoord, Point};
use crate::space::ledger::{lists_ledger, PopulatedChunks};

pub mod density;
pub mod gas;
pub mod intro;
pub mod ledger;
pub mod populate;

verus! {

/// How many chunks away from the player's chunk, along each axis, the world
/// is kept populated.
pub const RENDER_DISTANCE: i32 = 10;

/// A request to populate one chunk.
#[derive(Clone, Copy, Debug, PartialEq, Eq, Structural)]
pub struct PopulateChunk(pub ChunkCoord);

/// Whether `c` lies in the square of chunks that reaches `r` chunks from
/// `center` along each axis.
pub open spec fn in_window(center: ChunkCoord, r: int, c: ChunkCoord) -> bool {
    -r <= c.x - center.x <= r && -r <= c.y - center.y <= r
}

/// Whether `c` is a chunk of the window around `center` that the ledger
/// does not hold.
pub open spec fn missing(
    ledger: Map<ChunkCoord, u64>,
    center: ChunkCoord,
    r: int,
    c: ChunkCoord,
) -> bool {
    in_window(center, r, c) && !ledger.contains_key(c)
}

/// The order in which the window is scanned: row by row from the lowest
/// `y`, each row from the lowest `x`.
pub open spec fn scanned_before(a: ChunkCoord, b: ChunkCoord) -> bool {
    a.y < b.y || (a.y == b.y && a.x < b.x)
}

/// Whether `a` is picked rather than `b`: it is nearer to `center`, or as
/// near and not scanned later.
pub open spec fn picked_over(center: ChunkCoord, a: ChunkCoord, b: ChunkCoord) -> bool {
    a.dist_sq(center) < b.dist_sq(center) || (a.dist_sq(center) == b.dist_sq(center)
        && !scanned_before(b, a))
}

/// Whether `c` is the chunk to populate next: the missing chunk of the
/// window that is nearest to `center`, the first in scan order among
/// equally near ones.
pub open spec fn is_next_chunk(
    ledger: Map<ChunkCoord, u64>,
    center: ChunkCoord,
    r: int,
    c: ChunkCoord,
) -> bool {
    &&& missing(ledger, center, r, c)
    &&& forall|o: ChunkCoord| #[trigger]
        missing(ledger, center, r, o) ==> picked_over(center, c, o)
}

/// Whether the scan has passed `c` when it stands at offset `(dx, dy)` from
/// `center`.
spec fn passed(center: ChunkCoord, r: int, dy: int, dx: int, c: ChunkCoord) -> bool {
    in_window(center, r, c) && (c.y - center.y < dy || (c.y - center.y == dy && c.x - center.x
        < dx))
}

/// What the scan knows when it stands at offset `(dx, dy)`: `best` is the
/// pick among the missing chunks that it has passed.
spec fn scan_state(
    ledger: Map<ChunkCoord, u64>,
    center: ChunkCoord,
    r: int,
    dy: int,
    dx: int,
    best: Option<ChunkCoord>,
    best_d: int,
) -> bool {
    match best {
        Some(b) => {
            &&& missing(ledger, center, r, b)
            &&& passed(center, r, dy, dx, b)
            &&& best_d == b.dist_sq(center)
            &&& forall|o: ChunkCoord|
                passed(center, r, dy, dx, o) && !#[trigger] ledger.contains_key(o)
                    ==> picked_over(center, b, o)
        },
        None => forall|o: ChunkCoord|
            passed(center, r, dy, dx, o) ==> #[trigger] ledger.contains_key(o),
    }
}

/// Picks the chunk to populate next around the player: the nearest chunk of
/// the window of `render_distance` around the player's chunk that the
/// ledger does not hold, the first in scan order among equally near ones.
/// At most one chunk is requested per call, however many are missing; none
/// when the whole window is populated.
pub fn trigger_chunk_population(
    populated: &PopulatedChunks,
    player: &Point,
    render_distance: i32,
) -> (request: Option<PopulateChunk>)
    ensures
        match request {
            Some(event) => is_next_chunk(
                populated@,
                player.chunk_of(),
                render_distance as int,
                event.0,
            ),
            None => forall|c: ChunkCoord|
                !#[trigger] missing(populated@, player.chunk_of(), render_distance as int, c),
        },
{
    let center: ChunkCoord = player.chunk();
    let r: i64 = render_distance as i64;
    let mut best: Option<ChunkCoord> = None;
    let mut best_d: i64 = 0;
    if r < 0 {
        return None;
    }
    let mut dy: i64 = -r;
    while dy <= r
        invariant
            0 <= r <= i32::MAX,
            -r <= dy <= r + 1,
            center == player.chunk_of(),
            scan_state(populated@, center, r as int, dy as int, -r as int, best, best_d as int),
        decreases r + 1 - dy,
    {
        let mut dx: i64 = -r;
        while dx <= r
            invariant
                0 <= r <= i32::MAX,
                -r <= dy <= r,
                -r <= dx <= r + 1,
                center == player.chunk_of(),
                scan_state(populated@, center, r as int, dy as int, dx as int, best, best_d as int),
            decreases r + 1 - dx,
        {
            let cx: i64 = center.x as i64 + dx;
            let cy: i64 = center.y as i64 + dy;
            if i32::MIN as i64 <= cx && cx <= i32::MAX as i64 && i32::MIN as i64 <= cy && cy
                <= i32::MAX as i64 {
                let c: ChunkCoord = ChunkCoord { x: cx as i32, y: cy as i32 };
                if !populated.contains_key(&c) {
                    assert(0 <= dx * dx <= 0x3fff_ffff_0000_0001 && 0 <= dy * dy
                        <= 0x3fff_ffff_0000_0001) by (nonlinear_arith)
                        requires
                            -0x7fff_ffff <= dx <= 0x7fff_ffff,
                            -0x7fff_ffff <= dy <= 0x7fff_ffff,
                    ;
                    let d: i64 = dx * dx + dy * dy;
                    assert(d == c.dist_sq(center));
                    let better: bool = match best {
                        Some(_) => d < best_d,
                        None => true,
                    };
                    if better {
                        best = Some(c);
                        best_d = d;
                    }
                }
            }
            dx = dx + 1;
        }
        assert forall|o: ChunkCoord| passed(center, r as int, dy + 1, -r as int, o) implies passed(
            center,
            r as int,
            dy as int,
            dx as int,
            o,
        ) by {}
        dy = dy + 1;
    }
    match best {
        Some(c) => Some(PopulateChunk(c)),
        None => None,
    }
}

/// The squared distance, in chunks, beyond which a populated chunk is
/// unloaded: a fifth more than the squared render distance, so that a chunk
/// at the rim of the render distance is not unloaded and loaded in turn.
pub open spec fn eviction_limit(r: int) -> int {
    r * r * 6 / 5
}

/// Whether `c` is far enough from `center` to be unloaded.
pub open spec fn too_far(center: ChunkCoord, r: int, c: ChunkCoord) -> bool {
    c.dist_sq(center) > eviction_limit(r)
}

/// The entries of `ledger` that stay when the player stands in `center`.
pub open spec fn retained(
    ledger: Map<ChunkCoord, u64>,
    center: ChunkCoord,
    r: int,
) -> Map<ChunkCoord, u64> {
    Map::new(
        |c: ChunkCoord| ledger.contains_key(c) && !too_far(center, r, c),
        |c: ChunkCoord| ledger[c],
    )
}

/// The entries of `ledger` that are unloaded when the player stands in
/// `center`.
pub open spec fn evicted(
    ledger: Map<ChunkCoord, u64>,
    center: ChunkCoord,
    r: int,
) -> Map<ChunkCoord, u64> {
    Map::new(
        |c: ChunkCoord| ledger.contains_key(c) && too_far(center, r, c),
        |c: ChunkCoord| ledger[c],
    )
}

/// Unloads every populated chunk whose squared distance to the player's
/// chunk exceeds `eviction_limit(render_distance)`: its entry leaves the
/// ledger, and the entry, with the container to destroy, is returned.
pub fn unload_far_chunks(
    populated: &mut PopulatedChunks,
    player: &Point,
    render_distance: i32,
) -> (destroyed: Vec<(ChunkCoord, u64)>)
    ensures
        final(populated)@ == retained(old(populated)@, player.chunk_of(), render_distance as int),
        lists_ledger(
            destroyed@,
            evicted(old(populated)@, player.chunk_of(), render_distance as int),
        ),
{
    let center: ChunkCoord = player.chunk();
    let r: i128 = render_distance as i128;
    assert(0 <= r * r <= 0x4000_0000_0000_0000) by (nonlinear_arith)
        requires
            -0x8000_0000 <= r <= 0x7fff_ffff,
    ;
    let limit: u128 = (r * r * 6 / 5) as u128;
    let entries = populated.entries();
    let mut destroyed: Vec<(ChunkCoord, u64)> = Vec::new();
    let ghost mut origin: Seq<int> = Seq::empty();
    let mut i: usize = 0;
    while i < entries.len()
        invariant
            i <= entries.len(),
            center == player.chunk_of(),
            limit == eviction_limit(render_distance as int),
            lists_ledger(entries@, old(populated)@),
            forall|c: ChunkCoord|
                #![trigger populated@.contains_key(c)]
                #![trigger old(populated)@.contains_key(c)]
                populated@.contains_key(c) <==> old(populated)@.contains_key(c) && !(too_far(
                    center,
                    render_distance as int,
                    c,
                ) && exists|k: int| 0 <= k < i && #[trigger] entries@[k].0 == c),
            forall|c: ChunkCoord| #[trigger]
                populated@.contains_key(c) ==> populated@[c] == old(populated)@[c],
            origin.len() == destroyed@.len(),
            forall|a: int|
                0 <= a < origin.len() ==> 0 <= #[trigger] origin[a] < i && destroyed@[a]
                    == entries@[origin[a]] && too_far(
                    center,
                    render_distance as int,
                    entries@[origin[a]].0,
                ),
            forall|a: int, b: int|
                0 <= a < b < origin.len() ==> #[trigger] origin[a] < #[trigger] origin[b],
            forall|k: int|
                0 <= k < i && too_far(center, render_distance as int, #[trigger] entries@[k].0)
                    ==> exists|a: int| 0 <= a < origin.len() && #[trigger] origin[a] == k,
        decreases entries.len() - i,
    {
        let entry: (ChunkCoord, u64) = entries[i];
        let d: u128 = entry.0.distance_squared(&center);
        let ghost before = origin;
        if d > limit {
            populated.remove(&entry.0);
            destroyed.push(entry);
            proof {
                origin = origin.push(i as int);
                assert(origin[origin.len() - 1] == i);
            }
        }
        proof {
            let ghost done = origin;
            assert forall|k: int|
                0 <= k < i + 1 && too_far(
                    center,
                    render_distance as int,
                    #[trigger] entries@[k].0,
                ) implies exists|a: int| 0 <= a < done.len() && #[trigger] done[a] == k by {
                if k < i {
                    let a = choose|a: int| 0 <= a < before.len() && #[trigger] before[a] == k;
                    assert(done[a] == k);
                } else {
                    assert(done[done.len() - 1] == k);
                }
            }
        }
        i = i + 1;
    }
    proof {
        let gone = evicted(old(populated)@, center, render_distance as int);
        assert(populated@ =~= retained(old(populated)@, center, render_distance as int));
        assert forall|c: ChunkCoord| #[trigger] gone.contains_key(c) implies exists|a: int|
            0 <= a < destroyed@.len() && #[trigger] destroyed@[a].0 == c by {
            let k = choose|k: int| 0 <= k < entries@.len() && #[trigger] entries@[k].0 == c;
            let a = choose|a: int| 0 <= a < origin.len() && #[trigger] origin[a] == k;
            assert(destroyed@[a].0 == c);
        }
        assert forall|a: int, b: int|
            0 <= a < b < destroyed@.len() implies #[trigger] destroyed@[a].0
            != #[trigger] destroyed@[b].0 by {
            assert(origin[a] < origin[b]);
        }
        assert forall|a: int| 0 <= a < destroyed@.len() implies gone.contains_key(
            #[trigger] destroyed@[a].0,
        ) && gone[destroyed@[a].0] == destroyed@[a].1 by {
            assert(0 <= origin[a] < i);
        }
    }
    destroyed
}

/// Whether the ledger and the living containers agree: every populated
/// chunk is owned by a living container, every living container owns a
/// populated chunk, and no container owns two chunks.
pub open spec fn ledger_agrees(ledger: Map<ChunkCoord, u64>, containers: Set<u64>) -> bool {
    &&& forall|c: ChunkCoord| #[trigger]
        ledger.contains_key(c) ==> containers.contains(ledger[c])
    &&& forall|id: u64| #[trigger]
        containers.contains(id) ==> exists|c: ChunkCoord| #[trigger]
            ledger.contains_key(c) && ledger[c] == id
    &&& forall|a: ChunkCoord, b: ChunkCoord|
        #[trigger] ledger.contains_key(a) && #[trigger] ledger.contains_key(b) && ledger[a]
            == ledger[b] ==> a == b
}

/// The containers that own the entries of `ledger`.
pub open spec fn owners(ledger: Map<ChunkCoord, u64>) -> Set<u64> {
    Set::new(|id: u64| exists|c: ChunkCoord| #[trigger] ledger.contains_key(c) && ledger[c] == id)
}

/// Populating keeps the ledger and the containers in agreement: when a
/// chunk that the ledger does not hold is populated under a container that
/// is new, the ledger with the new entry agrees with the containers and
/// the new one.
pub proof fn lemma_populating_keeps_agreement(
    ledger: Map<ChunkCoord, u64>,
    containers: Set<u64>,
    chunk: ChunkCoord,
    container: u64,
)
    requires
        ledger_agrees(ledger, containers),
        !ledger.contains_key(chunk),
        !containers.contains(container),
    ensures
        ledger_agrees(ledger.insert(chunk, container), containers.insert(container)),
{
    let after = ledger.insert(chunk, container);
    assert forall|id: u64| #[trigger]
        containers.insert(container).contains(id) implies exists|c: ChunkCoord| #[trigger]
        after.contains_key(c) && after[c] == id by {
        if id == container {
            assert(after.contains_key(chunk) && after[chunk] == id);
        } else {
            let c = choose|c: ChunkCoord| #[trigger] ledger.contains_key(c) && ledger[c] == id;
            assert(after.contains_key(c) && after[c] == id);
        }
    }
}

/// Unloading keeps the ledger and the containers in agreement: the entries
/// that stay agree with the containers that are left when the owners of
/// the unloaded entries have been destroyed. A chunk is in the ledger
/// afterwards exactly if it was in it and is not too far, and then under
/// the container it had.
pub proof fn lemma_unloading_keeps_agreement(
    ledger: Map<ChunkCoord, u64>,
    containers: Set<u64>,
    center: ChunkCoord,
    r: int,
)
    requires
        ledger_agrees(ledger, containers),
    ensures
        ledger_agrees(
            retained(ledger, center, r),
            containers.difference(owners(evicted(ledger, center, r))),
        ),
{
    let stay = retained(ledger, center, r);
    let gone = evicted(ledger, center, r);
    let left = containers.difference(owners(gone));
    assert forall|c: ChunkCoord| #[trigger] stay.contains_key(c) implies left.contains(
        stay[c],
    ) by {
        assert(ledger.contains_key(c));
        if owners(gone).contains(stay[c]) {
            let o = choose|o: ChunkCoord| #[trigger] gone.contains_key(o) && gone[o] == stay[c];
            assert(ledger.contains_key(o));
            assert(o == c);
        }
    }
    assert forall|id: u64| #[trigger] left.contains(id) implies exists|c: ChunkCoord| #[trigger]
        stay.contains_key(c) && stay[c] == id by {
        let c = choose|c: ChunkCoord| #[trigger] ledger.contains_key(c) && ledger[c] == id;
        if too_far(center, r, c) {
            assert(gone.contains_key(c) && gone[c] == id);
            assert(owners(gone).contains(id));
        }
        assert(stay.contains_key(c) && stay[c] == id);
    }
    assert forall|a: ChunkCoord, b: ChunkCoord|
        #[trigger] stay.contains_key(a) && #[trigger] stay.contains_key(b) && stay[a]
            == stay[b] implies a == b by {
        assert(ledger.contains_key(a) && ledger.contains_key(b));
    }
}

/// A chunk at the rim of the render distance does not flicker: the limit
/// beyond which chunks are unloaded is no less than the squared render
/// distance, so that a populated chunk whose squared distance to the
/// player's chunk is at most that stays populated, under the same
/// container, and is not requested again while the player stays where
/// they are.
pub proof fn lemma_rim_chunk_stays(
    ledger: Map<ChunkCoord, u64>,
    center: ChunkCoord,
    r: int,
    chunk: ChunkCoord,
)
    requires
        ledger.contains_key(chunk),
        chunk.dist_sq(center) <= r * r,
    ensures
        r * r <= eviction_limit(r),
        retained(ledger, center, r).contains_key(chunk),
        retained(ledger, center, r)[chunk] == ledger[chunk],
        !is_next_chunk(retained(ledger, center, r), center, r, chunk),
{
    assert(0 <= r * r) by (nonlinear_arith);
    assert(r * r <= r * r * 6 / 5) by (nonlinear_arith)
        requires
            0 <= r * r,
    ;
}

/// While the player stays in one chunk, unloading settles at once: what
/// one unloading has left, a second one leaves as it is.
pub proof fn lemma_unloading_settles(ledger: Map<ChunkCoord, u64>, center: ChunkCoord, r: int)
    ensures
        retained(retained(ledger, center, r), center, r) == retained(ledger, center, r),
        evicted(retained(ledger, center, r), center, r) == Map::<ChunkCoord, u64>::empty(),
{
    assert(retained(retained(ledger, center, r), center, r) =~= retained(ledger, center, r));
    assert(evicted(retained(ledger, center, r), center, r) =~= Map::<ChunkCoord, u64>::empty());
}

} // verus!
