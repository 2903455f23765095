//! The cap on live explosions: which of them are the nearest to the
//! player, and which are destroyed when they are too many.

use vstd::prelude::*;
use crate::geometry::Point;
use crate::red_gas::logic::LiveExplosion;

verus! {

/// Whether, of two explosions at places `i` and `j` of a list, the first
/// ranks before the second: it is nearer to the player, or as near and
/// earlier in the list.
pub open spec fn ranks_before(dists: Seq<int>, i: int, j: int) -> bool {
    dists[i] < dists[j] || (dists[i] == dists[j] && i < j)
}

/// Number of flags that are set.
pub open spec fn count_set(flags: Seq<bool>) -> nat
    decreases flags.len(),
{
    if flags.len() == 0 {
        0
    } else {
        count_set(flags.drop_last()) + if flags.last() {
            1nat
        } else {
            0nat
        }
    }
}

/// Whether `mask` marks the `cap` first in rank of a list with the squared
/// distances `dists`, or all of them if they are fewer.
pub open spec fn is_nearest_mask(mask: Seq<bool>, dists: Seq<int>, cap: int) -> bool {
    &&& mask.len() == dists.len()
    &&& count_set(mask) == if cap < dists.len() {
        cap
    } else {
        dists.len() as int
    }
    &&& forall|i: int, j: int|
        0 <= i < mask.len() && 0 <= j < mask.len() && #[trigger] mask[i] && !#[trigger] mask[j]
            ==> ranks_before(dists, i, j)
}

/// The squared distances of `explosions` to the player, in order.
pub open spec fn distances(explosions: Seq<LiveExplosion>, player: Point) -> Seq<int> {
    explosions.map_values(|live: LiveExplosion| live.explosion.pos.dist_sq(player))
}

/// The first `n` elements of `items` whose flag in `mask` is `want`, in
/// order.
pub open spec fn select_upto(
    items: Seq<LiveExplosion>,
    mask: Seq<bool>,
    want: bool,
    n: nat,
) -> Seq<LiveExplosion>
    decreases n,
{
    if n == 0 {
        Seq::empty()
    } else {
        let before = select_upto(items, mask, want, (n - 1) as nat);
        if mask[n - 1] == want {
            before.push(items[n - 1])
        } else {
            before
        }
    }
}

/// The elements of `items` whose flag in `mask` is `want`, in order.
pub open spec fn select(
    items: Seq<LiveExplosion>,
    mask: Seq<bool>,
    want: bool,
) -> Seq<LiveExplosion> {
    select_upto(items, mask, want, items.len())
}

/// Whether `kept` and `destroyed` are what is left of `before` when no
/// more than `cap` explosions may live: `kept` holds the `cap` first in
/// rank, `destroyed` the others, both in the order of `before`.
pub open spec fn is_pruning(
    before: Seq<LiveExplosion>,
    player: Point,
    cap: int,
    kept: Seq<LiveExplosion>,
    destroyed: Seq<LiveExplosion>,
) -> bool {
    exists|mask: Seq<bool>|
        #![trigger is_nearest_mask(mask, distances(before, player), cap)]
        {
            &&& is_nearest_mask(mask, distances(before, player), cap)
            &&& kept == select(before, mask, true)
            &&& destroyed == select(before, mask, false)
        }
}

/// Setting a flag that was not set raises the count by one.
proof fn lemma_count_set_update(flags: Seq<bool>, at: int)
    requires
        0 <= at < flags.len(),
        !flags[at],
    ensures
        count_set(flags.update(at, true)) == count_set(flags) + 1,
    decreases flags.len(),
{
    let updated = flags.update(at, true);
    if at == flags.len() - 1 {
        assert(updated.drop_last() =~= flags.drop_last());
    } else {
        lemma_count_set_update(flags.drop_last(), at);
        assert(updated.drop_last() =~= flags.drop_last().update(at, true));
    }
}

/// No more flags are set than there are; if all are set, the count is the
/// length.
proof fn lemma_count_set_bounds(flags: Seq<bool>)
    ensures
        count_set(flags) <= flags.len(),
        (forall|i: int| 0 <= i < flags.len() ==> flags[i]) ==> count_set(flags) == flags.len(),
        (forall|i: int| 0 <= i < flags.len() ==> !flags[i]) ==> count_set(flags) == 0,
    decreases flags.len(),
{
    if flags.len() > 0 {
        lemma_count_set_bounds(flags.drop_last());
        assert(forall|i: int|
            0 <= i < flags.drop_last().len() ==> flags.drop_last()[i] == flags[i]);
    }
}

/// The selected elements are as many as the flags that ask for them.
proof fn lemma_select_len(items: Seq<LiveExplosion>, mask: Seq<bool>, n: nat)
    requires
        n <= items.len(),
        items.len() == mask.len(),
    ensures
        select_upto(items, mask, true, n).len() == count_set(mask.take(n as int)),
        select_upto(items, mask, false, n).len() == n - count_set(mask.take(n as int)),
    decreases n,
{
    if n > 0 {
        lemma_select_len(items, mask, (n - 1) as nat);
        assert(mask.take(n as int).drop_last() =~= mask.take(n - 1));
    }
}

/// Marks the `cap` first in rank of a list with the squared distances
/// `dists`, or all of them if they are fewer.
pub fn nearest_mask(dists: &Vec<u128>, cap: usize) -> (mask: Vec<bool>)
    ensures
        is_nearest_mask(mask@, dists@.map_values(|d: u128| d as int), cap as int),
{
    let ghost wide = dists@.map_values(|d: u128| d as int);
    let n: usize = dists.len();
    let rounds: usize = if cap < n {
        cap
    } else {
        n
    };
    let mut mask: Vec<bool> = Vec::new();
    let mut k: usize = 0;
    while k < n
        invariant
            k <= n,
            mask@.len() == k,
            forall|i: int| 0 <= i < k ==> !mask@[i],
        decreases n - k,
    {
        mask.push(false);
        k = k + 1;
    }
    proof {
        lemma_count_set_bounds(mask@);
    }
    let mut round: usize = 0;
    while round < rounds
        invariant
            round <= rounds <= n,
            n == dists@.len(),
            mask@.len() == n,
            wide == dists@.map_values(|d: u128| d as int),
            count_set(mask@) == round,
            forall|i: int, j: int|
                0 <= i < n && 0 <= j < n && #[trigger] mask@[i] && !#[trigger] mask@[j]
                    ==> ranks_before(wide, i, j),
        decreases rounds - round,
    {
        let mut best: usize = n;
        let mut j: usize = 0;
        while j < n
            invariant
                j <= n,
                n == dists@.len(),
                mask@.len() == n,
                wide == dists@.map_values(|d: u128| d as int),
                best <= n,
                best < n ==> best < j && !mask@[best as int],
                best == n ==> forall|i: int| 0 <= i < j ==> mask@[i],
                forall|i: int|
                    0 <= i < j && !#[trigger] mask@[i] && i != best ==> ranks_before(
                        wide,
                        best as int,
                        i,
                    ),
            decreases n - j,
        {
            if !mask[j] {
                if best == n || dists[j] < dists[best] {
                    best = j;
                }
            }
            j = j + 1;
        }
        proof {
            lemma_count_set_bounds(mask@);
            if best == n {
                assert(forall|i: int| 0 <= i < mask@.len() ==> mask@[i]);
            }
            lemma_count_set_update(mask@, best as int);
        }
        mask.set(best, true);
        round = round + 1;
    }
    mask
}

/// Destroys the explosions beyond the `cap` nearest to the player: the
/// explosions are ranked by their squared distance to the player, equally
/// near ones in list order, and all after the first `cap` are taken out of
/// the list and returned.
///
/// With more than `cap` explosions, exactly `cap` stay and all others are
/// returned, and none that stays is farther from the player than one that
/// is returned.
pub fn prune_by_distance(
    explosions: &mut Vec<LiveExplosion>,
    player: &Point,
    cap: usize,
) -> (destroyed: Vec<LiveExplosion>)
    ensures
        is_pruning(old(explosions)@, *player, cap as int, final(explosions)@, destroyed@),
        final(explosions)@.len() == if cap < old(explosions)@.len() {
            cap as int
        } else {
            old(explosions)@.len() as int
        },
        destroyed@.len() == old(explosions)@.len() - final(explosions)@.len(),
        forall|i: int, j: int|
            0 <= i < final(explosions)@.len() && 0 <= j < destroyed@.len() ==> (
            #[trigger] final(explosions)@[i]).explosion.pos.dist_sq(*player) <= (
            #[trigger] destroyed@[j]).explosion.pos.dist_sq(*player),
{
    let ghost before = explosions@;
    let ghost wide = distances(before, *player);
    let n: usize = explosions.len();
    let mut dists: Vec<u128> = Vec::new();
    let mut i: usize = 0;
    while i < n
        invariant
            i <= n,
            n == explosions@.len(),
            explosions@ == before,
            dists@.len() == i,
            forall|k: int|
                0 <= k < i ==> #[trigger] dists@[k] == before[k].explosion.pos.dist_sq(*player),
        decreases n - i,
    {
        dists.push(explosions[i].explosion.pos.distance_squared(player));
        i = i + 1;
    }
    proof {
        assert(dists@.map_values(|d: u128| d as int) =~= wide);
    }
    let mask: Vec<bool> = nearest_mask(&dists, cap);
    let mut kept: Vec<LiveExplosion> = Vec::new();
    let mut destroyed: Vec<LiveExplosion> = Vec::new();
    let ghost mut kept_from: Seq<int> = Seq::empty();
    let ghost mut destroyed_from: Seq<int> = Seq::empty();
    let mut k: usize = 0;
    while k < n
        invariant
            k <= n,
            n == before.len(),
            explosions@ == before,
            mask@.len() == n,
            kept@ == select_upto(before, mask@, true, k as nat),
            destroyed@ == select_upto(before, mask@, false, k as nat),
            kept_from.len() == kept@.len(),
            destroyed_from.len() == destroyed@.len(),
            forall|a: int|
                0 <= a < kept@.len() ==> 0 <= #[trigger] kept_from[a] < k && mask@[kept_from[a]]
                    && kept@[a] == before[kept_from[a]],
            forall|a: int|
                0 <= a < destroyed@.len() ==> 0 <= #[trigger] destroyed_from[a] < k
                    && !mask@[destroyed_from[a]] && destroyed@[a] == before[destroyed_from[a]],
        decreases n - k,
    {
        if mask[k] {
            kept.push(explosions[k]);
            proof {
                kept_from = kept_from.push(k as int);
            }
        } else {
            destroyed.push(explosions[k]);
            proof {
                destroyed_from = destroyed_from.push(k as int);
            }
        }
        k = k + 1;
    }
    proof {
        lemma_select_len(before, mask@, n as nat);
        assert(mask@.take(n as int) =~= mask@);
        assert(is_nearest_mask(mask@, distances(before, *player), cap as int));
        assert forall|i: int, j: int|
            0 <= i < kept@.len() && 0 <= j < destroyed@.len() implies (
        #[trigger] kept@[i]).explosion.pos.dist_sq(*player) <= (
        #[trigger] destroyed@[j]).explosion.pos.dist_sq(*player) by {
            let a = kept_from[i];
            let b = destroyed_from[j];
            assert(mask@[a] && !mask@[b]);
            assert(ranks_before(wide, a, b));
        }
    }
    *explosions = kept;
    destroyed
}

/// The cap on live explosions: when more than `cap` explosions are pruned,
/// exactly `cap` stay and all others are destroyed; in any case none that
/// stays ranks behind one that is destroyed, so that the destroyed ones
/// are the farthest from the player.
pub proof fn lemma_pruning_leaves_cap(
    before: Seq<LiveExplosion>,
    player: Point,
    cap: int,
    kept: Seq<LiveExplosion>,
    destroyed: Seq<LiveExplosion>,
)
    requires
        0 <= cap,
        is_pruning(before, player, cap, kept, destroyed),
    ensures
        before.len() > cap ==> kept.len() == cap && destroyed.len() == before.len() - cap,
        before.len() <= cap ==> kept == before && destroyed.len() == 0,
        forall|i: int, j: int|
            0 <= i < kept.len() && 0 <= j < destroyed.len() ==> (
            #[trigger] kept[i]).explosion.pos.dist_sq(player) <= (
            #[trigger] destroyed[j]).explosion.pos.dist_sq(player),
{
    let dists = distances(before, player);
    let mask = choose|mask: Seq<bool>|
        #![trigger is_nearest_mask(mask, distances(before, player), cap)]
        {
            &&& is_nearest_mask(mask, distances(before, player), cap)
            &&& kept == select(before, mask, true)
            &&& destroyed == select(before, mask, false)
        };
    let n = before.len();
    lemma_select_len(before, mask, n);
    assert(mask.take(n as int) =~= mask);
    lemma_select_origin(before, mask, true, n);
    lemma_select_origin(before, mask, false, n);
    assert forall|i: int, j: int| 0 <= i < kept.len() && 0 <= j < destroyed.len() implies (
    #[trigger] kept[i]).explosion.pos.dist_sq(player) <= (
    #[trigger] destroyed[j]).explosion.pos.dist_sq(player) by {
        assert(stands_at(before, mask, true, n, kept[i]));
        assert(stands_at(before, mask, false, n, destroyed[j]));
        let a = choose|a: int| 0 <= a < n && #[trigger] mask[a] == true && before[a] == kept[i];
        let b = choose|b: int|
            0 <= b < n && #[trigger] mask[b] == false && before[b] == destroyed[j];
        assert(mask[a] && !mask[b]);
        assert(ranks_before(dists, a, b));
    }
    if n <= cap {
        lemma_count_set_bounds(mask);
        lemma_all_set(mask);
        lemma_select_all(before, mask, n);
    }
}

/// Whether `x` stands among the first `n` of `items` at a place whose flag
/// is `want`.
spec fn stands_at(
    items: Seq<LiveExplosion>,
    mask: Seq<bool>,
    want: bool,
    n: nat,
    x: LiveExplosion,
) -> bool {
    exists|a: int| 0 <= a < n && #[trigger] mask[a] == want && items[a] == x
}

/// Each selected element stands in the list at a place whose flag asks for
/// it.
proof fn lemma_select_origin(items: Seq<LiveExplosion>, mask: Seq<bool>, want: bool, n: nat)
    requires
        n <= items.len(),
        items.len() == mask.len(),
    ensures
        forall|i: int|
            0 <= i < select_upto(items, mask, want, n).len() ==> stands_at(
                items,
                mask,
                want,
                n,
                #[trigger] select_upto(items, mask, want, n)[i],
            ),
    decreases n,
{
    if n > 0 {
        lemma_select_origin(items, mask, want, (n - 1) as nat);
        let before = select_upto(items, mask, want, (n - 1) as nat);
        let after = select_upto(items, mask, want, n);
        assert forall|i: int| 0 <= i < after.len() implies stands_at(
            items,
            mask,
            want,
            n,
            #[trigger] after[i],
        ) by {
            if i < before.len() {
                assert(stands_at(items, mask, want, (n - 1) as nat, before[i]));
                let a = choose|a: int|
                    0 <= a < n - 1 && #[trigger] mask[a] == want && items[a] == before[i];
                assert(mask[a] == want && items[a] == after[i]);
            } else {
                assert(mask[n - 1] == want && items[n - 1] == after[i]);
            }
        }
    }
}

/// Flags that are as many set as there are, are all set.
proof fn lemma_all_set(flags: Seq<bool>)
    requires
        count_set(flags) == flags.len(),
    ensures
        forall|i: int| 0 <= i < flags.len() ==> flags[i],
    decreases flags.len(),
{
    if flags.len() > 0 {
        lemma_count_set_bounds(flags.drop_last());
        lemma_all_set(flags.drop_last());
        assert forall|i: int| 0 <= i < flags.len() implies flags[i] by {
            if i < flags.len() - 1 {
                assert(flags.drop_last()[i]);
            }
        }
    }
}

/// Where every flag asks for its element, the selection is the list.
proof fn lemma_select_all(items: Seq<LiveExplosion>, mask: Seq<bool>, n: nat)
    requires
        n <= items.len(),
        items.len() == mask.len(),
        forall|i: int| 0 <= i < mask.len() ==> mask[i],
    ensures
        select_upto(items, mask, true, n) == items.take(n as int),
        select_upto(items, mask, false, n).len() == 0,
    decreases n,
{
    if n > 0 {
        lemma_select_all(items, mask, (n - 1) as nat);
        assert(items.take(n as int) =~= items.take(n - 1).push(items[n - 1]));
    } else {
        assert(items.take(0) =~= Seq::<LiveExplosion>::empty());
    }
}

/// Flags that are set wherever those of another list are set, are set no
/// less often; and more often if they are set somewhere where the others
/// are not.
proof fn lemma_count_set_order(fewer: Seq<bool>, more: Seq<bool>)
    requires
        fewer.len() == more.len(),
        forall|i: int| 0 <= i < fewer.len() ==> (fewer[i] ==> more[i]),
    ensures
        count_set(fewer) <= count_set(more),
        (exists|i: int| 0 <= i < fewer.len() && more[i] && !fewer[i]) ==> count_set(fewer)
            < count_set(more),
    decreases fewer.len(),
{
    if fewer.len() > 0 {
        let a = fewer.drop_last();
        let b = more.drop_last();
        assert(forall|i: int| 0 <= i < a.len() ==> a[i] == fewer[i] && b[i] == more[i]);
        lemma_count_set_order(a, b);
        if exists|i: int| 0 <= i < fewer.len() && more[i] && !fewer[i] {
            let i = choose|i: int| 0 <= i < fewer.len() && more[i] && !fewer[i];
            if i < fewer.len() - 1 {
                assert(b[i] && !a[i]);
            }
        }
    }
}

/// The ranking leaves no choice: two masks that both mark the `cap` first
/// in rank of the same list are the same mask.
pub proof fn lemma_nearest_mask_is_unique(a: Seq<bool>, b: Seq<bool>, dists: Seq<int>, cap: int)
    requires
        is_nearest_mask(a, dists, cap),
        is_nearest_mask(b, dists, cap),
    ensures
        a == b,
{
    assert forall|i: int| 0 <= i < a.len() implies a[i] == b[i] by {
        if a[i] != b[i] {
            // one mask marks `i` and the other does not; as both mark as
            // many, the other marks some `j` that the first does not
            let (one, other) = if a[i] {
                (a, b)
            } else {
                (b, a)
            };
            assert(one[i] && !other[i]);
            if forall|j: int| 0 <= j < other.len() ==> (other[j] ==> one[j]) {
                lemma_count_set_order(other, one);
                assert(false);
            }
            let j = choose|j: int| 0 <= j < other.len() && other[j] && !one[j];
            assert(ranks_before(dists, i, j));
            assert(ranks_before(dists, j, i));
        }
    }
    assert(a =~= b);
}

} // verus!
