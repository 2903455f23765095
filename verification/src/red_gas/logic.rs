//! The life of explosions: how orbs detonate, how explosions set off
//! further orbs, and which explosions are cleaned up.

use vstd::prelude::*;
use vstd::seq_lib::lemma_seq_contains_after_push;
use std::collections::HashSet;
use crate::geometry::Point;
use crate::red_gas::{
    event_targets,
    ExplosionDamage,
    RedGasOrb,
    RedOrbExplosion,
    RedOrbExplosionEvent,
    RedOrbRegistry,
    EXPLOSION_CLEANUP_RADIUS,
    INTERACTION_BUDGET,
};
use crate::red_gas::ranking::{is_pruning, prune_by_distance};
use crate::space::intro::IntroState;
use crate::spatial::{hits, IndexEntry, SpatialIndex};

verus! {

broadcast use vstd::std_specs::hash::group_hash_axioms;

/// Number of explosions that are kept alive at once.
pub const MAX_EXPLOSION_COUNT: usize = 20;

/// Number of explosions that are kept alive at once during the intro.
pub const MAX_EXPLOSION_COUNT_INTRO: usize = 60;

/// An orb that detonates: the orb entity to remove, and the explosion that
/// takes its place.
#[derive(Clone, Copy, Debug, PartialEq, Eq, Structural)]
pub struct Detonation {
    pub entity: u64,
    pub explosion: RedOrbExplosion,
}

/// The explosion that `orb` turns into: at the orb's position, with the
/// orb's radius, and without interactions so far.
pub open spec fn explosion_of(orb: RedGasOrb) -> RedOrbExplosion {
    RedOrbExplosion { radius: orb.radius, pos: orb.pos, interactions: 0 }
}

/// The registry after the first `n` events: without the orbs they name.
pub open spec fn armed_after(
    orbs: Map<u64, RedGasOrb>,
    events: Seq<RedOrbExplosionEvent>,
    n: nat,
) -> Map<u64, RedGasOrb>
    decreases n,
{
    if n == 0 {
        orbs
    } else {
        armed_after(orbs, events, (n - 1) as nat).remove(events[n - 1].entity)
    }
}

/// The detonations that the first `n` events cause: one for each event
/// that names an orb which is still armed when its turn comes.
pub open spec fn detonations_upto(
    orbs: Map<u64, RedGasOrb>,
    events: Seq<RedOrbExplosionEvent>,
    n: nat,
) -> Seq<Detonation>
    decreases n,
{
    if n == 0 {
        Seq::empty()
    } else {
        let before = detonations_upto(orbs, events, (n - 1) as nat);
        let armed = armed_after(orbs, events, (n - 1) as nat);
        let entity = events[n - 1].entity;
        if armed.contains_key(entity) {
            before.push(Detonation { entity, explosion: explosion_of(armed[entity]) })
        } else {
            before
        }
    }
}

/// Detonates the orbs that `events` name, in order. An orb that is armed
/// leaves the registry and an explosion takes its place; an event that
/// names no armed orb, or an orb that an earlier event has detonated, does
/// nothing.
pub fn explode_orbs(
    events: &Vec<RedOrbExplosionEvent>,
    orbs: &mut RedOrbRegistry,
) -> (detonations: Vec<Detonation>)
    ensures
        detonations@ == detonations_upto(old(orbs)@, events@, events@.len()),
        final(orbs)@ == armed_after(old(orbs)@, events@, events@.len()),
{
    let mut detonations: Vec<Detonation> = Vec::new();
    let mut i: usize = 0;
    while i < events.len()
        invariant
            i <= events.len(),
            detonations@ == detonations_upto(old(orbs)@, events@, i as nat),
            orbs@ == armed_after(old(orbs)@, events@, i as nat),
        decreases events.len() - i,
    {
        let entity: u64 = events[i].entity;
        match orbs.remove(entity) {
            Some(orb) => {
                detonations.push(
                    Detonation {
                        entity,
                        explosion: RedOrbExplosion {
                            radius: orb.radius,
                            pos: orb.pos,
                            interactions: 0,
                        },
                    },
                );
            },
            None => {},
        }
        i = i + 1;
    }
    detonations
}

/// A live explosion with its entity.
#[derive(Clone, Copy, Debug, PartialEq, Eq, Structural)]
pub struct LiveExplosion {
    pub entity: u64,
    pub explosion: RedOrbExplosion,
}

/// What one pass over the explosions asks the host to do.
pub struct InteractionReport {
    /// The orbs that the explosions have set off, to be detonated.
    pub red_orb_events: Vec<RedOrbExplosionEvent>,
    /// The explosions that are over, to be destroyed.
    pub destroyed: Vec<LiveExplosion>,
    /// Whether the player is inside an explosion.
    pub inside: bool,
}

/// Number of explosions that are kept alive at once.
pub open spec fn explosion_cap(intro: IntroState) -> int {
    if intro.0 {
        MAX_EXPLOSION_COUNT_INTRO as int
    } else {
        MAX_EXPLOSION_COUNT as int
    }
}

/// `count` raised by `more`, held at the largest count.
pub open spec fn raised_count(count: usize, more: int) -> usize {
    if count + more > usize::MAX {
        usize::MAX
    } else {
        (count + more) as usize
    }
}

/// The orbs set off in a pass so far, after one explosion has looked at the
/// first `n` of the orbs `found` in its disc: `prior` are those set off
/// before, and an orb is added if it is armed and not set off already.
pub open spec fn set_off_upto(
    found: Seq<IndexEntry>,
    armed: Map<u64, RedGasOrb>,
    prior: Seq<u64>,
    n: nat,
) -> Seq<u64>
    decreases n,
{
    if n == 0 {
        prior
    } else {
        let sofar = set_off_upto(found, armed, prior, (n - 1) as nat);
        let id = found[n - 1].id;
        if armed.contains_key(id) && !sofar.contains(id) {
            sofar.push(id)
        } else {
            sofar
        }
    }
}

/// What a pass over the explosions has gathered.
pub struct Sweep {
    /// The explosions that go on, in order, with their interactions
    /// counted.
    pub kept: Seq<LiveExplosion>,
    /// The explosions that are spent or too far away, in order.
    pub destroyed: Seq<LiveExplosion>,
    /// The orbs set off, in order.
    pub set_off: Seq<u64>,
    /// Whether the player is inside an explosion.
    pub inside: bool,
}

/// The pass before its first explosion.
pub open spec fn sweep_start() -> Sweep {
    Sweep { kept: Seq::empty(), destroyed: Seq::empty(), set_off: Seq::empty(), inside: false }
}

/// Whether an explosion is spent: it has set off more orbs than its budget
/// allows.
pub open spec fn is_spent(explosion: RedOrbExplosion) -> bool {
    explosion.interactions > INTERACTION_BUDGET
}

/// Whether an explosion is too far from the player to be kept.
pub open spec fn is_out_of_reach(explosion: RedOrbExplosion, player: Point) -> bool {
    explosion.pos.dist_sq(player) > EXPLOSION_CLEANUP_RADIUS * EXPLOSION_CLEANUP_RADIUS
}

/// The pass `s` after it has handled the explosion `live`.
///
/// A spent explosion is destroyed and does nothing more. Any other marks
/// the player as inside if the player stands in its disc. If it is out of
/// reach it is destroyed; else it sets off the armed orbs in its disc that
/// no explosion has set off in this pass, and counts them.
pub open spec fn sweep_step(
    s: Sweep,
    live: LiveExplosion,
    player: Point,
    red_orbs: Seq<IndexEntry>,
    armed: Map<u64, RedGasOrb>,
) -> Sweep {
    let explosion = live.explosion;
    if is_spent(explosion) {
        Sweep { destroyed: s.destroyed.push(live), ..s }
    } else {
        let inside = s.inside || player.inside(explosion.pos, explosion.radius);
        if is_out_of_reach(explosion, player) {
            Sweep { destroyed: s.destroyed.push(live), inside, ..s }
        } else {
            let found = hits(red_orbs, explosion.pos, explosion.radius);
            let set_off = set_off_upto(found, armed, s.set_off, found.len());
            let counted = RedOrbExplosion {
                interactions: raised_count(explosion.interactions, set_off.len() - s.set_off.len()),
                ..explosion
            };
            Sweep {
                kept: s.kept.push(LiveExplosion { entity: live.entity, explosion: counted }),
                destroyed: s.destroyed,
                set_off,
                inside,
            }
        }
    }
}

/// The pass over `explosions`, front to back.
pub open spec fn sweep(
    explosions: Seq<LiveExplosion>,
    player: Point,
    red_orbs: Seq<IndexEntry>,
    armed: Map<u64, RedGasOrb>,
) -> Sweep
    decreases explosions.len(),
{
    if explosions.len() == 0 {
        sweep_start()
    } else {
        sweep_step(
            sweep(explosions.drop_last(), player, red_orbs, armed),
            explosions.last(),
            player,
            red_orbs,
            armed,
        )
    }
}

/// Whether `kept` and `destroyed` are what a pass leaves of the explosions
/// that the sweep `s` has gathered: the sweep's survivors are pruned to
/// the cap, and `destroyed` holds what the sweep destroyed, then what the
/// pruning took out.
pub open spec fn is_pass(
    s: Sweep,
    player: Point,
    intro: IntroState,
    kept: Seq<LiveExplosion>,
    destroyed: Seq<LiveExplosion>,
) -> bool {
    exists|pruned: Seq<LiveExplosion>|
        #![trigger is_pruning(s.kept, player, explosion_cap(intro), kept, pruned)]
        {
            &&& is_pruning(s.kept, player, explosion_cap(intro), kept, pruned)
            &&& destroyed == s.destroyed + pruned
        }
}

/// The count of interactions never goes down: every explosion that a pass
/// keeps is an explosion of the list, at the same place, with the same
/// radius and with no fewer interactions than before; and it was not spent
/// when the pass began.
pub proof fn lemma_interactions_never_decrease(
    explosions: Seq<LiveExplosion>,
    player: Point,
    red_orbs: Seq<IndexEntry>,
    armed: Map<u64, RedGasOrb>,
)
    ensures
        forall|a: int|
            0 <= a < sweep(explosions, player, red_orbs, armed).kept.len() ==> counted_from(
                explosions,
                #[trigger] sweep(explosions, player, red_orbs, armed).kept[a],
            ),
    decreases explosions.len(),
{
    if explosions.len() > 0 {
        let front = explosions.drop_last();
        let live = explosions.last();
        let before = sweep(front, player, red_orbs, armed);
        let after = sweep(explosions, player, red_orbs, armed);
        lemma_interactions_never_decrease(front, player, red_orbs, armed);
        assert forall|a: int| 0 <= a < after.kept.len() implies counted_from(
            explosions,
            #[trigger] after.kept[a],
        ) by {
            if a < before.kept.len() {
                assert(after.kept[a] == before.kept[a]);
                assert(counted_from(front, before.kept[a]));
                let k = choose|k: int|
                    0 <= k < front.len() && is_counted(#[trigger] front[k], before.kept[a]);
                assert(is_counted(explosions[k], after.kept[a]));
            } else {
                let found = hits(red_orbs, live.explosion.pos, live.explosion.radius);
                lemma_set_off_grows(found, armed, before.set_off, found.len());
                assert(is_counted(explosions[explosions.len() - 1], after.kept[a]));
            }
        }
    }
}

/// Whether `after` is the explosion `before` with its interactions counted
/// up: the same entity at the same place with the same radius, not spent
/// before, and with no fewer interactions.
pub open spec fn is_counted(before: LiveExplosion, after: LiveExplosion) -> bool {
    &&& after.entity == before.entity
    &&& after.explosion.pos == before.explosion.pos
    &&& after.explosion.radius == before.explosion.radius
    &&& !is_spent(before.explosion)
    &&& after.explosion.interactions >= before.explosion.interactions
}

/// Whether `after` is one of `explosions` with its interactions counted up.
pub open spec fn counted_from(explosions: Seq<LiveExplosion>, after: LiveExplosion) -> bool {
    exists|k: int| 0 <= k < explosions.len() && is_counted(#[trigger] explosions[k], after)
}

/// The orbs set off in a pass only become more.
proof fn lemma_set_off_grows(
    found: Seq<IndexEntry>,
    armed: Map<u64, RedGasOrb>,
    prior: Seq<u64>,
    n: nat,
)
    ensures
        set_off_upto(found, armed, prior, n).len() >= prior.len(),
    decreases n,
{
    if n > 0 {
        lemma_set_off_grows(found, armed, prior, (n - 1) as nat);
    }
}

/// One explosion sets off the orbs in its disc: each of `found` that is
/// armed and that no explosion has set off in this pass is added to
/// `events` and to `exploded`, and counted in `interactions`.
fn set_off(
    found: &Vec<IndexEntry>,
    orbs: &RedOrbRegistry,
    events: &mut Vec<RedOrbExplosionEvent>,
    exploded: &mut HashSet<u64>,
    interactions: usize,
) -> (counted: usize)
    requires
        forall|id: u64|
            old(exploded)@.contains(id) <==> #[trigger] event_targets(old(events)@).contains(id),
    ensures
        event_targets(final(events)@) == set_off_upto(
            found@,
            orbs@,
            event_targets(old(events)@),
            found@.len(),
        ),
        counted == raised_count(interactions, final(events)@.len() - old(events)@.len()),
        final(events)@.len() >= old(events)@.len(),
        forall|id: u64|
            final(exploded)@.contains(id) <==> #[trigger] event_targets(final(events)@).contains(
                id,
            ),
{
    let ghost prior = event_targets(events@);
    let mut counted: usize = interactions;
    let mut k: usize = 0;
    while k < found.len()
        invariant
            k <= found.len(),
            prior == event_targets(old(events)@),
            events@.len() >= old(events)@.len(),
            event_targets(events@) == set_off_upto(found@, orbs@, prior, k as nat),
            counted == raised_count(interactions, events@.len() - old(events)@.len()),
            forall|id: u64|
                exploded@.contains(id) <==> #[trigger] event_targets(events@).contains(id),
        decreases found.len() - k,
    {
        let id: u64 = found[k].id;
        if orbs.contains(id) && !exploded.contains(&id) {
            let ghost sofar = event_targets(events@);
            let ghost before = events@;
            counted = counted.saturating_add(1);
            events.push(RedOrbExplosionEvent { entity: id });
            exploded.insert(id);
            proof {
                before.lemma_push_map_commute(
                    |e: RedOrbExplosionEvent| e.entity,
                    RedOrbExplosionEvent { entity: id },
                );
                assert(event_targets(events@) == sofar.push(id));
                assert forall|x: u64|
                    exploded@.contains(x) <==> #[trigger] event_targets(events@).contains(
                        x,
                    ) by {
                    lemma_seq_contains_after_push(sofar, id, x);
                }
            }
        }
        k = k + 1;
    }
    counted
}

/// One pass over the live explosions.
///
/// Explosions that are spent or out of reach are destroyed; the others set
/// off the armed orbs in their discs, each orb at most once in the pass.
/// Of those that are left, only the nearest to the player stay: 60 while
/// the intro plays, 20 after it. The damage grows by `elapsed` milliseconds
/// while the player is inside an explosion that is not spent, and is gone
/// otherwise.
pub fn check_explosion_interactions(
    explosions: &mut Vec<LiveExplosion>,
    red_orb_tree: &SpatialIndex,
    orbs: &RedOrbRegistry,
    player: &Point,
    explosion_damage: &mut ExplosionDamage,
    intro_state: &IntroState,
    elapsed: u32,
) -> (report: InteractionReport)
    ensures
        is_pass(
            sweep(old(explosions)@, *player, red_orb_tree@, orbs@),
            *player,
            *intro_state,
            final(explosions)@,
            report.destroyed@,
        ),
        event_targets(report.red_orb_events@) == sweep(
            old(explosions)@,
            *player,
            red_orb_tree@,
            orbs@,
        ).set_off,
        report.inside == sweep(old(explosions)@, *player, red_orb_tree@, orbs@).inside,
        *final(explosion_damage) == old(explosion_damage).after(report.inside, elapsed),
{
    let ghost all = explosions@;
    let mut kept: Vec<LiveExplosion> = Vec::new();
    let mut destroyed: Vec<LiveExplosion> = Vec::new();
    let mut red_orb_events: Vec<RedOrbExplosionEvent> = Vec::new();
    let mut already_exploded: HashSet<u64> = HashSet::new();
    let mut is_inside_explosion: bool = false;
    let ghost mut state = sweep_start();
    let mut i: usize = 0;
    let reach: u128 = (EXPLOSION_CLEANUP_RADIUS as u128) * (EXPLOSION_CLEANUP_RADIUS as u128);
    proof {
        assert(all.take(0) =~= Seq::<LiveExplosion>::empty());
        assert(event_targets(red_orb_events@) =~= Seq::<u64>::empty());
    }
    while i < explosions.len()
        invariant
            i <= explosions.len(),
            explosions@ == all,
            reach == EXPLOSION_CLEANUP_RADIUS * EXPLOSION_CLEANUP_RADIUS,
            state == sweep(all.take(i as int), *player, red_orb_tree@, orbs@),
            kept@ == state.kept,
            destroyed@ == state.destroyed,
            event_targets(red_orb_events@) == state.set_off,
            is_inside_explosion == state.inside,
            forall|id: u64|
                already_exploded@.contains(id) <==> #[trigger] event_targets(
                    red_orb_events@,
                ).contains(id),
        decreases explosions.len() - i,
    {
        let live: LiveExplosion = explosions[i];
        let explosion: RedOrbExplosion = live.explosion;
        proof {
            assert(all.take(i as int + 1).drop_last() =~= all.take(i as int));
            assert(all.take(i as int + 1).last() == live);
            state = sweep_step(state, live, *player, red_orb_tree@, orbs@);
        }
        if explosion.interactions > INTERACTION_BUDGET {
            destroyed.push(live);
        } else {
            if player.within(&explosion.pos, explosion.radius) {
                is_inside_explosion = true;
            }
            if explosion.pos.distance_squared(player) > reach {
                destroyed.push(live);
            } else {
                let found: Vec<IndexEntry> = red_orb_tree.within_distance(
                    &explosion.pos,
                    explosion.radius,
                );
                let interactions: usize = set_off(
                    &found,
                    orbs,
                    &mut red_orb_events,
                    &mut already_exploded,
                    explosion.interactions,
                );
                kept.push(
                    LiveExplosion {
                        entity: live.entity,
                        explosion: RedOrbExplosion {
                            radius: explosion.radius,
                            pos: explosion.pos,
                            interactions,
                        },
                    },
                );
            }
        }
        i = i + 1;
    }
    proof {
        assert(all.take(i as int) =~= all);
    }
    let max_explosion_count: usize = if intro_state.0 {
        MAX_EXPLOSION_COUNT_INTRO
    } else {
        MAX_EXPLOSION_COUNT
    };
    let mut pruned: Vec<LiveExplosion> = prune_by_distance(&mut kept, player, max_explosion_count);
    let ghost pruned_seq = pruned@;
    destroyed.append(&mut pruned);
    *explosions = kept;
    explosion_damage.accumulate(is_inside_explosion, elapsed);
    proof {
        assert(is_pruning(
            state.kept,
            *player,
            explosion_cap(*intro_state),
            explosions@,
            pruned_seq,
        ));
    }
    InteractionReport { red_orb_events, destroyed, inside: is_inside_explosion }
}

} // verus!
