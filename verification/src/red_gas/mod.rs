//! Explosive orbs and the explosions they set off.

use vstd::prelude::*;
use std::collections::HashMap;
use crate::geometry::Point;

pub mod logic;
pub mod ranking;

verus! {

broadcast use vstd::std_specs::hash::group_hash_axioms;

/// Radius that an explosion grows to, in fixed-point steps.
pub const MAX_EXPLOSION_RADIUS: u32 = 1_500_000;

/// Time that an explosion takes to grow to its full radius, in seconds.
pub const EXPLOSION_DURATION_SECS: u64 = 10;

/// Distance from the player, in fixed-point steps, beyond which an
/// explosion is cleaned up.
pub const EXPLOSION_CLEANUP_RADIUS: u32 = 3_000_000;

/// Number of orbs that an explosion may set off before it is spent.
pub const INTERACTION_BUDGET: usize = 7;

/// Time inside explosions, in milliseconds, at which the damage is deadly.
pub const LETHAL_EXPOSURE: u32 = 3000;

/// The damage that explosions have done to the player: the time, in
/// milliseconds, that the player has spent inside explosions without a
/// break. At `LETHAL_EXPOSURE` the player must die.
#[derive(Clone, Copy, Debug, PartialEq, Eq, Structural)]
pub struct ExplosionDamage(pub u32);

/// An armed explosive orb.
#[derive(Clone, Copy, Debug, PartialEq, Eq, Structural)]
pub struct RedGasOrb {
    pub radius: u32,
    pub pos: Point,
}

/// A live explosion: a disc around `pos` whose radius the host lets grow.
#[derive(Clone, Copy, Debug, PartialEq, Eq, Structural)]
pub struct RedOrbExplosion {
    pub radius: u32,
    pub pos: Point,
    /// The number of orbs that this explosion has set off.
    pub interactions: usize,
}

/// A request to detonate one explosive orb.
#[derive(Clone, Copy, Debug, PartialEq, Eq, Structural)]
pub struct RedOrbExplosionEvent {
    pub entity: u64,
}

/// The explosive orbs named by `events`, in order.
pub open spec fn event_targets(events: Seq<RedOrbExplosionEvent>) -> Seq<u64> {
    events.map_values(|e: RedOrbExplosionEvent| e.entity)
}

/// The armed explosive orbs, by entity.
pub struct RedOrbRegistry {
    orbs: HashMap<u64, RedGasOrb>,
}

impl View for RedOrbRegistry {
    type V = Map<u64, RedGasOrb>;

    closed spec fn view(&self) -> Map<u64, RedGasOrb> {
        self.orbs@
    }
}

impl RedOrbRegistry {
    /// A registry without orbs.
    pub fn new() -> (registry: RedOrbRegistry)
        ensures
            registry@ == Map::<u64, RedGasOrb>::empty(),
    {
        RedOrbRegistry { orbs: HashMap::new() }
    }

    /// Registers `orb` as the armed orb of `entity`.
    pub fn insert(&mut self, entity: u64, orb: RedGasOrb)
        ensures
            final(self)@ == old(self)@.insert(entity, orb),
    {
        self.orbs.insert(entity, orb);
    }

    /// Takes the orb of `entity` out of the registry and returns it, if
    /// there is one.
    pub fn remove(&mut self, entity: u64) -> (orb: Option<RedGasOrb>)
        ensures
            final(self)@ == old(self)@.remove(entity),
            orb == (if old(self)@.contains_key(entity) {
                Some(old(self)@[entity])
            } else {
                None::<RedGasOrb>
            }),
    {
        self.orbs.remove(&entity)
    }

    /// Whether `entity` is an armed orb.
    pub fn contains(&self, entity: u64) -> (armed: bool)
        ensures
            armed == self@.contains_key(entity),
    {
        self.orbs.contains_key(&entity)
    }
}

impl ExplosionDamage {
    /// The damage after `elapsed` more milliseconds: it grows by the time
    /// that has passed while the player is inside an explosion, and is gone
    /// as soon as the player is outside of all.
    pub open spec fn after(self, inside: bool, elapsed: u32) -> ExplosionDamage {
        if inside {
            if self.0 + elapsed > u32::MAX {
                ExplosionDamage(u32::MAX)
            } else {
                ExplosionDamage((self.0 + elapsed) as u32)
            }
        } else {
            ExplosionDamage(0)
        }
    }

    /// Accounts for `elapsed` more milliseconds.
    pub fn accumulate(&mut self, inside: bool, elapsed: u32)
        ensures
            *final(self) == old(self).after(inside, elapsed),
    {
        if inside {
            self.0 = self.0.saturating_add(elapsed);
        } else {
            self.0 = 0;
        }
    }

    /// Whether the damage is deadly.
    pub fn is_lethal(&self) -> (dead: bool)
        ensures
            dead == (self.0 >= LETHAL_EXPOSURE),
    {
        self.0 >= LETHAL_EXPOSURE
    }
}

} // verus!
