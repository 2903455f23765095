//! Gas orbs: the combustible particles of the world.

use vstd::prelude::*;

pub mod burn;
pub mod lineage;

verus! {

/// An idle gas orb; the number is its mass, in millionths.
#[derive(Clone, Copy, Debug, PartialEq, Eq, Structural)]
pub struct GasOrb(pub i32);

/// A burning gas orb; the number is the time at which it caught fire, in
/// milliseconds of the simulation clock.
#[derive(Clone, Copy, Debug, PartialEq, Eq, Structural)]
pub struct BurningGasOrb(pub u32);

/// The state of a gas orb. An orb starts idle, may catch fire once, and
/// never stops burning.
#[derive(Clone, Copy, Debug, PartialEq, Eq, Structural)]
pub enum OrbState {
    Idle(GasOrb),
    Burning(BurningGasOrb),
}

impl OrbState {
    /// The state after the fire front has reached the orb at time `now`.
    pub open spec fn ignited(self, now: u32) -> OrbState {
        match self {
            OrbState::Idle(_) => OrbState::Burning(BurningGasOrb(now)),
            OrbState::Burning(since) => OrbState::Burning(since),
        }
    }

    /// Sets the orb on fire at time `now`. An orb that burns already keeps
    /// the time at which it caught fire.
    pub fn ignite(self, now: u32) -> (state: OrbState)
        ensures
            state == self.ignited(now),
    {
        match self {
            OrbState::Idle(_) => OrbState::Burning(BurningGasOrb(now)),
            OrbState::Burning(since) => OrbState::Burning(since),
        }
    }

    /// Whether the orb burns.
    pub fn is_burning(&self) -> (burning: bool)
        ensures
            burning == (*self is Burning),
    {
        match self {
            OrbState::Idle(_) => false,
            OrbState::Burning(_) => true,
        }
    }
}

} // verus!
