//! Meteorite collision markers.

use vstd::prelude::*;

verus! {

/// Marks the ship's collider as one that meteorites react to.
#[derive(Clone, Copy, Debug)]
pub struct ShipMeteoriteCollider {}

/// Collision hook of the ship's meteorite collider. A contact changes no
/// simulation state, so there is nothing to compute.
pub fn on_collision() {
}

} // verus!
