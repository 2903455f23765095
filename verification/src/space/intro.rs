//! The intro phase of a run.

use vstd::prelude::*;

verus! {

/// Whether the intro of the run is still playing.
#[derive(Clone, Copy, Debug, PartialEq, Eq, Structural, Hash)]
pub struct IntroState(pub bool);

impl Default for IntroState {
    fn default() -> (state: IntroState)
        ensures
            state == IntroState(false),
    {
        IntroState(false)
    }
}

} // verus!
