//! The tunable rule parameters that govern a tick.

use vstd::prelude::*;
use crate::fixed::PARAM_MAX;

verus! {

/// The bundle of tunable scalars read by every agent update, all
/// fixed-point values (see [`crate::fixed`]).
///
/// No relation between the fields is enforced: a caller may set
/// `min_speed > max_speed`, or `protected_range > visible_range` (which
/// silently disables the looser visible-range pool, since the protected
/// test runs first on a distance that already passed the visible-range
/// axis check).
#[derive(Clone, Copy, PartialEq, Eq, Structural, Debug)]
pub struct WorldParams {
    /// Gain applied to the accumulated separation displacement.
    pub avoid_factor: i64,
    /// Radius of the alignment/cohesion neighborhood.
    pub visible_range: i64,
    /// Fraction of the velocity gap to the average neighbor velocity
    /// closed each tick.
    pub matching_factor: i64,
    /// Fixed velocity increment applied inside a boundary margin.
    pub turn_factor: i64,
    /// Upper speed bound restored by the clamp.
    pub max_speed: i64,
    /// Lower speed bound restored by the clamp.
    pub min_speed: i64,
    /// Fraction of the position gap to the average neighbor position
    /// closed each tick.
    pub centering_factor: i64,
    /// Radius of the separation neighborhood.
    pub protected_range: i64,
    /// Fixed-magnitude, sign-only push applied per axis when the
    /// predator is in range.
    pub predator_turn_factor: i64,
    /// Radius of the predator-avoidance neighborhood.
    pub predator_range: i64,
}

impl WorldParams {
    /// Every field is within the magnitude bound that keeps the tick's
    /// arithmetic inside machine integers.
    pub open spec fn wf(self) -> bool {
        &&& -PARAM_MAX <= self.avoid_factor <= PARAM_MAX
        &&& -PARAM_MAX <= self.visible_range <= PARAM_MAX
        &&& -PARAM_MAX <= self.matching_factor <= PARAM_MAX
        &&& -PARAM_MAX <= self.turn_factor <= PARAM_MAX
        &&& -PARAM_MAX <= self.max_speed <= PARAM_MAX
        &&& -PARAM_MAX <= self.min_speed <= PARAM_MAX
        &&& -PARAM_MAX <= self.centering_factor <= PARAM_MAX
        &&& -PARAM_MAX <= self.protected_range <= PARAM_MAX
        &&& -PARAM_MAX <= self.predator_turn_factor <= PARAM_MAX
        &&& -PARAM_MAX <= self.predator_range <= PARAM_MAX
    }
}

} // verus!
