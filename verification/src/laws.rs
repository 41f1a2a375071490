//! Laws of the capture rule that hold in every well-formed world.

use vstd::prelude::*;

use crate::math::abs_i;
use crate::zone::{capture_new_distance, capture_wins, holding_zone, zone_distance_spec};
use crate::node::World;

verus! {

/// Re-capturing a spatial into the zone that already holds it never wins:
/// the challenger's distance is the incumbent's own distance, and the rule
/// demands a strict improvement. Together with the contract of `capture`,
/// the call is a no-op: no parent change, no notification, no change to the
/// captured set.
pub proof fn lemma_recapture_same_zone_is_no_op(w: World, s: int, z: int)
    requires
        w.wf(),
        0 <= s < w.nodes@.len(),
        0 <= z < w.nodes@.len(),
        w.nodes@[s].spatial is Some,
        holding_zone(w, s) == Some(z),
    ensures
        !capture_wins(capture_new_distance(w, s, z), zone_distance_spec(w, s)),
{
    assert(w.node_alive(z) && w.nodes@[z].zone is Some);
}

/// The tie case of the strict-inequality rule: when a zone's distance has
/// the same absolute value as the distance to the spatial's current zone,
/// the challenger does not win, so the incumbent binding (or freeness, when
/// both are unresolvable) is kept.
pub proof fn lemma_capture_tie_keeps_incumbent(w: World, s: int, z: int)
    requires
        (match (capture_new_distance(w, s, z), zone_distance_spec(w, s)) {
            (Some(n), Some(o)) => abs_i(n) == abs_i(o),
            (None, _) => true,
            (Some(n), None) => false,
        }),
    ensures
        !capture_wins(capture_new_distance(w, s, z), zone_distance_spec(w, s)),
{
}

} // verus!
