//! What falling power-up pickups grant.

use vstd::prelude::*;
use crate::constants::MAX_EXTRA_BALLS;
use crate::types::PickupKind;

verus! {

/// What catching a pickup grants: (extra balls spawned, wrecking refresh).
pub open spec fn spec_pickup_effects(kind: PickupKind) -> (u32, bool) {
    match kind {
        PickupKind::Multiball => (1, false),
        PickupKind::Wrecking => (0, true),
        PickupKind::Insiculous => (1, true),
    }
}

/// What catching a pickup grants: (extra balls spawned, wrecking refresh).
/// Insiculous is the trio's "both at once".
pub fn pickup_effects(kind: PickupKind) -> (r: (u32, bool))
    ensures
        r == spec_pickup_effects(kind),
{
    match kind {
        PickupKind::Multiball => (1, false),
        PickupKind::Wrecking => (0, true),
        PickupKind::Insiculous => (1, true),
    }
}

/// Whether another extra ball may spawn given how many are live.
pub fn multiball_allowed(extra_count: usize) -> (r: bool)
    ensures
        r == (extra_count < MAX_EXTRA_BALLS),
{
    extra_count < MAX_EXTRA_BALLS
}

/// Editor-hierarchy display name for a spawned pickup entity.
pub open spec fn spec_pickup_entity_name(kind: PickupKind) -> Seq<char> {
    match kind {
        PickupKind::Multiball => "Pickup (Multiball)"@,
        PickupKind::Wrecking => "Pickup (Wrecking Ball)"@,
        PickupKind::Insiculous => "Pickup (Insiculous)"@,
    }
}

pub fn pickup_entity_name(kind: PickupKind) -> (r: &'static str)
    ensures
        r@ == spec_pickup_entity_name(kind),
{
    match kind {
        PickupKind::Multiball => "Pickup (Multiball)",
        PickupKind::Wrecking => "Pickup (Wrecking Ball)",
        PickupKind::Insiculous => "Pickup (Insiculous)",
    }
}

/// The Insiculous pickup grants exactly both base powers at once: the
/// Multiball's extra balls and the Wrecking ball's refresh.
pub proof fn law_insiculous_is_both()
    ensures
        spec_pickup_effects(PickupKind::Insiculous) == (
            spec_pickup_effects(PickupKind::Multiball).0,
            spec_pickup_effects(PickupKind::Wrecking).1,
        ),
        !spec_pickup_effects(PickupKind::Multiball).1,
        spec_pickup_effects(PickupKind::Wrecking).0 == 0,
{
}

/// Every pickup grants something, and none grants more than one extra
/// ball at a time.
pub proof fn law_every_pickup_grants_a_power(kind: PickupKind)
    ensures
        spec_pickup_effects(kind).0 <= 1,
        spec_pickup_effects(kind).0 == 1 || spec_pickup_effects(kind).1,
{
}

} // verus!
