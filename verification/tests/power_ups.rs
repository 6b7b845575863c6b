use breakout::constants::MAX_EXTRA_BALLS;
use breakout::power_ups::{multiball_allowed, pickup_effects, pickup_entity_name};
use breakout::types::PickupKind;

#[test]
fn pickup_effects_form_the_insiculous_trio() {
    assert_eq!(pickup_effects(PickupKind::Multiball), (1, false));
    assert_eq!(pickup_effects(PickupKind::Wrecking), (0, true));
    // Insiculous = both base powers at once.
    let (balls, wrecking) = pickup_effects(PickupKind::Insiculous);
    assert_eq!(balls, pickup_effects(PickupKind::Multiball).0);
    assert!(wrecking);
}

#[test]
fn multiball_cap_blocks_at_limit() {
    assert!(multiball_allowed(0));
    assert!(multiball_allowed(MAX_EXTRA_BALLS - 1));
    assert!(!multiball_allowed(MAX_EXTRA_BALLS));
    assert!(!multiball_allowed(MAX_EXTRA_BALLS + 1));
}

#[test]
fn pickup_entities_are_named_by_kind() {
    assert_eq!(pickup_entity_name(PickupKind::Multiball), "Pickup (Multiball)");
    assert_eq!(pickup_entity_name(PickupKind::Wrecking), "Pickup (Wrecking Ball)");
    assert_eq!(pickup_entity_name(PickupKind::Insiculous), "Pickup (Insiculous)");
}
