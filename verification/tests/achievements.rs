use std::collections::HashSet;

use breakout::achievements::{
    achievement_defs, chaos_clear_id, chaos_perfect_id, display_sections, win_achievements,
    CLEAR_INSANE, CLEAR_INSICULOUS, CLEAR_NORMAL, CLEAR_RIDICULOUS, COMBO_VOLLEY, LAST_LIFE,
    PERFECT_INSANE, PERFECT_INSICULOUS, PERFECT_NORMAL, PERFECT_RIDICULOUS,
};
use breakout::constants::STARTING_LIVES;
use breakout::types::ChaosMode;

#[test]
fn register_all_adds_ten() {
    let defs = achievement_defs();
    assert_eq!(defs.len(), 10);
}

#[test]
fn chaos_clear_id_maps_each_mode() {
    assert_eq!(chaos_clear_id(ChaosMode::Normal), CLEAR_NORMAL);
    assert_eq!(chaos_clear_id(ChaosMode::Insane), CLEAR_INSANE);
    assert_eq!(chaos_clear_id(ChaosMode::Ridiculous), CLEAR_RIDICULOUS);
    assert_eq!(chaos_clear_id(ChaosMode::Insiculous), CLEAR_INSICULOUS);
}

#[test]
fn chaos_perfect_id_maps_each_mode() {
    assert_eq!(chaos_perfect_id(ChaosMode::Normal), PERFECT_NORMAL);
    assert_eq!(chaos_perfect_id(ChaosMode::Insane), PERFECT_INSANE);
    assert_eq!(chaos_perfect_id(ChaosMode::Ridiculous), PERFECT_RIDICULOUS);
    assert_eq!(chaos_perfect_id(ChaosMode::Insiculous), PERFECT_INSICULOUS);
}

#[test]
fn display_sections_cover_every_registered_achievement() {
    let defs = achievement_defs();
    let mut shown: HashSet<&str> = HashSet::new();
    for section in display_sections() {
        for id in section.ids {
            shown.insert(id);
        }
    }
    for ach in &defs {
        assert!(shown.contains(ach.id), "{} registered but not in DISPLAY_SECTIONS", ach.id);
    }
    assert_eq!(shown.len(), defs.len(), "DISPLAY_SECTIONS has duplicates or extras");
}

#[test]
fn every_id_is_registered() {
    let defs = achievement_defs();
    for id in [
        CLEAR_NORMAL, CLEAR_INSANE, CLEAR_RIDICULOUS, CLEAR_INSICULOUS,
        PERFECT_NORMAL, PERFECT_INSANE, PERFECT_RIDICULOUS, PERFECT_INSICULOUS,
        COMBO_VOLLEY, LAST_LIFE,
    ] {
        assert!(defs.iter().any(|d| d.id == id), "{} not registered", id);
    }
}

#[test]
fn registered_ids_are_distinct() {
    let defs = achievement_defs();
    let ids: HashSet<&str> = defs.iter().map(|d| d.id).collect();
    assert_eq!(ids.len(), 10);
}

#[test]
fn display_sections_have_titles_and_order() {
    let sections = display_sections();
    let titles: Vec<&str> = sections.iter().map(|s| s.title).collect();
    assert_eq!(titles, vec!["Clears", "Perfect Clears", "Skill"]);
    assert_eq!(sections[2].ids, vec![COMBO_VOLLEY, LAST_LIFE]);
}

#[test]
fn flawless_win_unlocks_clear_and_perfect() {
    assert_eq!(
        win_achievements(ChaosMode::Insane, STARTING_LIVES),
        vec![CLEAR_INSANE, PERFECT_INSANE]
    );
}

#[test]
fn last_life_win_unlocks_clutch_clear() {
    assert_eq!(win_achievements(ChaosMode::Normal, 1), vec![CLEAR_NORMAL, LAST_LIFE]);
}

#[test]
fn middling_win_unlocks_only_the_clear() {
    assert_eq!(win_achievements(ChaosMode::Insiculous, 2), vec![CLEAR_INSICULOUS]);
}

#[test]
fn achievement_names_are_the_game_names() {
    let defs = achievement_defs();
    assert_eq!(defs[0].name, "Demolition Crew");
    assert_eq!(defs[8].description, "Destroy 5 bricks in a single volley (no paddle touch).");
    assert_eq!(defs[9].name, "Clutch Clear");
}

#[test]
fn every_achievement_has_its_name_and_description() {
    let expected = [
        ("clear_normal", "Demolition Crew", "Clear every brick in Normal mode."),
        ("clear_insane", "Speed Wrecker", "Clear every brick in Insane mode."),
        ("clear_ridiculous", "Double Demolition", "Clear every brick in Ridiculous mode."),
        ("clear_insiculous", "Insiculous Wrecking Ball", "Clear every brick in Insiculous mode."),
        ("perfect_normal", "Flawless Foundation", "Clear Normal mode without losing a ball."),
        ("perfect_insane", "Flawless Frenzy", "Clear Insane mode without losing a ball."),
        ("perfect_ridiculous", "Flawless Juggling", "Clear Ridiculous mode without losing a ball."),
        ("perfect_insiculous", "Insiculously Flawless", "Clear Insiculous mode without losing a ball."),
        ("combo_volley", "Wrecking Volley", "Destroy 5 bricks in a single volley (no paddle touch)."),
        ("last_life", "Clutch Clear", "Clear the board on your very last life."),
    ];
    let defs = achievement_defs();
    assert_eq!(defs.len(), expected.len());
    for (def, (id, name, description)) in defs.iter().zip(expected.iter()) {
        assert_eq!((def.id, def.name, def.description), (*id, *name, *description));
    }
}

#[test]
fn display_section_titles_in_order() {
    let titles: Vec<&str> = display_sections().iter().map(|s| s.title).collect();
    assert_eq!(titles, vec!["Clears", "Perfect Clears", "Skill"]);
}
