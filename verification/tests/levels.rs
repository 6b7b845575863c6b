use breakout::constants::BRICK_VALUE_STEP;
use breakout::levels::{
    brick_row_from_name, brick_tag_issues, brick_value_from_name, bricks_from_names, level_hint, level_mode,
    parse_brick_tag, roster, BrickSpec, NamedEntity, TagIssue,
};
use breakout::spawning::brick_value;
use breakout::types::{ChaosMode, GameMode, PickupKind};

const BOTH_MODES: [GameMode; 2] = [GameMode::SinglePlayer, GameMode::TwoPlayerCoop];

type Color = (f32, f32, f32, f32);

#[test]
fn parse_brick_tag_grammar_table() {
    let d = BrickSpec::default();
    assert_eq!(d, BrickSpec { hits: 1, drop: None });

    assert_eq!(parse_brick_tag("armored2"), BrickSpec { hits: 2, drop: None });
    assert_eq!(parse_brick_tag("armored9"), BrickSpec { hits: 9, drop: None });
    assert_eq!(
        parse_brick_tag("drop_multiball"),
        BrickSpec { hits: 1, drop: Some(PickupKind::Multiball) }
    );
    assert_eq!(
        parse_brick_tag("drop_wrecking"),
        BrickSpec { hits: 1, drop: Some(PickupKind::Wrecking) }
    );
    assert_eq!(
        parse_brick_tag("drop_insiculous"),
        BrickSpec { hits: 1, drop: Some(PickupKind::Insiculous) }
    );
    assert_eq!(
        parse_brick_tag("armored2+drop_wrecking"),
        BrickSpec { hits: 2, drop: Some(PickupKind::Wrecking) }
    );
    // Token order doesn't matter; whitespace tolerated
    assert_eq!(
        parse_brick_tag(" drop_wrecking + armored3 "),
        BrickSpec { hits: 3, drop: Some(PickupKind::Wrecking) }
    );
    // Duplicates: last wins
    assert_eq!(parse_brick_tag("armored2+armored3"), BrickSpec { hits: 3, drop: None });
    // Unknown/malformed tokens degrade to defaults, never panic
    assert_eq!(parse_brick_tag(""), d);
    assert_eq!(parse_brick_tag("bogus"), d);
    assert_eq!(parse_brick_tag("armored1"), d, "1-hit armor is not armor");
    assert_eq!(parse_brick_tag("armored99"), d, "out-of-range armor rejected");
    assert_eq!(parse_brick_tag("armoredX"), d);
    assert_eq!(
        parse_brick_tag("bogus+drop_multiball"),
        BrickSpec { hits: 1, drop: Some(PickupKind::Multiball) },
        "unknown tokens are skipped, not fatal"
    );
}

#[test]
fn brick_row_from_name_parses_valid_and_rejects_invalid() {
    assert_eq!(brick_row_from_name("brick_r0_c0"), Some(0));
    assert_eq!(brick_row_from_name("brick_r5_c9"), Some(5));
    assert_eq!(brick_row_from_name("brick_r12_c3"), Some(12));
    assert_eq!(brick_row_from_name("brick_rX_c0"), None);
    assert_eq!(brick_row_from_name("brick"), None);
    assert_eq!(brick_row_from_name("paddle"), None);
}

#[test]
fn brick_value_from_name_maps_rows_and_defaults_minimum() {
    assert_eq!(brick_value_from_name("brick_r0_c0"), brick_value(0));
    assert_eq!(brick_value_from_name("brick_r5_c9"), brick_value(5));
    // Renamed or out-of-range bricks score the minimum instead of panicking
    assert_eq!(brick_value_from_name("brick_r99_c0"), BRICK_VALUE_STEP);
    assert_eq!(brick_value_from_name("brick_custom"), BRICK_VALUE_STEP);
}

#[test]
fn bricks_from_names_builds_bookkeeping_from_world() {
    let red: Color = (1.0, 0.3, 0.3, 1.0);
    let named: Vec<NamedEntity<(u32, Color)>> = vec![
        NamedEntity { name: "brick_r0_c0".to_string(), tag: None, payload: (1, red) },
        // Non-brick entities are ignored
        NamedEntity { name: "paddle".to_string(), tag: None, payload: (2, (1.0, 1.0, 1.0, 1.0)) },
    ];

    let bricks = bricks_from_names(&named);
    assert_eq!(bricks.len(), 1);
    assert_eq!(bricks[0].payload.0, 1);
    assert_eq!(bricks[0].value, brick_value(0));
    assert_eq!(bricks[0].payload.1, red);
    // Untagged brick gets the plain defaults
    assert_eq!(bricks[0].hits_left, 1);
    assert_eq!(bricks[0].drop, None);
}

#[test]
fn bricks_from_names_reads_entity_tags() {
    let named: Vec<NamedEntity<u32>> = vec![NamedEntity {
        name: "brick_r1_c1".to_string(),
        tag: Some("armored3+drop_insiculous".to_string()),
        payload: 7,
    }];

    let bricks = bricks_from_names(&named);
    assert_eq!(bricks.len(), 1);
    assert_eq!(bricks[0].hits_left, 3);
    assert_eq!(bricks[0].drop, Some(PickupKind::Insiculous));
}

#[test]
fn every_roster_follows_chaos_order_with_hints() {
    for mode in BOTH_MODES {
        let levels = roster(mode);
        assert_eq!(levels.len(), ChaosMode::all().len(), "one level per chaos mode");
        for (i, def) in levels.iter().enumerate() {
            assert_eq!(def.mode, ChaosMode::all()[i], "roster order follows ChaosMode::ALL");
            assert!(!level_hint(mode, i).is_empty());
            assert!(def.scene_file.ends_with(".scene.ron"));
            assert_eq!(level_mode(mode, i), Some(def.mode));
        }
        assert_eq!(level_hint(mode, 4), "");
        assert_eq!(level_mode(mode, 4), None);
    }
}

#[test]
fn rosters_name_their_scenes() {
    let solo = roster(GameMode::SinglePlayer);
    assert_eq!(solo[0].title, "CLASSIC");
    assert_eq!(solo[3].scene_file, "level4.scene.ron");
    let duo = roster(GameMode::TwoPlayerCoop);
    assert_eq!(duo[1].title, "THE VAULT DUO");
    assert_eq!(duo[2].scene_file, "level3_2p.scene.ron");
}

#[test]
fn tag_concatenation_lays_later_tokens_over_earlier() {
    let a = parse_brick_tag("armored4+drop_multiball");
    let b = parse_brick_tag("drop_wrecking");
    let joined = parse_brick_tag("armored4+drop_multiball+drop_wrecking");
    assert_eq!(joined, BrickSpec { hits: a.hits, drop: b.drop });
}

#[test]
fn armor_accepts_leading_zeros_and_unicode_spaces() {
    assert_eq!(parse_brick_tag("armored05").hits, 5);
    assert_eq!(parse_brick_tag("\u{3000}armored7\t"), BrickSpec { hits: 7, drop: None });
    assert_eq!(parse_brick_tag("armored 7"), BrickSpec::default());
    assert_eq!(parse_brick_tag("++drop_wrecking++"), BrickSpec { hits: 1, drop: Some(PickupKind::Wrecking) });
}

#[test]
fn row_names_reject_overflow_and_missing_digits() {
    assert_eq!(brick_row_from_name("brick_r99999999999999999999999_c0"), None);
    assert_eq!(brick_row_from_name("brick_r007"), Some(7));
    assert_eq!(brick_row_from_name("brick_r"), None);
    assert_eq!(brick_value_from_name("brick_r6_c0"), BRICK_VALUE_STEP);
    assert_eq!(brick_value_from_name("brick_r2_c4"), 40);
}

#[test]
fn tag_issues_name_each_skipped_token() {
    assert_eq!(
        brick_tag_issues(" bogus +armored1+ drop_wrecking+armoredX+"),
        vec![
            TagIssue::UnknownToken("bogus".to_string()),
            TagIssue::MalformedArmor("armored1".to_string()),
            TagIssue::MalformedArmor("armoredX".to_string()),
        ]
    );
    assert!(brick_tag_issues("armored3+drop_insiculous").is_empty());
    assert!(brick_tag_issues("").is_empty());
    assert_eq!(brick_tag_issues("armored99"), vec![TagIssue::MalformedArmor("armored99".to_string())]);
}
