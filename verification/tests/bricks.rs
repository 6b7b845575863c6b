use breakout::bricks::{brick_hit_outcome, Brick, BrickEvent, BrickHitOutcome};
use breakout::game::BreakoutGame;
use breakout::types::PickupKind;

fn brick(id: u32, value: u32, hits_left: u32) -> Brick<u32> {
    Brick { payload: id, value, hits_left, drop: None }
}

fn wall(game: &BreakoutGame<u64, u32>) -> Vec<(u32, u32)> {
    game.bricks.iter().map(|b| (b.payload, b.hits_left)).collect()
}

#[test]
fn brick_hit_outcome_table() {
    assert_eq!(brick_hit_outcome(1, false), BrickHitOutcome::Destroyed);
    assert_eq!(brick_hit_outcome(2, false), BrickHitOutcome::Damaged { hits_left: 1 });
    assert_eq!(brick_hit_outcome(3, false), BrickHitOutcome::Damaged { hits_left: 2 });
    // Wrecking one-hit-kills anything, armor included
    assert_eq!(brick_hit_outcome(3, true), BrickHitOutcome::Destroyed);
    assert_eq!(brick_hit_outcome(1, true), BrickHitOutcome::Destroyed);
    // Degenerate zero never underflows
    assert_eq!(brick_hit_outcome(0, false), BrickHitOutcome::Destroyed);
}

#[test]
fn hits_damage_armor_and_destroy_plain_bricks() {
    let mut game: BreakoutGame<u64, u32> = BreakoutGame::new();
    game.bricks = vec![brick(10, 60, 1), brick(11, 50, 3), brick(12, 40, 1), brick(13, 30, 1)];
    // Brick 2 is hit by two balls in the same frame: it takes one hit.
    let report = game.resolve_brick_hits(&vec![2, 1, 2], false);
    assert_eq!(wall(&game), vec![(10, 1), (11, 2), (13, 1)]);
    assert_eq!(game.score, 40);
    assert_eq!(game.combo, 1);
    assert!(!report.combo_unlocked);
    assert_eq!(report.events.len(), 2);
    // Highest index first.
    match report.events[0] {
        BrickEvent::Destroyed { brick } => assert_eq!(brick.payload, 12),
        _ => panic!("brick 2 should be destroyed"),
    }
    match report.events[1] {
        BrickEvent::Damaged { payload, hits_left } => assert_eq!((payload, hits_left), (11, 2)),
        _ => panic!("brick 1 should be damaged"),
    }
}

#[test]
fn wrecking_destroys_armored_bricks() {
    let mut game: BreakoutGame<u64, u32> = BreakoutGame::new();
    game.bricks = vec![brick(1, 10, 9), brick(2, 20, 1)];
    let report = game.resolve_brick_hits(&vec![0, 1], true);
    assert!(game.bricks.is_empty());
    assert_eq!(game.score, 30);
    assert_eq!(report.events.len(), 2);
}

#[test]
fn combo_unlocks_exactly_when_the_volley_reaches_five() {
    let mut game: BreakoutGame<u64, u32> = BreakoutGame::new();
    game.bricks = (0..8).map(|i| brick(i, 10, 1)).collect();
    let first = game.resolve_brick_hits(&vec![0, 1, 2, 3], false);
    assert!(!first.combo_unlocked);
    assert_eq!(game.combo, 4);
    let second = game.resolve_brick_hits(&vec![0, 1], false);
    assert!(second.combo_unlocked, "fifth and sixth bricks cross the target");
    assert_eq!(game.combo, 6);
    let third = game.resolve_brick_hits(&vec![0], false);
    assert!(!third.combo_unlocked, "already past the target");
    assert_eq!(game.bricks.len(), 1);
    assert_eq!(game.score, 70);
}

#[test]
fn no_hits_leave_the_wall_alone() {
    let mut game: BreakoutGame<u64, u32> = BreakoutGame::new();
    game.bricks = vec![brick(1, 10, 2)];
    let report = game.resolve_brick_hits(&vec![], true);
    assert!(report.events.is_empty());
    assert_eq!(wall(&game), vec![(1, 2)]);
    assert_eq!(game.score, 0);
}

#[test]
fn destroyed_bricks_carry_their_drop() {
    let mut game: BreakoutGame<u64, u32> = BreakoutGame::new();
    game.bricks = vec![Brick { payload: 5, value: 20, hits_left: 1, drop: Some(PickupKind::Wrecking) }];
    let report = game.resolve_brick_hits(&vec![0], false);
    match report.events[0] {
        BrickEvent::Destroyed { brick } => assert_eq!(brick.drop, Some(PickupKind::Wrecking)),
        _ => panic!("expected a destroyed brick"),
    }
}

#[test]
fn hits_fit_only_below_the_u32_limit() {
    let mut game: BreakoutGame<u64, u32> = BreakoutGame::new();
    game.bricks = vec![brick(1, 60, 1), brick(2, 60, 2)];
    game.score = u32::MAX - 60;
    assert!(game.brick_hits_fit(&vec![0, 1], false), "the armored brick only takes damage");
    assert!(!game.brick_hits_fit(&vec![0, 1], true), "wrecking destroys both");
    game.score = 0;
    game.combo = u32::MAX;
    assert!(game.brick_hits_fit(&vec![1], false));
    assert!(!game.brick_hits_fit(&vec![0], false));
}
