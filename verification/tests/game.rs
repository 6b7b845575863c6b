use breakout::bricks::Brick;
use breakout::constants::{MAX_EXTRA_BALLS, STARTING_LIVES};
use breakout::game::{
    serve_side_after_loss, serving_paddle, BallLossOutcome, BreakoutGame, StateInputAction,
};
use breakout::types::{ChaosMode, GameMode, GameState, PaddleSide};

type Game = BreakoutGame<u64, u32>;

fn plain(id: u32) -> Brick<u32> {
    Brick { payload: id, value: 10, hits_left: 1, drop: None }
}

/// Title → level select → the given level, served with ball 1.
fn started(mode_entry: u8, level: u8) -> Game {
    let mut game: Game = BreakoutGame::new();
    assert!(!game.update_title_input(mode_entry, true));
    assert!(game.update_level_select_input(level, false, true));
    let (old_balls, old_bricks) = game.start_game(vec![plain(1), plain(2)], 1);
    assert!(old_balls.is_empty() && old_bricks.is_empty());
    game
}

fn launched(game: &mut Game) -> (u64, bool) {
    match game.handle_state_input(true, false) {
        StateInputAction::Launched { ball, twin } => (ball, twin),
        _ => panic!("serve should launch"),
    }
}

#[test]
fn serve_side_flips_to_the_losing_edge() {
    // Co-op: whoever let the ball out redeems the serve
    assert_eq!(serve_side_after_loss(GameMode::TwoPlayerCoop, PaddleSide::Top), PaddleSide::Top);
    assert_eq!(
        serve_side_after_loss(GameMode::TwoPlayerCoop, PaddleSide::Bottom),
        PaddleSide::Bottom
    );
    // Solo: there is no top paddle — always serve from the bottom
    assert_eq!(serve_side_after_loss(GameMode::SinglePlayer, PaddleSide::Top), PaddleSide::Bottom);
    assert_eq!(
        serve_side_after_loss(GameMode::SinglePlayer, PaddleSide::Bottom),
        PaddleSide::Bottom
    );
}

#[test]
fn serving_paddle_falls_back_to_the_bottom() {
    assert_eq!(serving_paddle(PaddleSide::Bottom, Some(1), Some(2)), Some(1));
    assert_eq!(serving_paddle(PaddleSide::Top, Some(1), Some(2)), Some(2));
    assert_eq!(serving_paddle(PaddleSide::Top, Some(1), None), Some(1));
}

#[test]
fn title_menu_routes_each_entry() {
    let mut game: Game = BreakoutGame::new();
    assert!(!game.update_title_input(1, false));
    assert_eq!(game.state, GameState::TitleScreen { selection: 1 });
    assert!(!game.update_title_input(1, true));
    assert_eq!(game.mode, GameMode::TwoPlayerCoop);
    assert_eq!(game.state, GameState::LevelSelect { selection: 0 });

    let mut game: Game = BreakoutGame::new();
    assert!(!game.update_title_input(2, true));
    assert_eq!(game.state, GameState::Achievements);
    game.update_achievements_input(false, false);
    assert_eq!(game.state, GameState::Achievements);
    game.update_achievements_input(true, false);
    assert_eq!(game.state, GameState::TitleScreen { selection: 2 });
    assert!(game.update_title_input(3, true), "the last entry exits");
}

#[test]
fn level_select_picks_level_and_chaos_mode() {
    let mut game: Game = BreakoutGame::new();
    game.update_title_input(0, true);
    assert!(!game.update_level_select_input(2, false, false));
    assert_eq!(game.state, GameState::LevelSelect { selection: 2 });
    assert!(game.update_level_select_input(2, false, true));
    assert_eq!(game.selected_level, 2);
    assert_eq!(game.chaos_mode, ChaosMode::Ridiculous);

    assert!(!game.update_level_select_input(1, true, true), "back wins over confirm");
    assert_eq!(game.state, GameState::TitleScreen { selection: 0 });
}

#[test]
fn start_game_resets_the_match() {
    let mut game = started(0, 0);
    assert_eq!(game.state, GameState::Serving);
    assert_eq!(game.lives, STARTING_LIVES);
    assert_eq!(game.ball, Some(1));
    game.score = 500;
    game.combo = 4;
    let (balls, bricks) = game.start_game(vec![plain(9)], 7);
    assert_eq!(balls, vec![1]);
    assert_eq!(bricks.len(), 2);
    assert_eq!((game.score, game.combo, game.ball), (0, 0, Some(7)));
    assert_eq!(game.serving_side, PaddleSide::Bottom);
}

#[test]
fn ridiculous_serves_launch_a_twin() {
    let mut game = started(0, 2);
    assert_eq!(launched(&mut game), (1, true));
    assert_eq!(game.state, GameState::Playing);
    game.add_extra_ball(2);
    assert_eq!(game.all_balls(), vec![1, 2]);

    let mut normal = started(0, 0);
    assert_eq!(launched(&mut normal), (1, false));
}

#[test]
fn extra_balls_stop_at_the_cap() {
    let mut game = started(0, 0);
    assert!(!game.can_spawn_extra_ball(), "no extra balls while serving");
    launched(&mut game);
    for b in 0..MAX_EXTRA_BALLS as u64 {
        assert!(game.can_spawn_extra_ball());
        game.add_extra_ball(10 + b);
    }
    assert!(!game.can_spawn_extra_ball());
}

#[test]
fn paddle_hits_reset_combo_and_speed_up_insane_modes() {
    let mut game = started(0, 1);
    game.combo = 3;
    assert!(game.paddle_hit());
    assert_eq!(game.combo, 0);
    let mut calm = started(0, 2);
    assert!(!calm.paddle_hit());
}

#[test]
fn losing_the_primary_promotes_the_last_extra() {
    let mut game = started(0, 0);
    launched(&mut game);
    game.add_extra_ball(2);
    game.add_extra_ball(3);
    let report = game.resolve_ball_loss(&vec![Some(PaddleSide::Bottom), None, None]);
    assert_eq!(report.outcome, BallLossOutcome::BallsLost);
    assert_eq!(report.lost, vec![1]);
    assert_eq!(game.ball, Some(3));
    assert_eq!(game.extra_balls, vec![2]);
    assert_eq!(game.lives, STARTING_LIVES);
}

#[test]
fn losing_the_last_ball_spends_a_life_and_hands_over_the_serve() {
    let mut game = started(1, 0);
    launched(&mut game);
    game.combo = 2;
    let report = game.resolve_ball_loss(&vec![Some(PaddleSide::Top)]);
    assert_eq!(report.outcome, BallLossOutcome::LifeLost);
    assert_eq!(report.lost, vec![1]);
    assert_eq!(game.lives, STARTING_LIVES - 1);
    assert_eq!(game.combo, 0);
    assert_eq!(game.state, GameState::Serving);
    assert_eq!(game.serving_side, PaddleSide::Top);
    assert_eq!(game.ball, None);
    game.install_serve_ball(5);
    assert_eq!(game.ball, Some(5));
}

#[test]
fn no_loss_outside_a_rally() {
    let mut game = started(0, 0);
    let report = game.resolve_ball_loss(&vec![Some(PaddleSide::Bottom)]);
    assert_eq!(report.outcome, BallLossOutcome::Nothing);
    assert_eq!(game.ball, Some(1));
    launched(&mut game);
    let report = game.resolve_ball_loss(&vec![None]);
    assert_eq!(report.outcome, BallLossOutcome::Nothing);
}

#[test]
fn last_life_ends_the_game_and_menu_returns_to_title() {
    let mut game = started(0, 0);
    for life in (0..STARTING_LIVES).rev() {
        launched(&mut game);
        let report = game.resolve_ball_loss(&vec![Some(PaddleSide::Bottom)]);
        assert_eq!(game.lives, life);
        if life == 0 {
            assert_eq!(report.outcome, BallLossOutcome::GameOver);
        } else {
            assert_eq!(report.outcome, BallLossOutcome::LifeLost);
            game.install_serve_ball(100 + life as u64);
        }
    }
    assert_eq!(game.state, GameState::GameOver { won: false });
    assert!(matches!(game.handle_state_input(true, false), StateInputAction::Restart));
    match game.handle_state_input(false, true) {
        StateInputAction::ToTitle { balls } => assert!(balls.is_empty()),
        _ => panic!("menu after game over returns to the title"),
    }
    assert_eq!(game.state, GameState::TitleScreen { selection: 0 });
    assert!(!game.entities_visible());
}

#[test]
fn clearing_the_wall_wins_and_unlocks() {
    let mut game = started(0, 1);
    launched(&mut game);
    assert!(game.check_win_condition().is_none(), "bricks remain");
    game.resolve_brick_hits(&vec![0, 1], false);
    let win = game.check_win_condition().expect("wall is clear");
    assert_eq!(win.balls, vec![1]);
    assert_eq!(win.achievements, vec!["clear_insane", "perfect_insane"]);
    assert_eq!(game.state, GameState::GameOver { won: true });
    assert_eq!(game.score, 20);
    assert!(game.check_win_condition().is_none(), "a finished match does not win twice");
    assert!(game.entities_visible());
}

#[test]
fn menu_after_game_over_keeps_the_serving_side() {
    let mut game = started(1, 0);
    launched(&mut game);
    for _ in 0..STARTING_LIVES {
        game.resolve_ball_loss(&vec![Some(PaddleSide::Top)]);
        if game.state == GameState::Serving {
            game.install_serve_ball(9);
            launched(&mut game);
        }
    }
    assert_eq!(game.state, GameState::GameOver { won: false });
    let side = game.serving_side;
    assert!(matches!(game.handle_state_input(false, true), StateInputAction::ToTitle { .. }));
    assert_eq!(game.serving_side, side);
}
