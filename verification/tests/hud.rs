use breakout::hud::{combo_visible, game_over_message, lives_text, serve_prompt};
use breakout::types::{GameMode, PaddleSide};

#[test]
fn lives_text_shows_one_star_per_life() {
    assert_eq!(lives_text(3), "LIVES * * *");
    assert_eq!(lives_text(1), "LIVES *");
    assert_eq!(lives_text(0), "LIVES ");
}

#[test]
fn serve_prompt_names_the_server_in_coop() {
    assert_eq!(serve_prompt(GameMode::SinglePlayer, PaddleSide::Top), "SPACE or CLICK to launch");
    assert_eq!(
        serve_prompt(GameMode::TwoPlayerCoop, PaddleSide::Bottom),
        "P1 SERVES - SPACE, CLICK, or (A) to launch"
    );
    assert_eq!(serve_prompt(GameMode::TwoPlayerCoop, PaddleSide::Top), "P2 SERVES - ENTER or (A) to launch");
}

#[test]
fn combo_counter_appears_from_three() {
    assert!(!combo_visible(2));
    assert!(combo_visible(3));
}

#[test]
fn game_over_headlines() {
    assert_eq!(game_over_message(true), "BOARD CLEARED!");
    assert_eq!(game_over_message(false), "GAME OVER");
}
