//! Shared enums of the game: chaos modes, game modes, paddle sides, pickup
//! kinds and the screen/match state.

use vstd::prelude::*;

verus! {

/// The four chaos modes a level can be played in.
#[derive(Debug, Clone, Copy, PartialEq, Eq, Structural)]
pub enum ChaosMode {
    /// Classic Breakout.
    Normal,
    /// The ball speeds up on every paddle hit.
    Insane,
    /// Every serve launches two balls.
    Ridiculous,
    /// Insane and Ridiculous at once.
    Insiculous,
}

/// Whether the mode carries the Insane rule (speed gain on paddle hits).
pub open spec fn spec_is_insane(mode: ChaosMode) -> bool {
    mode == ChaosMode::Insane || mode == ChaosMode::Insiculous
}

/// Whether the mode carries the Ridiculous rule (two-ball serves).
pub open spec fn spec_is_ridiculous(mode: ChaosMode) -> bool {
    mode == ChaosMode::Ridiculous || mode == ChaosMode::Insiculous
}

/// The modes in canonical order.
pub open spec fn spec_all_chaos_modes() -> Seq<ChaosMode> {
    seq![ChaosMode::Normal, ChaosMode::Insane, ChaosMode::Ridiculous, ChaosMode::Insiculous]
}

impl ChaosMode {
    pub fn is_insane(&self) -> (r: bool)
        ensures
            r == spec_is_insane(*self),
    {
        match self {
            ChaosMode::Insane | ChaosMode::Insiculous => true,
            _ => false,
        }
    }

    pub fn is_ridiculous(&self) -> (r: bool)
        ensures
            r == spec_is_ridiculous(*self),
    {
        match self {
            ChaosMode::Ridiculous | ChaosMode::Insiculous => true,
            _ => false,
        }
    }

    /// Every chaos mode, in canonical order.
    pub fn all() -> (r: Vec<ChaosMode>)
        ensures
            r@ == spec_all_chaos_modes(),
    {
        vec![ChaosMode::Normal, ChaosMode::Insane, ChaosMode::Ridiculous, ChaosMode::Insiculous]
    }
}

/// Insiculous carries both chaos rules; Normal carries neither; Insane and
/// Ridiculous carry one each.
pub proof fn law_chaos_rules()
    ensures
        spec_is_insane(ChaosMode::Insiculous) && spec_is_ridiculous(ChaosMode::Insiculous),
        !spec_is_insane(ChaosMode::Normal) && !spec_is_ridiculous(ChaosMode::Normal),
        spec_is_insane(ChaosMode::Insane) && !spec_is_ridiculous(ChaosMode::Insane),
        !spec_is_insane(ChaosMode::Ridiculous) && spec_is_ridiculous(ChaosMode::Ridiculous),
{
}

/// Solo play or two-player co-op (one paddle at each edge).
#[derive(Debug, Clone, Copy, PartialEq, Eq, Structural)]
pub enum GameMode {
    SinglePlayer,
    TwoPlayerCoop,
}

/// Which edge a paddle guards.
#[derive(Debug, Clone, Copy, PartialEq, Eq, Structural)]
pub enum PaddleSide {
    Bottom,
    Top,
}

/// Power-up pickups dropped by special bricks (the insiculous trio: two
/// base powers plus one that grants both).
#[derive(Debug, Clone, Copy, PartialEq, Eq, Structural)]
pub enum PickupKind {
    /// Grants an extra ball.
    Multiball,
    /// All balls one-hit-kill any brick for a while.
    Wrecking,
    /// Both at once.
    Insiculous,
}

/// Which screen is shown, and where a match stands.
#[derive(Debug, Clone, Copy, PartialEq, Eq, Structural)]
pub enum GameState {
    TitleScreen { selection: u8 },
    LevelSelect { selection: u8 },
    Achievements,
    /// Ball rests on the serving paddle waiting for launch.
    Serving,
    Playing,
    GameOver { won: bool },
}

} // verus!
