//! The match and menu state machine.
//!
//! The renderer and physics engine perform every effect (spawning and
//! destroying entities, particles, velocities, timers); this module decides
//! what happens: screens and menu choices, serving and launching, scoring
//! and combos, armor damage, ball loss and lives, and winning. `B` is how
//! the caller names a ball entity, `P` what it needs to find a brick's
//! entity again.

use vstd::prelude::*;
use crate::achievements::{spec_win_achievements, win_achievements};
use crate::bricks::{
    Brick, BrickEvent, BrickHitOutcome, brick_hit_outcome, contains_index, destroyed_from,
    events_from, lemma_destroyed_grows, lemma_total_value_cons, remaining_from, total_value,
};
use crate::constants::{COMBO_TARGET, MAX_EXTRA_BALLS, STARTING_LIVES};
use crate::levels::{level_mode, spec_roster};
use crate::types::{ChaosMode, GameMode, GameState, PaddleSide, spec_is_insane, spec_is_ridiculous};

verus! {

/// Who serves after a lost ball: in co-op the side that lost it redeems;
/// solo always serves from the bottom (there is no top paddle).
pub open spec fn spec_serve_side_after_loss(mode: GameMode, lost_past: PaddleSide) -> PaddleSide {
    match mode {
        GameMode::SinglePlayer => PaddleSide::Bottom,
        GameMode::TwoPlayerCoop => lost_past,
    }
}

pub fn serve_side_after_loss(mode: GameMode, lost_past: PaddleSide) -> (r: PaddleSide)
    ensures
        r == spec_serve_side_after_loss(mode, lost_past),
{
    match mode {
        GameMode::SinglePlayer => PaddleSide::Bottom,
        GameMode::TwoPlayerCoop => lost_past,
    }
}

/// The paddle currently holding the serve. Falls back to the bottom paddle
/// if the serving side's paddle is missing.
pub fn serving_paddle<E: Copy>(side: PaddleSide, bottom: Option<E>, top: Option<E>) -> (r: Option<E>)
    ensures
        r == match side {
            PaddleSide::Bottom => bottom,
            PaddleSide::Top => if top is Some {
                top
            } else {
                bottom
            },
        },
{
    match side {
        PaddleSide::Bottom => bottom,
        PaddleSide::Top => match top {
            Some(t) => Some(t),
            None => bottom,
        },
    }
}

/// Whether the state is a match in progress (balls exist only then).
pub open spec fn in_match(state: GameState) -> bool {
    state is Serving || state is Playing
}

/// The live balls: the primary ball first, then the extra balls.
pub open spec fn spec_all_balls<B>(ball: Option<B>, extras: Seq<B>) -> Seq<B> {
    match ball {
        Some(b) => seq![b] + extras,
        None => extras,
    }
}

/// The balls of `bs` whose entry in `lost` (shifted by `off`) is `None`.
pub open spec fn kept_balls<B>(bs: Seq<B>, lost: Seq<Option<PaddleSide>>, off: int) -> Seq<B>
    decreases bs.len(),
{
    if bs.len() == 0 {
        Seq::empty()
    } else {
        let p = kept_balls(bs.drop_last(), lost, off);
        if lost[bs.len() - 1 + off] is None {
            p.push(bs.last())
        } else {
            p
        }
    }
}

/// The balls of `bs` whose entry in `lost` (shifted by `off`) is `Some`.
pub open spec fn lost_balls<B>(bs: Seq<B>, lost: Seq<Option<PaddleSide>>, off: int) -> Seq<B>
    decreases bs.len(),
{
    if bs.len() == 0 {
        Seq::empty()
    } else {
        let p = lost_balls(bs.drop_last(), lost, off);
        if lost[bs.len() - 1 + off] is Some {
            p.push(bs.last())
        } else {
            p
        }
    }
}

/// The side past which the last lost ball fell (bottom if none was lost).
pub open spec fn last_lost_side(lost: Seq<Option<PaddleSide>>) -> PaddleSide
    decreases lost.len(),
{
    if lost.len() == 0 {
        PaddleSide::Bottom
    } else if lost.last() is Some {
        lost.last()->0
    } else {
        last_lost_side(lost.drop_last())
    }
}

/// What the primary ball is after the losses: it stays if it was not lost;
/// otherwise the last surviving extra ball takes its place.
pub open spec fn ball_after_loss<B>(ball: Option<B>, extras: Seq<B>, lost: Seq<Option<PaddleSide>>) -> Option<B> {
    let survivors = kept_balls(extras, lost, 1);
    match ball {
        Some(b) => if lost[0] is None {
            Some(b)
        } else if survivors.len() > 0 {
            Some(survivors.last())
        } else {
            None
        },
        None => None,
    }
}

/// The extra balls after the losses (see `ball_after_loss`).
pub open spec fn extras_after_loss<B>(ball: Option<B>, extras: Seq<B>, lost: Seq<Option<PaddleSide>>) -> Seq<B> {
    let survivors = kept_balls(extras, lost, 1);
    match ball {
        Some(b) => if lost[0] is None {
            survivors
        } else if survivors.len() > 0 {
            survivors.drop_last()
        } else {
            Seq::empty()
        },
        None => extras,
    }
}

/// What a frame's ball losses did.
#[derive(Debug, Clone, Copy, PartialEq, Eq, Structural)]
pub enum BallLossOutcome {
    /// No ball was lost (or no rally is in play).
    Nothing,
    /// Some balls were lost; at least one is still in play.
    BallsLost,
    /// The last ball was lost and a life spent; a fresh ball must be
    /// spawned on the serving paddle (`install_serve_ball`).
    LifeLost,
    /// The last ball was lost on the last life.
    GameOver,
}

/// The balls to tear down, and what the loss did to the match.
pub struct BallLossReport<B> {
    pub lost: Vec<B>,
    pub outcome: BallLossOutcome,
}

/// What a frame's brick hits did: one event per hit brick, highest index
/// first, and whether this volley just reached the combo target.
pub struct BrickHitReport<P> {
    pub events: Vec<BrickEvent<P>>,
    pub combo_unlocked: bool,
}

/// The balls to tear down and the achievements to unlock when the last
/// brick falls.
pub struct WinReport<B> {
    pub balls: Vec<B>,
    pub achievements: Vec<&'static str>,
}

/// What the match-time input asked for.
pub enum StateInputAction<B> {
    Nothing,
    /// The served ball was launched toward the field (up from the bottom
    /// paddle, down from the top one); with `twin`, a second ball launches
    /// mirrored (`add_extra_ball`).
    Launched { ball: B, twin: bool },
    /// Start the same level again (`start_game`).
    Restart,
    /// Back to the title screen; tear down these balls.
    ToTitle { balls: Vec<B> },
}

/// The rules' part of the game: screen state, the selected level and mode,
/// score, lives, combo, who serves, the live balls and the brick wall.
pub struct BreakoutGame<B, P> {
    pub state: GameState,
    pub mode: GameMode,
    pub chaos_mode: ChaosMode,
    /// Index into the mode's roster of the level being played.
    pub selected_level: usize,
    pub score: u32,
    pub lives: u32,
    /// Bricks destroyed since a ball last touched a paddle.
    pub combo: u32,
    pub serving_side: PaddleSide,
    pub ball: Option<B>,
    pub extra_balls: Vec<B>,
    pub bricks: Vec<Brick<P>>,
}

impl<B: Copy, P: Copy> BreakoutGame<B, P> {
    /// The invariant every operation keeps: balls exist only in a match,
    /// extra balls only beside a primary one and never beyond the cap, a
    /// serve holds a single ball, a rally has a ball, a match has a life
    /// left, lives never exceed the starting count, and the selected level
    /// is on the roster.
    pub open spec fn wf(&self) -> bool {
        &&& self.extra_balls@.len() <= MAX_EXTRA_BALLS
        &&& self.ball is None ==> self.extra_balls@.len() == 0
        &&& self.state is Serving ==> self.extra_balls@.len() == 0
        &&& self.state is Playing ==> self.ball is Some
        &&& !in_match(self.state) ==> self.ball is None
        &&& in_match(self.state) ==> self.lives >= 1
        &&& self.lives <= STARTING_LIVES
        &&& self.selected_level < spec_roster(self.mode).len()
    }

    /// Score, lives, combo, serve, balls and bricks are the same.
    pub open spec fn same_progress(&self, other: &Self) -> bool {
        &&& self.score == other.score
        &&& self.lives == other.lives
        &&& self.combo == other.combo
        &&& self.serving_side == other.serving_side
        &&& self.ball == other.ball
        &&& self.extra_balls@ == other.extra_balls@
        &&& self.bricks@ == other.bricks@
    }

    /// Game mode, chaos mode and level are the same.
    pub open spec fn same_setup(&self, other: &Self) -> bool {
        &&& self.mode == other.mode
        &&& self.chaos_mode == other.chaos_mode
        &&& self.selected_level == other.selected_level
    }

    /// A fresh game on the title screen.
    pub fn new() -> (r: Self)
        ensures
            r.wf(),
            r.state == (GameState::TitleScreen { selection: 0 }),
            r.mode == GameMode::SinglePlayer,
            r.chaos_mode == ChaosMode::Normal,
            r.selected_level == 0,
            r.score == 0,
            r.lives == STARTING_LIVES,
            r.combo == 0,
            r.serving_side == PaddleSide::Bottom,
            r.ball is None,
            r.extra_balls@.len() == 0,
            r.bricks@.len() == 0,
    {
        BreakoutGame {
            state: GameState::TitleScreen { selection: 0 },
            mode: GameMode::SinglePlayer,
            chaos_mode: ChaosMode::Normal,
            selected_level: 0,
            score: 0,
            lives: STARTING_LIVES,
            combo: 0,
            serving_side: PaddleSide::Bottom,
            ball: None,
            extra_balls: Vec::new(),
            bricks: Vec::new(),
        }
    }

    /// The live balls: primary first, then the extra balls.
    pub fn all_balls(&self) -> (r: Vec<B>)
        ensures
            r@ == spec_all_balls(self.ball, self.extra_balls@),
    {
        let mut out: Vec<B> = Vec::new();
        match self.ball {
            Some(b) => out.push(b),
            None => {},
        }
        let mut i: usize = 0;
        while i < self.extra_balls.len()
            invariant
                0 <= i <= self.extra_balls@.len(),
                out@ == spec_all_balls(self.ball, self.extra_balls@.subrange(0, i as int)),
            decreases self.extra_balls@.len() - i,
        {
            out.push(self.extra_balls[i]);
            proof {
                let e = self.extra_balls@;
                assert(e.subrange(0, i + 1) =~= e.subrange(0, i as int).push(e[i as int]));
                match self.ball {
                    Some(b) => assert(seq![b] + e.subrange(0, i + 1) =~= (seq![b] + e.subrange(
                        0,
                        i as int,
                    )).push(e[i as int])),
                    None => {},
                }
            }
            i = i + 1;
        }
        assert(self.extra_balls@.subrange(0, self.extra_balls@.len() as int) =~= self.extra_balls@);
        out
    }

    /// Remove every live ball, handing them back for teardown.
    fn destroy_all_balls(&mut self) -> (r: Vec<B>)
        ensures
            r@ == spec_all_balls(old(self).ball, old(self).extra_balls@),
            final(self).ball is None,
            final(self).extra_balls@.len() == 0,
            final(self).state == old(self).state,
            final(self).same_setup(old(self)),
            final(self).score == old(self).score,
            final(self).lives == old(self).lives,
            final(self).combo == old(self).combo,
            final(self).serving_side == old(self).serving_side,
            final(self).bricks@ == old(self).bricks@,
    {
        let r = self.all_balls();
        self.ball = None;
        self.extra_balls = Vec::new();
        r
    }

    /// Title menu: `selection` is the highlighted entry after this frame's
    /// navigation. Confirming picks 1 player, 2 player co-op, the
    /// achievements page, or (any other entry) exit. Returns whether exit
    /// was requested.
    pub fn update_title_input(&mut self, selection: u8, confirm: bool) -> (exit_requested: bool)
        requires
            old(self).wf(),
            old(self).state is TitleScreen,
        ensures
            final(self).wf(),
            final(self).state == (if confirm && selection <= 1 {
                GameState::LevelSelect { selection: 0 }
            } else if confirm && selection == 2 {
                GameState::Achievements
            } else {
                GameState::TitleScreen { selection }
            }),
            final(self).mode == (if confirm && selection == 0 {
                GameMode::SinglePlayer
            } else if confirm && selection == 1 {
                GameMode::TwoPlayerCoop
            } else {
                old(self).mode
            }),
            exit_requested == (confirm && selection >= 3),
            final(self).chaos_mode == old(self).chaos_mode,
            final(self).selected_level == old(self).selected_level,
            final(self).same_progress(old(self)),
    {
        self.state = GameState::TitleScreen { selection };
        if confirm {
            if selection == 0 {
                self.mode = GameMode::SinglePlayer;
                self.state = GameState::LevelSelect { selection: 0 };
                false
            } else if selection == 1 {
                self.mode = GameMode::TwoPlayerCoop;
                self.state = GameState::LevelSelect { selection: 0 };
                false
            } else if selection == 2 {
                self.state = GameState::Achievements;
                false
            } else {
                true
            }
        } else {
            false
        }
    }

    /// Achievements page: back or confirm returns to the title menu with
    /// the achievements entry highlighted.
    pub fn update_achievements_input(&mut self, back: bool, confirm: bool)
        requires
            old(self).wf(),
            old(self).state is Achievements,
        ensures
            final(self).wf(),
            final(self).state == (if back || confirm {
                GameState::TitleScreen { selection: 2 }
            } else {
                GameState::Achievements
            }),
            final(self).same_setup(old(self)),
            final(self).same_progress(old(self)),
    {
        if back || confirm {
            self.state = GameState::TitleScreen { selection: 2 };
        }
    }

    /// Level select: `selection` is the highlighted level after this
    /// frame's navigation. Back returns to the title menu; confirming
    /// selects the level and its chaos mode, and returns `true`: the caller
    /// then builds the level and calls `start_game`.
    pub fn update_level_select_input(&mut self, selection: u8, back: bool, confirm: bool) -> (start: bool)
        requires
            old(self).wf(),
            old(self).state is LevelSelect,
            confirm && !back ==> (selection as int) < spec_roster(old(self).mode).len(),
        ensures
            final(self).wf(),
            start == (!back && confirm),
            final(self).state == (if back {
                GameState::TitleScreen { selection: 0 }
            } else {
                GameState::LevelSelect { selection }
            }),
            final(self).mode == old(self).mode,
            start ==> final(self).selected_level == selection as usize && final(self).chaos_mode
                == spec_roster(old(self).mode)[selection as int].mode,
            !start ==> final(self).selected_level == old(self).selected_level
                && final(self).chaos_mode == old(self).chaos_mode,
            final(self).same_progress(old(self)),
    {
        self.state = GameState::LevelSelect { selection };
        if back {
            self.state = GameState::TitleScreen { selection: 0 };
            false
        } else if confirm {
            let index = selection as usize;
            match level_mode(self.mode, index) {
                Some(m) => {
                    self.selected_level = index;
                    self.chaos_mode = m;
                },
                None => {},
            }
            true
        } else {
            false
        }
    }

    /// Start a match on the selected level (never on an empty wall): score,
    /// lives and combo reset,
    /// the bottom paddle serves `ball`, and `bricks` is the new wall.
    /// Returns the previous balls and bricks for teardown.
    pub fn start_game(&mut self, bricks: Vec<Brick<P>>, ball: B) -> (teardown: (Vec<B>, Vec<Brick<P>>))
        requires
            old(self).wf(),
            bricks@.len() > 0,
        ensures
            final(self).wf(),
            final(self).state == GameState::Serving,
            final(self).score == 0,
            final(self).lives == STARTING_LIVES,
            final(self).combo == 0,
            final(self).serving_side == PaddleSide::Bottom,
            final(self).ball == Some(ball),
            final(self).extra_balls@.len() == 0,
            final(self).bricks@ == bricks@,
            final(self).bricks@.len() > 0,
            final(self).same_setup(old(self)),
            teardown.0@ == spec_all_balls(old(self).ball, old(self).extra_balls@),
            teardown.1@ == old(self).bricks@,
    {
        self.score = 0;
        self.lives = STARTING_LIVES;
        self.combo = 0;
        self.serving_side = PaddleSide::Bottom;
        let old_balls = self.destroy_all_balls();
        let mut new_bricks = bricks;
        std::mem::swap(&mut self.bricks, &mut new_bricks);
        self.ball = Some(ball);
        self.state = GameState::Serving;
        (old_balls, new_bricks)
    }

    /// Match-time input: a launch fires the served ball (two balls in the
    /// Ridiculous modes) or, after game over, restarts; the menu action
    /// after game over returns to the title screen.
    pub fn handle_state_input(&mut self, launch: bool, menu: bool) -> (r: StateInputAction<B>)
        requires
            old(self).wf(),
        ensures
            final(self).wf(),
            final(self).same_setup(old(self)),
            match r {
                StateInputAction::Nothing => {
                    &&& !(old(self).state is Serving && launch && old(self).ball is Some)
                    &&& !(old(self).state is GameOver && (launch || menu))
                    &&& final(self).state == old(self).state
                    &&& final(self).same_progress(old(self))
                },
                StateInputAction::Launched { ball, twin } => {
                    &&& old(self).state is Serving && launch
                    &&& old(self).ball == Some(ball)
                    &&& twin == spec_is_ridiculous(old(self).chaos_mode)
                    &&& final(self).state == GameState::Playing
                    &&& final(self).same_progress(old(self))
                },
                StateInputAction::Restart => {
                    &&& old(self).state is GameOver && launch
                    &&& final(self).state == old(self).state
                    &&& final(self).same_progress(old(self))
                },
                StateInputAction::ToTitle { balls } => {
                    &&& old(self).state is GameOver && !launch && menu
                    &&& final(self).state == (GameState::TitleScreen { selection: 0 })
                    &&& balls@ == spec_all_balls(old(self).ball, old(self).extra_balls@)
                    &&& final(self).ball is None
                    &&& final(self).extra_balls@.len() == 0
                    &&& final(self).score == old(self).score
                    &&& final(self).lives == old(self).lives
                    &&& final(self).combo == old(self).combo
                    &&& final(self).serving_side == old(self).serving_side
                    &&& final(self).bricks@ == old(self).bricks@
                },
            },
    {
        match self.state {
            GameState::Serving => {
                if launch {
                    match self.ball {
                        Some(b) => {
                            self.state = GameState::Playing;
                            let twin = self.chaos_mode.is_ridiculous();
                            StateInputAction::Launched { ball: b, twin }
                        },
                        None => StateInputAction::Nothing,
                    }
                } else {
                    StateInputAction::Nothing
                }
            },
            GameState::GameOver { .. } => {
                if launch {
                    StateInputAction::Restart
                } else if menu {
                    let balls = self.reset_to_title();
                    StateInputAction::ToTitle { balls }
                } else {
                    StateInputAction::Nothing
                }
            },
            _ => StateInputAction::Nothing,
        }
    }

    /// Leave the match for the title screen, handing back the balls for
    /// teardown.
    pub fn reset_to_title(&mut self) -> (balls: Vec<B>)
        requires
            old(self).wf(),
        ensures
            final(self).wf(),
            final(self).state == (GameState::TitleScreen { selection: 0 }),
            balls@ == spec_all_balls(old(self).ball, old(self).extra_balls@),
            final(self).ball is None,
            final(self).extra_balls@.len() == 0,
            final(self).same_setup(old(self)),
            final(self).score == old(self).score,
            final(self).lives == old(self).lives,
            final(self).combo == old(self).combo,
            final(self).serving_side == old(self).serving_side,
            final(self).bricks@ == old(self).bricks@,
    {
        let balls = self.destroy_all_balls();
        self.state = GameState::TitleScreen { selection: 0 };
        balls
    }

    /// Whether a multiball grant may spawn an extra ball: only during a
    /// rally and below the cap.
    pub fn can_spawn_extra_ball(&self) -> (r: bool)
        ensures
            r == (self.state is Playing && self.extra_balls@.len() < MAX_EXTRA_BALLS),
    {
        crate::power_ups::multiball_allowed(self.extra_balls.len()) && match self.state {
            GameState::Playing => true,
            _ => false,
        }
    }

    /// Put an extra ball into play (a Ridiculous twin or a multiball grant).
    pub fn add_extra_ball(&mut self, ball: B)
        requires
            old(self).wf(),
            old(self).state is Playing,
            old(self).extra_balls@.len() < MAX_EXTRA_BALLS,
        ensures
            final(self).wf(),
            final(self).extra_balls@ == old(self).extra_balls@.push(ball),
            final(self).state == old(self).state,
            final(self).ball == old(self).ball,
            final(self).same_setup(old(self)),
            final(self).score == old(self).score,
            final(self).lives == old(self).lives,
            final(self).combo == old(self).combo,
            final(self).serving_side == old(self).serving_side,
            final(self).bricks@ == old(self).bricks@,
    {
        self.extra_balls.push(ball);
    }

    /// A ball touched a paddle: the volley ends (combo resets). Returns
    /// whether the ball speeds up (the Insane modes).
    pub fn paddle_hit(&mut self) -> (speed_gain: bool)
        requires
            old(self).wf(),
        ensures
            final(self).wf(),
            speed_gain == spec_is_insane(old(self).chaos_mode),
            final(self).combo == 0,
            final(self).state == old(self).state,
            final(self).same_setup(old(self)),
            final(self).score == old(self).score,
            final(self).lives == old(self).lives,
            final(self).serving_side == old(self).serving_side,
            final(self).ball == old(self).ball,
            final(self).extra_balls@ == old(self).extra_balls@,
            final(self).bricks@ == old(self).bricks@,
    {
        self.combo = 0;
        self.chaos_mode.is_insane()
    }

    /// Whether gameplay entities are shown (hidden behind the menus).
    pub fn entities_visible(&self) -> (r: bool)
        ensures
            r == !(self.state is TitleScreen || self.state is LevelSelect
                || self.state is Achievements),
    {
        match self.state {
            GameState::TitleScreen { .. } | GameState::LevelSelect { .. } | GameState::Achievements => false,
            _ => true,
        }
    }

    /// After a life was lost, the fresh ball on the serving paddle.
    pub fn install_serve_ball(&mut self, ball: B)
        requires
            old(self).wf(),
            old(self).state is Serving,
            old(self).ball is None,
        ensures
            final(self).wf(),
            final(self).ball == Some(ball),
            final(self).state == old(self).state,
            final(self).extra_balls@ == old(self).extra_balls@,
            final(self).same_setup(old(self)),
            final(self).score == old(self).score,
            final(self).lives == old(self).lives,
            final(self).combo == old(self).combo,
            final(self).serving_side == old(self).serving_side,
            final(self).bricks@ == old(self).bricks@,
    {
        self.ball = Some(ball);
    }

    /// Whether the score and combo can take this frame's hits without
    /// leaving `u32` (the precondition of `resolve_brick_hits` on the score
    /// and combo).
    pub fn brick_hits_fit(&self, hits: &Vec<usize>, wrecking_active: bool) -> (r: bool)
        requires
            forall|k: int| 0 <= k < hits@.len() ==> (#[trigger] hits@[k] as int) < self.bricks@.len(),
        ensures
            r == (self.score + total_value(destroyed_from(self.bricks@, hits@, wrecking_active, 0))
                <= u32::MAX && self.combo + destroyed_from(self.bricks@, hits@, wrecking_active, 0).len()
                <= u32::MAX),
    {
        let ghost bricks = self.bricks@;
        let mut value: u64 = self.score as u64;
        let mut count: u64 = self.combo as u64;
        let mut i = self.bricks.len();
        proof {
            lemma_destroyed_grows(bricks, hits@, wrecking_active, i as int, i as int);
        }
        while i > 0
            invariant
                0 <= i <= bricks.len(),
                bricks == self.bricks@,
                value == self.score + total_value(destroyed_from(bricks, hits@, wrecking_active, i as int)),
                count == self.combo + destroyed_from(bricks, hits@, wrecking_active, i as int).len(),
                value <= u32::MAX,
                count <= u32::MAX,
            decreases i,
        {
            let j = i - 1;
            let ghost dest = destroyed_from(bricks, hits@, wrecking_active, i as int);
            proof {
                lemma_destroyed_grows(bricks, hits@, wrecking_active, 0, j as int);
            }
            if contains_index(hits, j) {
                match brick_hit_outcome(self.bricks[j].hits_left, wrecking_active) {
                    BrickHitOutcome::Destroyed => {
                        proof {
                            lemma_total_value_cons(bricks[j as int], dest);
                        }
                        value = value + self.bricks[j].value as u64;
                        count = count + 1;
                        if value > u32::MAX as u64 || count > u32::MAX as u64 {
                            return false;
                        }
                    },
                    BrickHitOutcome::Damaged { .. } => {
                        assert(destroyed_from(bricks, hits@, wrecking_active, j as int) =~= dest);
                    },
                }
            } else {
                assert(destroyed_from(bricks, hits@, wrecking_active, j as int) =~= dest);
            }
            i = j;
        }
        true
    }

    /// Resolve this frame's brick hits (`hits`: indices into the wall,
    /// possibly repeated when several balls touched the same brick; each
    /// brick takes one hit). Armored bricks lose a hit; destroyed bricks
    /// leave the wall, pay their value and grow the combo. Wrecking
    /// destroys any brick.
    pub fn resolve_brick_hits(&mut self, hits: &Vec<usize>, wrecking_active: bool) -> (r:
        BrickHitReport<P>)
        requires
            old(self).wf(),
            forall|k: int| 0 <= k < hits@.len() ==> (#[trigger] hits@[k] as int) < old(self).bricks@.len(),
            old(self).score + total_value(destroyed_from(old(self).bricks@, hits@, wrecking_active, 0))
                <= u32::MAX,
            old(self).combo + destroyed_from(old(self).bricks@, hits@, wrecking_active, 0).len()
                <= u32::MAX,
        ensures
            final(self).wf(),
            final(self).bricks@ == remaining_from(old(self).bricks@, hits@, wrecking_active, 0),
            final(self).score == old(self).score + total_value(
                destroyed_from(old(self).bricks@, hits@, wrecking_active, 0),
            ),
            final(self).combo == old(self).combo + destroyed_from(
                old(self).bricks@,
                hits@,
                wrecking_active,
                0,
            ).len(),
            r.events@ == events_from(old(self).bricks@, hits@, wrecking_active, 0),
            r.combo_unlocked == (old(self).combo < COMBO_TARGET && old(self).combo + destroyed_from(
                old(self).bricks@,
                hits@,
                wrecking_active,
                0,
            ).len() >= COMBO_TARGET),
            final(self).state == old(self).state,
            final(self).same_setup(old(self)),
            final(self).lives == old(self).lives,
            final(self).serving_side == old(self).serving_side,
            final(self).ball == old(self).ball,
            final(self).extra_balls@ == old(self).extra_balls@,
    {
        let ghost bricks0 = self.bricks@;
        let ghost score0 = self.score;
        let ghost combo0 = self.combo;
        let mut events: Vec<BrickEvent<P>> = Vec::new();
        let mut unlocked = false;
        let mut i = self.bricks.len();
        proof {
            assert(bricks0.subrange(0, i as int) =~= bricks0);
            assert(bricks0 + Seq::<Brick<P>>::empty() =~= bricks0);
            lemma_destroyed_grows(bricks0, hits@, wrecking_active, 0, i as int);
        }
        while i > 0
            invariant
                old(self).wf(),
                0 <= i <= bricks0.len(),
                bricks0 == old(self).bricks@,
                score0 == old(self).score,
                combo0 == old(self).combo,
                self.bricks@ == bricks0.subrange(0, i as int) + remaining_from(
                    bricks0,
                    hits@,
                    wrecking_active,
                    i as int,
                ),
                self.score == score0 + total_value(
                    destroyed_from(bricks0, hits@, wrecking_active, i as int),
                ),
                self.combo == combo0 + destroyed_from(bricks0, hits@, wrecking_active, i as int).len(),
                score0 + total_value(destroyed_from(bricks0, hits@, wrecking_active, 0)) <= u32::MAX,
                combo0 + destroyed_from(bricks0, hits@, wrecking_active, 0).len() <= u32::MAX,
                events@ == events_from(bricks0, hits@, wrecking_active, i as int),
                unlocked == (combo0 < COMBO_TARGET && combo0 + destroyed_from(
                    bricks0,
                    hits@,
                    wrecking_active,
                    i as int,
                ).len() >= COMBO_TARGET),
                self.state == old(self).state,
                self.same_setup(old(self)),
                self.lives == old(self).lives,
                self.serving_side == old(self).serving_side,
                self.ball == old(self).ball,
                self.extra_balls@ == old(self).extra_balls@,
            decreases i,
        {
            let j = i - 1;
            let ghost rest = remaining_from(bricks0, hits@, wrecking_active, i as int);
            let ghost dest = destroyed_from(bricks0, hits@, wrecking_active, i as int);
            proof {
                lemma_destroyed_grows(bricks0, hits@, wrecking_active, 0, j as int);
                assert(self.bricks@[j as int] == bricks0[j as int]);
            }
            if contains_index(hits, j) {
                let b = self.bricks[j];
                match brick_hit_outcome(b.hits_left, wrecking_active) {
                    BrickHitOutcome::Damaged { hits_left } => {
                        let nb = Brick { payload: b.payload, value: b.value, hits_left, drop: b.drop };
                        self.bricks.set(j, nb);
                        events.push(BrickEvent::Damaged { payload: b.payload, hits_left });
                        proof {
                            assert(self.bricks@ =~= bricks0.subrange(0, j as int) + (seq![nb] + rest));
                            assert(destroyed_from(bricks0, hits@, wrecking_active, j as int) =~= dest);
                        }
                    },
                    BrickHitOutcome::Destroyed => {
                        let removed = self.bricks.remove(j);
                        proof {
                            lemma_total_value_cons(removed, dest);
                            assert(self.bricks@ =~= bricks0.subrange(0, j as int) + (Seq::<
                                Brick<P>,
                            >::empty() + rest));
                        }
                        self.score = self.score + removed.value;
                        self.combo = self.combo + 1;
                        if self.combo == COMBO_TARGET {
                            unlocked = true;
                        }
                        events.push(BrickEvent::Destroyed { brick: removed });
                    },
                }
            } else {
                proof {
                    assert(self.bricks@ =~= bricks0.subrange(0, j as int) + (seq![bricks0[j as int]]
                        + rest));
                    assert(destroyed_from(bricks0, hits@, wrecking_active, j as int) =~= dest);
                    assert(events_from(bricks0, hits@, wrecking_active, j as int) =~= events_from(
                        bricks0,
                        hits@,
                        wrecking_active,
                        i as int,
                    ));
                }
            }
            i = j;
        }
        BrickHitReport { events, combo_unlocked: unlocked }
    }

    /// Resolve this frame's ball losses. `lost[i]` says, for the i-th live
    /// ball (primary first, then the extras), past which edge it fell, if
    /// it did. Only a rally loses balls. When the primary ball is lost the
    /// last surviving extra ball takes its place; when none survives, a
    /// life is spent and the combo resets: on the last life the game is
    /// over, otherwise the serve goes to the side that lost the last ball
    /// (co-op) or to the bottom (solo).
    pub fn resolve_ball_loss(&mut self, lost: &Vec<Option<PaddleSide>>) -> (r: BallLossReport<B>)
        requires
            old(self).wf(),
            lost@.len() == spec_all_balls(old(self).ball, old(self).extra_balls@).len(),
        ensures
            final(self).wf(),
            final(self).same_setup(old(self)),
            final(self).score == old(self).score,
            final(self).bricks@ == old(self).bricks@,
            final(self).lives <= old(self).lives,
            ({
                let all = spec_all_balls(old(self).ball, old(self).extra_balls@);
                let gone = lost_balls(all, lost@, 0);
                let ball = ball_after_loss(old(self).ball, old(self).extra_balls@, lost@);
                let extras = extras_after_loss(old(self).ball, old(self).extra_balls@, lost@);
                if !(old(self).state is Playing) || gone.len() == 0 {
                    &&& r.outcome == BallLossOutcome::Nothing
                    &&& r.lost@.len() == 0
                    &&& final(self).state == old(self).state
                    &&& final(self).same_progress(old(self))
                } else {
                    &&& r.lost@ == gone
                    &&& final(self).extra_balls@ == extras
                    &&& final(self).ball == ball
                    &&& if ball is Some {
                        &&& r.outcome == BallLossOutcome::BallsLost
                        &&& final(self).state == old(self).state
                        &&& final(self).lives == old(self).lives
                        &&& final(self).combo == old(self).combo
                        &&& final(self).serving_side == old(self).serving_side
                    } else {
                        &&& final(self).lives == old(self).lives - 1
                        &&& final(self).combo == 0
                        &&& if final(self).lives == 0 {
                            &&& r.outcome == BallLossOutcome::GameOver
                            &&& final(self).state == (GameState::GameOver { won: false })
                            &&& final(self).serving_side == old(self).serving_side
                        } else {
                            &&& r.outcome == BallLossOutcome::LifeLost
                            &&& final(self).state == GameState::Serving
                            &&& final(self).serving_side == spec_serve_side_after_loss(
                                old(self).mode,
                                last_lost_side(lost@),
                            )
                        }
                    }
                }
            }),
    {
        let nothing = BallLossReport { lost: Vec::new(), outcome: BallLossOutcome::Nothing };
        match self.state {
            GameState::Playing => {},
            _ => {
                return nothing;
            },
        }
        let all = self.all_balls();
        let mut gone: Vec<B> = Vec::new();
        let mut side = PaddleSide::Bottom;
        let mut i: usize = 0;
        while i < lost.len()
            invariant
                0 <= i <= lost@.len(),
                lost@.len() == all@.len(),
                gone@ == lost_balls(all@.subrange(0, i as int), lost@, 0),
                side == last_lost_side(lost@.subrange(0, i as int)),
            decreases lost@.len() - i,
        {
            proof {
                let pre = all@.subrange(0, i + 1);
                assert(pre.drop_last() =~= all@.subrange(0, i as int));
                let lp = lost@.subrange(0, i + 1);
                assert(lp.drop_last() =~= lost@.subrange(0, i as int));
            }
            match lost[i] {
                Some(s) => {
                    gone.push(all[i]);
                    side = s;
                },
                None => {},
            }
            i = i + 1;
        }
        proof {
            assert(all@.subrange(0, all@.len() as int) =~= all@);
            assert(lost@.subrange(0, lost@.len() as int) =~= lost@);
        }
        if gone.len() == 0 {
            return nothing;
        }
        match self.ball {
            Some(b) => {
                let mut survivors: Vec<B> = Vec::new();
                let mut k: usize = 0;
                while k < self.extra_balls.len()
                    invariant
                        0 <= k <= self.extra_balls@.len(),
                        lost@.len() == self.extra_balls@.len() + 1,
                        survivors@ == kept_balls(self.extra_balls@.subrange(0, k as int), lost@, 1),
                        survivors@.len() <= k,
                    decreases self.extra_balls@.len() - k,
                {
                    proof {
                        let pre = self.extra_balls@.subrange(0, k + 1);
                        assert(pre.drop_last() =~= self.extra_balls@.subrange(0, k as int));
                    }
                    if lost[k + 1].is_none() {
                        survivors.push(self.extra_balls[k]);
                    }
                    k = k + 1;
                }
                proof {
                    assert(self.extra_balls@.subrange(0, self.extra_balls@.len() as int)
                        =~= self.extra_balls@);
                }
                if lost[0].is_none() {
                    self.extra_balls = survivors;
                } else {
                    let next = survivors.pop();
                    self.ball = next;
                    self.extra_balls = survivors;
                }
            },
            None => {},
        }
        if self.ball.is_some() {
            return BallLossReport { lost: gone, outcome: BallLossOutcome::BallsLost };
        }
        self.lives = self.lives - 1;
        self.combo = 0;
        if self.lives == 0 {
            self.state = GameState::GameOver { won: false };
            return BallLossReport { lost: gone, outcome: BallLossOutcome::GameOver };
        }
        self.serving_side = serve_side_after_loss(self.mode, side);
        self.state = GameState::Serving;
        BallLossReport { lost: gone, outcome: BallLossOutcome::LifeLost }
    }

    /// When the last brick falls during a match: the board is cleared, the
    /// balls go, and the mode's win achievements unlock.
    pub fn check_win_condition(&mut self) -> (r: Option<WinReport<B>>)
        requires
            old(self).wf(),
        ensures
            final(self).wf(),
            r is Some <==> (in_match(old(self).state) && old(self).bricks@.len() == 0),
            r is None ==> final(self).state == old(self).state && final(self).same_setup(old(self))
                && final(self).same_progress(old(self)),
            match r {
                Some(w) => {
                    &&& final(self).state == (GameState::GameOver { won: true })
                    &&& w.balls@ == spec_all_balls(old(self).ball, old(self).extra_balls@)
                    &&& w.achievements@.len() == spec_win_achievements(
                        old(self).chaos_mode,
                        old(self).lives,
                    ).len()
                    &&& forall|k: int|
                        0 <= k < w.achievements@.len() ==> #[trigger] w.achievements@[k]@
                            == spec_win_achievements(old(self).chaos_mode, old(self).lives)[k]
                    &&& final(self).ball is None
                    &&& final(self).extra_balls@.len() == 0
                    &&& final(self).same_setup(old(self))
                    &&& final(self).score == old(self).score
                    &&& final(self).lives == old(self).lives
                    &&& final(self).combo == old(self).combo
                    &&& final(self).serving_side == old(self).serving_side
                    &&& final(self).bricks@ == old(self).bricks@
                },
                None => true,
            },
    {
        let live = match self.state {
            GameState::Playing | GameState::Serving => true,
            _ => false,
        };
        if !live || self.bricks.len() != 0 {
            return None;
        }
        let balls = self.destroy_all_balls();
        let achievements = win_achievements(self.chaos_mode, self.lives);
        self.state = GameState::GameOver { won: true };
        Some(WinReport { balls, achievements })
    }
}

/// Solo play always serves from the bottom; in co-op the side that let the
/// last ball out serves.
pub proof fn law_serve_side(lost_past: PaddleSide)
    ensures
        spec_serve_side_after_loss(GameMode::SinglePlayer, lost_past) == PaddleSide::Bottom,
        spec_serve_side_after_loss(GameMode::TwoPlayerCoop, lost_past) == lost_past,
{
}

proof fn lemma_kept_plus_lost<B>(bs: Seq<B>, lost: Seq<Option<PaddleSide>>, off: int)
    ensures
        kept_balls(bs, lost, off).len() + lost_balls(bs, lost, off).len() == bs.len(),
    decreases bs.len(),
{
    if bs.len() > 0 {
        lemma_kept_plus_lost(bs.drop_last(), lost, off);
    }
}

proof fn lemma_lost_balls_cons<B>(b: B, e: Seq<B>, lost: Seq<Option<PaddleSide>>)
    ensures
        lost_balls(seq![b] + e, lost, 0).len() == (if lost[0] is Some {
            1int
        } else {
            0int
        }) + lost_balls(e, lost, 1).len(),
    decreases e.len(),
{
    let all = seq![b] + e;
    if e.len() == 0 {
        assert(all.drop_last() =~= Seq::<B>::empty());
        assert(lost_balls(Seq::<B>::empty(), lost, 0).len() == 0);
        assert(lost_balls(e, lost, 1).len() == 0);
    } else {
        assert(all.drop_last() =~= seq![b] + e.drop_last());
        assert(all.last() == e.last());
        lemma_lost_balls_cons(b, e.drop_last(), lost);
    }
}

proof fn lemma_nothing_lost<B>(bs: Seq<B>, lost: Seq<Option<PaddleSide>>, off: int)
    requires
        forall|k: int| 0 <= k < bs.len() ==> (#[trigger] lost[k + off]) is None,
    ensures
        kept_balls(bs, lost, off) == bs,
        lost_balls(bs, lost, off).len() == 0,
    decreases bs.len(),
{
    if bs.len() > 0 {
        lemma_nothing_lost(bs.drop_last(), lost, off);
        assert(lost[(bs.len() - 1) + off] is None);
        assert(bs.drop_last().push(bs.last()) =~= bs);
    }
}

proof fn lemma_everything_lost<B>(bs: Seq<B>, lost: Seq<Option<PaddleSide>>, off: int)
    requires
        forall|k: int| 0 <= k < bs.len() ==> (#[trigger] lost[k + off]) is Some,
    ensures
        kept_balls(bs, lost, off).len() == 0,
        lost_balls(bs, lost, off) == bs,
    decreases bs.len(),
{
    if bs.len() > 0 {
        lemma_everything_lost(bs.drop_last(), lost, off);
        assert(lost[(bs.len() - 1) + off] is Some);
        assert(bs.drop_last().push(bs.last()) =~= bs);
    } else {
        assert(bs =~= Seq::<B>::empty());
    }
}

/// The last kept ball is the last ball of `bs` whose entry says it was not
/// lost; no ball is kept when every ball was lost.
proof fn lemma_last_kept<B>(bs: Seq<B>, lost: Seq<Option<PaddleSide>>, off: int)
    ensures
        kept_balls(bs, lost, off).len() > 0 ==> exists|k: int|
            #![trigger bs[k]]
            0 <= k < bs.len() && lost[k + off] is None && kept_balls(bs, lost, off).last() == bs[k]
                && forall|m: int| k < m < bs.len() ==> (#[trigger] lost[m + off]) is Some,
        kept_balls(bs, lost, off).len() == 0 ==> forall|m: int|
            0 <= m < bs.len() ==> (#[trigger] lost[m + off]) is Some,
    decreases bs.len(),
{
    if bs.len() > 0 {
        let n = bs.len() - 1;
        let pre = bs.drop_last();
        lemma_last_kept(pre, lost, off);
        if lost[n + off] is None {
            assert(kept_balls(bs, lost, off).last() == bs[n]);
        } else {
            let kp = kept_balls(pre, lost, off);
            if kp.len() > 0 {
                let k = choose|k: int|
                    #![trigger pre[k]]
                    0 <= k < pre.len() && lost[k + off] is None && kp.last() == pre[k] && forall|m: int|
                        k < m < pre.len() ==> (#[trigger] lost[m + off]) is Some;
                assert(pre[k] == bs[k]);
                assert forall|m: int| k < m < bs.len() implies (#[trigger] lost[m + off]) is Some by {
                    if m < pre.len() {
                    } else {
                        assert(m == n);
                    }
                }
            } else {
                assert forall|m: int| 0 <= m < bs.len() implies (#[trigger] lost[m + off]) is Some by {
                    if m < pre.len() {
                    } else {
                        assert(m == n);
                    }
                }
            }
        }
    }
}

/// A frame in which no ball fell loses nothing: the primary ball and the
/// extra balls stay exactly as they were.
pub proof fn law_no_loss_keeps_every_ball<B>(ball: Option<B>, extras: Seq<B>, lost: Seq<Option<PaddleSide>>)
    requires
        lost.len() == spec_all_balls(ball, extras).len(),
        forall|k: int| 0 <= k < lost.len() ==> (#[trigger] lost[k]) is None,
    ensures
        lost_balls(spec_all_balls(ball, extras), lost, 0).len() == 0,
        ball is Some ==> ball_after_loss(ball, extras, lost) == ball,
        extras_after_loss(ball, extras, lost) == extras,
{
    let all = spec_all_balls(ball, extras);
    assert forall|k: int| 0 <= k < all.len() implies (#[trigger] lost[k + 0]) is None by {
        assert(lost[k] is None);
    }
    lemma_nothing_lost(all, lost, 0);
    if ball is Some {
        assert forall|k: int| 0 <= k < extras.len() implies (#[trigger] lost[k + 1]) is None by {
            assert(lost[k + 1] is None);
        }
        lemma_nothing_lost(extras, lost, 1);
        assert(lost[0] is None);
    }
}

/// When every live ball falls, all of them are handed back as lost and
/// none stays in play.
pub proof fn law_all_lost_leaves_none<B>(ball: Option<B>, extras: Seq<B>, lost: Seq<Option<PaddleSide>>)
    requires
        ball is None ==> extras.len() == 0,
        lost.len() == spec_all_balls(ball, extras).len(),
        forall|k: int| 0 <= k < lost.len() ==> (#[trigger] lost[k]) is Some,
    ensures
        lost_balls(spec_all_balls(ball, extras), lost, 0) == spec_all_balls(ball, extras),
        ball_after_loss(ball, extras, lost) is None,
        extras_after_loss(ball, extras, lost).len() == 0,
{
    let all = spec_all_balls(ball, extras);
    assert forall|k: int| 0 <= k < all.len() implies (#[trigger] lost[k + 0]) is Some by {
        assert(lost[k] is Some);
    }
    lemma_everything_lost(all, lost, 0);
    if ball is Some {
        assert forall|k: int| 0 <= k < extras.len() implies (#[trigger] lost[k + 1]) is Some by {
            assert(lost[k + 1] is Some);
        }
        lemma_everything_lost(extras, lost, 1);
        assert(lost[0] is Some);
    }
}

/// When the primary ball falls, its place goes to the most recently added
/// extra ball that is still in play; only when no extra ball survives is
/// the rally left without a ball.
pub proof fn law_last_survivor_takes_over<B>(b: B, extras: Seq<B>, lost: Seq<Option<PaddleSide>>)
    requires
        lost.len() == extras.len() + 1,
        lost[0] is Some,
    ensures
        match ball_after_loss(Some(b), extras, lost) {
            Some(nb) => exists|k: int|
                #![trigger extras[k]]
                0 <= k < extras.len() && nb == extras[k] && lost[k + 1] is None && forall|m: int|
                    k < m < extras.len() ==> (#[trigger] lost[m + 1]) is Some,
            None => forall|m: int| 0 <= m < extras.len() ==> (#[trigger] lost[m + 1]) is Some,
        },
{
    lemma_last_kept(extras, lost, 1);
}

/// The serve after a lost life goes by the last ball that fell: the side
/// of the last entry that reports a loss, whatever fell before it; the
/// bottom when no entry does.
pub proof fn law_last_loss_decides_side(lost: Seq<Option<PaddleSide>>, k: int, s: PaddleSide)
    requires
        0 <= k < lost.len(),
        lost[k] == Some(s),
        forall|m: int| k < m < lost.len() ==> (#[trigger] lost[m]) is None,
    ensures
        last_lost_side(lost) == s,
    decreases lost.len(),
{
    if k < lost.len() - 1 {
        let pre = lost.drop_last();
        assert(lost.last() is None);
        assert(pre[k] == lost[k]);
        assert forall|m: int| k < m < pre.len() implies (#[trigger] pre[m]) is None by {
            assert(pre[m] == lost[m]);
        }
        law_last_loss_decides_side(pre, k, s);
    }
}

/// Every live ball is accounted for after a frame's losses: it is either
/// still in play (as the primary or an extra ball) or handed back as lost.
pub proof fn law_balls_conserved<B>(ball: Option<B>, extras: Seq<B>, lost: Seq<Option<PaddleSide>>)
    requires
        ball is None ==> extras.len() == 0,
        lost.len() == spec_all_balls(ball, extras).len(),
    ensures
        spec_all_balls(
            ball_after_loss(ball, extras, lost),
            extras_after_loss(ball, extras, lost),
        ).len() + lost_balls(spec_all_balls(ball, extras), lost, 0).len() == spec_all_balls(
            ball,
            extras,
        ).len(),
{
    match ball {
        Some(b) => {
            lemma_kept_plus_lost(extras, lost, 1);
            lemma_lost_balls_cons(b, extras, lost);
        },
        None => {
            assert(extras =~= Seq::<B>::empty());
        },
    }
}

} // verus!
