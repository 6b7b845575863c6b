//! The text decisions of the in-match overlay: the lives readout, the serve
//! prompt, whether the combo counter shows, and the game-over headline.

use vstd::prelude::*;
use vstd::string::StringExecFns;
use crate::types::{GameMode, PaddleSide};

verus! {

broadcast use vstd::string::group_string_axioms;

/// `n` stars separated by single spaces (`"* ".repeat(n).trim_end()`).
pub open spec fn spec_stars(n: nat) -> Seq<char>
    decreases n,
{
    if n == 0 {
        Seq::empty()
    } else if n == 1 {
        seq!['*']
    } else {
        spec_stars((n - 1) as nat) + seq![' ', '*']
    }
}

/// The star row of `n` lives: `n` stars, one space between neighbours, and
/// nothing else (no leading or trailing space).
pub proof fn law_stars_shape(n: nat)
    ensures
        spec_stars(n).len() == if n == 0 {
            0
        } else {
            2 * n - 1
        },
        forall|k: int|
            0 <= k < spec_stars(n).len() ==> #[trigger] spec_stars(n)[k] == if k % 2 == 0 {
                '*'
            } else {
                ' '
            },
    decreases n,
{
    if n > 1 {
        law_stars_shape((n - 1) as nat);
        let p = spec_stars((n - 1) as nat);
        let s = spec_stars(n);
        assert(s == p + seq![' ', '*']);
        assert forall|k: int| 0 <= k < s.len() implies #[trigger] s[k] == if k % 2 == 0 {
            '*'
        } else {
            ' '
        } by {
            if k < p.len() {
                assert(s[k] == p[k]);
            } else if k == p.len() {
                assert(k % 2 == 1);
            } else {
                assert(k % 2 == 0);
            }
        }
    }
}

/// The lives readout: `LIVES` followed by one star per life.
pub fn lives_text(lives: u32) -> (r: String)
    ensures
        r@ == "LIVES "@ + spec_stars(lives as nat),
{
    let mut text = String::from_str("LIVES ");
    let mut i: u32 = 0;
    while i < lives
        invariant
            0 <= i <= lives,
            text@ == "LIVES "@ + spec_stars(i as nat),
        decreases lives - i,
    {
        proof {
            reveal_strlit("*");
            reveal_strlit(" *");
        }
        if i == 0 {
            text.append("*");
            assert(text@ =~= "LIVES "@ + spec_stars(1));
        } else {
            text.append(" *");
            assert(text@ =~= "LIVES "@ + spec_stars((i + 1) as nat));
        }
        i = i + 1;
    }
    text
}

/// The prompt shown while a ball waits on the serving paddle.
pub open spec fn spec_serve_prompt(mode: GameMode, side: PaddleSide) -> Seq<char> {
    match (mode, side) {
        (GameMode::SinglePlayer, _) => "SPACE or CLICK to launch"@,
        (_, PaddleSide::Bottom) => "P1 SERVES - SPACE, CLICK, or (A) to launch"@,
        (_, PaddleSide::Top) => "P2 SERVES - ENTER or (A) to launch"@,
    }
}

pub fn serve_prompt(mode: GameMode, side: PaddleSide) -> (r: &'static str)
    ensures
        r@ == spec_serve_prompt(mode, side),
{
    match (mode, side) {
        (GameMode::SinglePlayer, _) => "SPACE or CLICK to launch",
        (_, PaddleSide::Bottom) => "P1 SERVES - SPACE, CLICK, or (A) to launch",
        (_, PaddleSide::Top) => "P2 SERVES - ENTER or (A) to launch",
    }
}

/// A solo game has one paddle, so its serve prompt names no player and is
/// the same whichever side is asked about; in co-op the prompt names the
/// serving player, `P1` for the bottom paddle and `P2` for the top one.
pub proof fn law_serve_prompt_names_player_only_in_coop(s: PaddleSide, t: PaddleSide)
    ensures
        spec_serve_prompt(GameMode::SinglePlayer, s) == spec_serve_prompt(GameMode::SinglePlayer, t),
        spec_serve_prompt(GameMode::SinglePlayer, s) == "SPACE or CLICK to launch"@,
        spec_serve_prompt(GameMode::TwoPlayerCoop, PaddleSide::Bottom).subrange(0, 2) == "P1"@,
        spec_serve_prompt(GameMode::TwoPlayerCoop, PaddleSide::Top).subrange(0, 2) == "P2"@,
        spec_serve_prompt(GameMode::SinglePlayer, s)[0] != 'P',
{
    reveal_strlit("SPACE or CLICK to launch");
    reveal_strlit("P1 SERVES - SPACE, CLICK, or (A) to launch");
    reveal_strlit("P2 SERVES - ENTER or (A) to launch");
    reveal_strlit("P1");
    reveal_strlit("P2");
    assert(spec_serve_prompt(GameMode::TwoPlayerCoop, PaddleSide::Bottom).subrange(0, 2) =~= "P1"@);
    assert(spec_serve_prompt(GameMode::TwoPlayerCoop, PaddleSide::Top).subrange(0, 2) =~= "P2"@);
}

/// The combo counter shows from the third brick of a volley on.
pub fn combo_visible(combo: u32) -> (r: bool)
    ensures
        r == (combo >= 3),
{
    combo >= 3
}

/// Headline of the game-over panel.
pub fn game_over_message(won: bool) -> (r: &'static str)
    ensures
        r@ == (if won {
            "BOARD CLEARED!"@
        } else {
            "GAME OVER"@
        }),
{
    if won {
        "BOARD CLEARED!"
    } else {
        "GAME OVER"
    }
}

} // verus!
