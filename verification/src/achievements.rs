//! Achievement definitions, their display grouping, and which ones a won
//! match unlocks.
//!
//! Win-related achievements unlock when the last brick falls; the combo
//! achievement unlocks live the moment a volley reaches `COMBO_TARGET`.

use vstd::prelude::*;
use crate::constants::STARTING_LIVES;
use crate::types::{ChaosMode, spec_all_chaos_modes};

verus! {

broadcast use vstd::string::group_string_axioms;

pub const CLEAR_NORMAL: &'static str = "clear_normal";
pub const CLEAR_INSANE: &'static str = "clear_insane";
pub const CLEAR_RIDICULOUS: &'static str = "clear_ridiculous";
pub const CLEAR_INSICULOUS: &'static str = "clear_insiculous";

pub const PERFECT_NORMAL: &'static str = "perfect_normal";
pub const PERFECT_INSANE: &'static str = "perfect_insane";
pub const PERFECT_RIDICULOUS: &'static str = "perfect_ridiculous";
pub const PERFECT_INSICULOUS: &'static str = "perfect_insiculous";

pub const COMBO_VOLLEY: &'static str = "combo_volley";
pub const LAST_LIFE: &'static str = "last_life";

/// The id of the "clear every brick" achievement of a chaos mode.
pub open spec fn spec_clear_id(mode: ChaosMode) -> Seq<char> {
    match mode {
        ChaosMode::Normal => "clear_normal"@,
        ChaosMode::Insane => "clear_insane"@,
        ChaosMode::Ridiculous => "clear_ridiculous"@,
        ChaosMode::Insiculous => "clear_insiculous"@,
    }
}

/// The id of the "clear without losing a ball" achievement of a chaos mode.
pub open spec fn spec_perfect_id(mode: ChaosMode) -> Seq<char> {
    match mode {
        ChaosMode::Normal => "perfect_normal"@,
        ChaosMode::Insane => "perfect_insane"@,
        ChaosMode::Ridiculous => "perfect_ridiculous"@,
        ChaosMode::Insiculous => "perfect_insiculous"@,
    }
}

pub fn chaos_clear_id(mode: ChaosMode) -> (r: &'static str)
    ensures
        r@ == spec_clear_id(mode),
{
    match mode {
        ChaosMode::Normal => CLEAR_NORMAL,
        ChaosMode::Insane => CLEAR_INSANE,
        ChaosMode::Ridiculous => CLEAR_RIDICULOUS,
        ChaosMode::Insiculous => CLEAR_INSICULOUS,
    }
}

pub fn chaos_perfect_id(mode: ChaosMode) -> (r: &'static str)
    ensures
        r@ == spec_perfect_id(mode),
{
    match mode {
        ChaosMode::Normal => PERFECT_NORMAL,
        ChaosMode::Insane => PERFECT_INSANE,
        ChaosMode::Ridiculous => PERFECT_RIDICULOUS,
        ChaosMode::Insiculous => PERFECT_INSICULOUS,
    }
}

/// An achievement to register: id, display name, description.
#[derive(Debug, Clone, Copy)]
pub struct AchievementDef {
    pub id: &'static str,
    pub name: &'static str,
    pub description: &'static str,
}

/// Every achievement id, in registration order.
pub open spec fn spec_registered_ids() -> Seq<Seq<char>> {
    seq![
        "clear_normal"@,
        "clear_insane"@,
        "clear_ridiculous"@,
        "clear_insiculous"@,
        "perfect_normal"@,
        "perfect_insane"@,
        "perfect_ridiculous"@,
        "perfect_insiculous"@,
        "combo_volley"@,
        "last_life"@,
    ]
}

/// Display names of the achievements, in registration order.
pub open spec fn spec_achievement_names() -> Seq<Seq<char>> {
    seq![
        "Demolition Crew"@,
        "Speed Wrecker"@,
        "Double Demolition"@,
        "Insiculous Wrecking Ball"@,
        "Flawless Foundation"@,
        "Flawless Frenzy"@,
        "Flawless Juggling"@,
        "Insiculously Flawless"@,
        "Wrecking Volley"@,
        "Clutch Clear"@,
    ]
}

/// Descriptions of the achievements, in registration order.
pub open spec fn spec_achievement_descriptions() -> Seq<Seq<char>> {
    seq![
        "Clear every brick in Normal mode."@,
        "Clear every brick in Insane mode."@,
        "Clear every brick in Ridiculous mode."@,
        "Clear every brick in Insiculous mode."@,
        "Clear Normal mode without losing a ball."@,
        "Clear Insane mode without losing a ball."@,
        "Clear Ridiculous mode without losing a ball."@,
        "Clear Insiculous mode without losing a ball."@,
        "Destroy 5 bricks in a single volley (no paddle touch)."@,
        "Clear the board on your very last life."@,
    ]
}

/// Every Breakout achievement, in registration order (`register_all`
/// registers exactly these): id, display name and description.
pub fn achievement_defs() -> (r: Vec<AchievementDef>)
    ensures
        r@.len() == spec_registered_ids().len(),
        forall|i: int| 0 <= i < r@.len() ==> #[trigger] r@[i].id@ == spec_registered_ids()[i],
        forall|i: int| 0 <= i < r@.len() ==> #[trigger] r@[i].name@ == spec_achievement_names()[i],
        forall|i: int|
            0 <= i < r@.len() ==> #[trigger] r@[i].description@
                == spec_achievement_descriptions()[i],
{
    vec![
        AchievementDef {
            id: CLEAR_NORMAL,
            name: "Demolition Crew",
            description: "Clear every brick in Normal mode.",
        },
        AchievementDef {
            id: CLEAR_INSANE,
            name: "Speed Wrecker",
            description: "Clear every brick in Insane mode.",
        },
        AchievementDef {
            id: CLEAR_RIDICULOUS,
            name: "Double Demolition",
            description: "Clear every brick in Ridiculous mode.",
        },
        AchievementDef {
            id: CLEAR_INSICULOUS,
            name: "Insiculous Wrecking Ball",
            description: "Clear every brick in Insiculous mode.",
        },
        AchievementDef {
            id: PERFECT_NORMAL,
            name: "Flawless Foundation",
            description: "Clear Normal mode without losing a ball.",
        },
        AchievementDef {
            id: PERFECT_INSANE,
            name: "Flawless Frenzy",
            description: "Clear Insane mode without losing a ball.",
        },
        AchievementDef {
            id: PERFECT_RIDICULOUS,
            name: "Flawless Juggling",
            description: "Clear Ridiculous mode without losing a ball.",
        },
        AchievementDef {
            id: PERFECT_INSICULOUS,
            name: "Insiculously Flawless",
            description: "Clear Insiculous mode without losing a ball.",
        },
        AchievementDef {
            id: COMBO_VOLLEY,
            name: "Wrecking Volley",
            description: "Destroy 5 bricks in a single volley (no paddle touch).",
        },
        AchievementDef {
            id: LAST_LIFE,
            name: "Clutch Clear",
            description: "Clear the board on your very last life.",
        },
    ]
}

/// A section of the achievements page: its header and the ids under it.
#[derive(Debug, Clone)]
pub struct DisplaySection {
    pub title: &'static str,
    pub ids: Vec<&'static str>,
}

/// The ids of the achievements page, section by section.
pub open spec fn spec_display_sections() -> Seq<Seq<Seq<char>>> {
    seq![
        seq!["clear_normal"@, "clear_insane"@, "clear_ridiculous"@, "clear_insiculous"@],
        seq!["perfect_normal"@, "perfect_insane"@, "perfect_ridiculous"@, "perfect_insiculous"@],
        seq!["combo_volley"@, "last_life"@],
    ]
}

/// Section headers of the achievements page.
pub open spec fn spec_display_section_titles() -> Seq<Seq<char>> {
    seq!["Clears"@, "Perfect Clears"@, "Skill"@]
}

/// Grouped display order for the achievements page.
pub fn display_sections() -> (r: Vec<DisplaySection>)
    ensures
        r@.len() == spec_display_sections().len(),
        forall|i: int| 0 <= i < r@.len() ==> #[trigger] r@[i].title@ == spec_display_section_titles()[i],
        forall|i: int|
            0 <= i < r@.len() ==> {
                &&& (#[trigger] r@[i]).ids@.len() == spec_display_sections()[i].len()
                &&& forall|j: int|
                    0 <= j < r@[i].ids@.len() ==> #[trigger] r@[i].ids@[j]@
                        == spec_display_sections()[i][j]
            },
{
    let s = vec![
        DisplaySection {
            title: "Clears",
            ids: vec![CLEAR_NORMAL, CLEAR_INSANE, CLEAR_RIDICULOUS, CLEAR_INSICULOUS],
        },
        DisplaySection {
            title: "Perfect Clears",
            ids: vec![PERFECT_NORMAL, PERFECT_INSANE, PERFECT_RIDICULOUS, PERFECT_INSICULOUS],
        },
        DisplaySection { title: "Skill", ids: vec![COMBO_VOLLEY, LAST_LIFE] },
    ];
    s
}

/// The achievements a won match unlocks: the mode's clear always, its
/// perfect clear when no life was lost, and the clutch clear on the last
/// life.
pub open spec fn spec_win_achievements(mode: ChaosMode, lives: u32) -> Seq<Seq<char>> {
    let clear = seq![spec_clear_id(mode)];
    let perfect = if lives == STARTING_LIVES {
        seq![spec_perfect_id(mode)]
    } else {
        Seq::empty()
    };
    let clutch = if lives == 1 {
        seq!["last_life"@]
    } else {
        Seq::empty()
    };
    clear + perfect + clutch
}

/// Ids to unlock when the last brick falls (`unlock_win_achievements`).
pub fn win_achievements(mode: ChaosMode, lives: u32) -> (r: Vec<&'static str>)
    ensures
        r@.len() == spec_win_achievements(mode, lives).len(),
        forall|i: int|
            0 <= i < r@.len() ==> #[trigger] r@[i]@ == spec_win_achievements(mode, lives)[i],
{
    let mut ids: Vec<&'static str> = Vec::new();
    ids.push(chaos_clear_id(mode));
    if lives == STARTING_LIVES {
        ids.push(chaos_perfect_id(mode));
    }
    if lives == 1 {
        ids.push(LAST_LIFE);
    }
    ids
}

/// No two registered achievements share an id.
pub proof fn law_registered_ids_distinct(i: int, j: int)
    requires
        0 <= i < j < spec_registered_ids().len(),
    ensures
        spec_registered_ids()[i] != spec_registered_ids()[j],
{
    reveal_strlit("clear_normal");
    reveal_strlit("clear_insane");
    reveal_strlit("clear_ridiculous");
    reveal_strlit("clear_insiculous");
    reveal_strlit("perfect_normal");
    reveal_strlit("perfect_insane");
    reveal_strlit("perfect_ridiculous");
    reveal_strlit("perfect_insiculous");
    reveal_strlit("combo_volley");
    reveal_strlit("last_life");
    if i == 0 && j == 1 {
        assert(spec_registered_ids()[0][6] != spec_registered_ids()[1][6]);
    } else if i == 0 && j == 2 {
        assert(spec_registered_ids()[0].len() != spec_registered_ids()[2].len());
    } else if i == 0 && j == 3 {
        assert(spec_registered_ids()[0].len() != spec_registered_ids()[3].len());
    } else if i == 0 && j == 4 {
        assert(spec_registered_ids()[0].len() != spec_registered_ids()[4].len());
    } else if i == 0 && j == 5 {
        assert(spec_registered_ids()[0].len() != spec_registered_ids()[5].len());
    } else if i == 0 && j == 6 {
        assert(spec_registered_ids()[0].len() != spec_registered_ids()[6].len());
    } else if i == 0 && j == 7 {
        assert(spec_registered_ids()[0].len() != spec_registered_ids()[7].len());
    } else if i == 0 && j == 8 {
        assert(spec_registered_ids()[0][1] != spec_registered_ids()[8][1]);
    } else if i == 0 && j == 9 {
        assert(spec_registered_ids()[0].len() != spec_registered_ids()[9].len());
    } else if i == 1 && j == 2 {
        assert(spec_registered_ids()[1].len() != spec_registered_ids()[2].len());
    } else if i == 1 && j == 3 {
        assert(spec_registered_ids()[1].len() != spec_registered_ids()[3].len());
    } else if i == 1 && j == 4 {
        assert(spec_registered_ids()[1].len() != spec_registered_ids()[4].len());
    } else if i == 1 && j == 5 {
        assert(spec_registered_ids()[1].len() != spec_registered_ids()[5].len());
    } else if i == 1 && j == 6 {
        assert(spec_registered_ids()[1].len() != spec_registered_ids()[6].len());
    } else if i == 1 && j == 7 {
        assert(spec_registered_ids()[1].len() != spec_registered_ids()[7].len());
    } else if i == 1 && j == 8 {
        assert(spec_registered_ids()[1][1] != spec_registered_ids()[8][1]);
    } else if i == 1 && j == 9 {
        assert(spec_registered_ids()[1].len() != spec_registered_ids()[9].len());
    } else if i == 2 && j == 3 {
        assert(spec_registered_ids()[2][6] != spec_registered_ids()[3][6]);
    } else if i == 2 && j == 4 {
        assert(spec_registered_ids()[2].len() != spec_registered_ids()[4].len());
    } else if i == 2 && j == 5 {
        assert(spec_registered_ids()[2].len() != spec_registered_ids()[5].len());
    } else if i == 2 && j == 6 {
        assert(spec_registered_ids()[2].len() != spec_registered_ids()[6].len());
    } else if i == 2 && j == 7 {
        assert(spec_registered_ids()[2].len() != spec_registered_ids()[7].len());
    } else if i == 2 && j == 8 {
        assert(spec_registered_ids()[2].len() != spec_registered_ids()[8].len());
    } else if i == 2 && j == 9 {
        assert(spec_registered_ids()[2].len() != spec_registered_ids()[9].len());
    } else if i == 3 && j == 4 {
        assert(spec_registered_ids()[3].len() != spec_registered_ids()[4].len());
    } else if i == 3 && j == 5 {
        assert(spec_registered_ids()[3].len() != spec_registered_ids()[5].len());
    } else if i == 3 && j == 6 {
        assert(spec_registered_ids()[3].len() != spec_registered_ids()[6].len());
    } else if i == 3 && j == 7 {
        assert(spec_registered_ids()[3].len() != spec_registered_ids()[7].len());
    } else if i == 3 && j == 8 {
        assert(spec_registered_ids()[3].len() != spec_registered_ids()[8].len());
    } else if i == 3 && j == 9 {
        assert(spec_registered_ids()[3].len() != spec_registered_ids()[9].len());
    } else if i == 4 && j == 5 {
        assert(spec_registered_ids()[4][8] != spec_registered_ids()[5][8]);
    } else if i == 4 && j == 6 {
        assert(spec_registered_ids()[4].len() != spec_registered_ids()[6].len());
    } else if i == 4 && j == 7 {
        assert(spec_registered_ids()[4].len() != spec_registered_ids()[7].len());
    } else if i == 4 && j == 8 {
        assert(spec_registered_ids()[4].len() != spec_registered_ids()[8].len());
    } else if i == 4 && j == 9 {
        assert(spec_registered_ids()[4].len() != spec_registered_ids()[9].len());
    } else if i == 5 && j == 6 {
        assert(spec_registered_ids()[5].len() != spec_registered_ids()[6].len());
    } else if i == 5 && j == 7 {
        assert(spec_registered_ids()[5].len() != spec_registered_ids()[7].len());
    } else if i == 5 && j == 8 {
        assert(spec_registered_ids()[5].len() != spec_registered_ids()[8].len());
    } else if i == 5 && j == 9 {
        assert(spec_registered_ids()[5].len() != spec_registered_ids()[9].len());
    } else if i == 6 && j == 7 {
        assert(spec_registered_ids()[6][8] != spec_registered_ids()[7][8]);
    } else if i == 6 && j == 8 {
        assert(spec_registered_ids()[6].len() != spec_registered_ids()[8].len());
    } else if i == 6 && j == 9 {
        assert(spec_registered_ids()[6].len() != spec_registered_ids()[9].len());
    } else if i == 7 && j == 8 {
        assert(spec_registered_ids()[7].len() != spec_registered_ids()[8].len());
    } else if i == 7 && j == 9 {
        assert(spec_registered_ids()[7].len() != spec_registered_ids()[9].len());
    } else if i == 8 && j == 9 {
        assert(spec_registered_ids()[8].len() != spec_registered_ids()[9].len());
    }
}

/// The achievements page lists every registered achievement exactly once,
/// in registration order, and nothing else.
pub proof fn law_display_sections_cover_registered_ids()
    ensures
        spec_display_sections()[0] + spec_display_sections()[1] + spec_display_sections()[2]
            == spec_registered_ids(),
        spec_display_sections().len() == 3,
{
    assert(spec_display_sections()[0] + spec_display_sections()[1] + spec_display_sections()[2]
        =~= spec_registered_ids());
}

/// Every id a match can unlock is a registered achievement.
pub proof fn law_unlockable_ids_are_registered(mode: ChaosMode, lives: u32, k: int)
    requires
        0 <= k < spec_win_achievements(mode, lives).len(),
    ensures
        spec_registered_ids().contains(spec_win_achievements(mode, lives)[k]),
        spec_registered_ids().contains("combo_volley"@),
{
    let ids = spec_registered_ids();
    assert(ids[8] == "combo_volley"@);
    assert(ids[9] == "last_life"@);
    let w = spec_win_achievements(mode, lives);
    match mode {
        ChaosMode::Normal => {
            assert(ids[0] == spec_clear_id(mode));
            assert(ids[4] == spec_perfect_id(mode));
        },
        ChaosMode::Insane => {
            assert(ids[1] == spec_clear_id(mode));
            assert(ids[5] == spec_perfect_id(mode));
        },
        ChaosMode::Ridiculous => {
            assert(ids[2] == spec_clear_id(mode));
            assert(ids[6] == spec_perfect_id(mode));
        },
        ChaosMode::Insiculous => {
            assert(ids[3] == spec_clear_id(mode));
            assert(ids[7] == spec_perfect_id(mode));
        },
    }
}

/// A won match always unlocks its mode's clear; the perfect clear exactly
/// when no life was lost; the clutch clear exactly on the last life.
pub proof fn law_win_unlocks(mode: ChaosMode, lives: u32)
    ensures
        spec_win_achievements(mode, lives).contains(spec_clear_id(mode)),
        spec_win_achievements(mode, lives).contains(spec_perfect_id(mode)) <==> lives
            == STARTING_LIVES,
        spec_win_achievements(mode, lives).contains("last_life"@) <==> lives == 1,
{
    reveal_strlit("clear_normal");
    reveal_strlit("clear_insane");
    reveal_strlit("clear_ridiculous");
    reveal_strlit("clear_insiculous");
    reveal_strlit("perfect_normal");
    reveal_strlit("perfect_insane");
    reveal_strlit("perfect_ridiculous");
    reveal_strlit("perfect_insiculous");
    reveal_strlit("last_life");
    let w = spec_win_achievements(mode, lives);
    let c = spec_clear_id(mode);
    let p = spec_perfect_id(mode);
    let l = "last_life"@;
    assert(w[0] == c);
    assert(c[0] == 'c' && p[0] == 'p' && l[0] == 'l');
    assert(c != p && c != l && p != l);
    if lives == STARTING_LIVES {
        assert(w[1] == p);
    }
    if lives == 1 {
        assert(w[w.len() - 1] == l);
    }
    assert forall|k: int| 0 <= k < w.len() && w[k] == p implies lives == STARTING_LIVES by {
        if lives != STARTING_LIVES {
            assert(w =~= seq![c] + (if lives == 1 {
                seq![l]
            } else {
                Seq::<Seq<char>>::empty()
            }));
        }
    }
    assert forall|k: int| 0 <= k < w.len() && w[k] == l implies lives == 1 by {
        if lives != 1 {
            assert(w =~= seq![c] + (if lives == STARTING_LIVES {
                seq![p]
            } else {
                Seq::<Seq<char>>::empty()
            }));
        }
    }
}

/// The lower-case word of a chaos mode in achievement ids.
pub open spec fn mode_id_word(mode: ChaosMode) -> Seq<char> {
    match mode {
        ChaosMode::Normal => "normal"@,
        ChaosMode::Insane => "insane"@,
        ChaosMode::Ridiculous => "ridiculous"@,
        ChaosMode::Insiculous => "insiculous"@,
    }
}

/// The capitalised name of a chaos mode in achievement descriptions.
pub open spec fn mode_title_word(mode: ChaosMode) -> Seq<char> {
    match mode {
        ChaosMode::Normal => "Normal"@,
        ChaosMode::Insane => "Insane"@,
        ChaosMode::Ridiculous => "Ridiculous"@,
        ChaosMode::Insiculous => "Insiculous"@,
    }
}

/// The per-mode achievements follow the canonical mode order and name
/// their own mode: the `k`-th mode's clear is the `k`-th registered
/// achievement and its perfect clear the `(k + 4)`-th; their ids are
/// `clear_` and `perfect_` followed by the mode's word, and their
/// descriptions speak of the same mode (its word, capitalised).
pub proof fn law_mode_achievements_name_their_mode(k: int)
    requires
        0 <= k < spec_all_chaos_modes().len(),
    ensures
        ({
            let m = spec_all_chaos_modes()[k];
            let descs = spec_achievement_descriptions();
            &&& spec_registered_ids()[k] == spec_clear_id(m)
            &&& spec_registered_ids()[k + 4] == spec_perfect_id(m)
            &&& spec_clear_id(m) == "clear_"@ + mode_id_word(m)
            &&& spec_perfect_id(m) == "perfect_"@ + mode_id_word(m)
            &&& descs[k] == "Clear every brick in "@ + mode_title_word(m) + " mode."@
            &&& descs[k + 4] == "Clear "@ + mode_title_word(m) + " mode without losing a ball."@
            &&& mode_title_word(m).len() == mode_id_word(m).len()
            &&& mode_title_word(m).subrange(1, mode_title_word(m).len() as int) == mode_id_word(
                m,
            ).subrange(1, mode_id_word(m).len() as int)
        }),
{
    reveal_strlit("clear_normal");
    reveal_strlit("perfect_normal");
    reveal_strlit("normal");
    reveal_strlit("Normal");
    reveal_strlit("Clear every brick in Normal mode.");
    reveal_strlit("Clear Normal mode without losing a ball.");
    reveal_strlit("clear_insane");
    reveal_strlit("perfect_insane");
    reveal_strlit("insane");
    reveal_strlit("Insane");
    reveal_strlit("Clear every brick in Insane mode.");
    reveal_strlit("Clear Insane mode without losing a ball.");
    reveal_strlit("clear_ridiculous");
    reveal_strlit("perfect_ridiculous");
    reveal_strlit("ridiculous");
    reveal_strlit("Ridiculous");
    reveal_strlit("Clear every brick in Ridiculous mode.");
    reveal_strlit("Clear Ridiculous mode without losing a ball.");
    reveal_strlit("clear_insiculous");
    reveal_strlit("perfect_insiculous");
    reveal_strlit("insiculous");
    reveal_strlit("Insiculous");
    reveal_strlit("Clear every brick in Insiculous mode.");
    reveal_strlit("Clear Insiculous mode without losing a ball.");
    reveal_strlit("clear_");
    reveal_strlit("perfect_");
    reveal_strlit("Clear every brick in ");
    reveal_strlit(" mode.");
    reveal_strlit("Clear ");
    reveal_strlit(" mode without losing a ball.");
    let m = spec_all_chaos_modes()[k];
    let descs = spec_achievement_descriptions();
    if k == 0 {
        assert(spec_clear_id(m) =~= "clear_"@ + mode_id_word(m));
        assert(spec_perfect_id(m) =~= "perfect_"@ + mode_id_word(m));
        assert(descs[k] =~= "Clear every brick in "@ + mode_title_word(m) + " mode."@);
        assert(descs[k + 4] =~= "Clear "@ + mode_title_word(m) + " mode without losing a ball."@);
        assert(mode_title_word(m).subrange(1, mode_title_word(m).len() as int) =~= mode_id_word(m).subrange(1, mode_id_word(m).len() as int));
    } else if k == 1 {
        assert(spec_clear_id(m) =~= "clear_"@ + mode_id_word(m));
        assert(spec_perfect_id(m) =~= "perfect_"@ + mode_id_word(m));
        assert(descs[k] =~= "Clear every brick in "@ + mode_title_word(m) + " mode."@);
        assert(descs[k + 4] =~= "Clear "@ + mode_title_word(m) + " mode without losing a ball."@);
        assert(mode_title_word(m).subrange(1, mode_title_word(m).len() as int) =~= mode_id_word(m).subrange(1, mode_id_word(m).len() as int));
    } else if k == 2 {
        assert(spec_clear_id(m) =~= "clear_"@ + mode_id_word(m));
        assert(spec_perfect_id(m) =~= "perfect_"@ + mode_id_word(m));
        assert(descs[k] =~= "Clear every brick in "@ + mode_title_word(m) + " mode."@);
        assert(descs[k + 4] =~= "Clear "@ + mode_title_word(m) + " mode without losing a ball."@);
        assert(mode_title_word(m).subrange(1, mode_title_word(m).len() as int) =~= mode_id_word(m).subrange(1, mode_id_word(m).len() as int));
    } else if k == 3 {
        assert(spec_clear_id(m) =~= "clear_"@ + mode_id_word(m));
        assert(spec_perfect_id(m) =~= "perfect_"@ + mode_id_word(m));
        assert(descs[k] =~= "Clear every brick in "@ + mode_title_word(m) + " mode."@);
        assert(descs[k + 4] =~= "Clear "@ + mode_title_word(m) + " mode without losing a ball."@);
        assert(mode_title_word(m).subrange(1, mode_title_word(m).len() as int) =~= mode_id_word(m).subrange(1, mode_id_word(m).len() as int));
    }
}

} // verus!
