//! Level rosters and the naming/tag grammars of the level scenes.
//!
//! Bricks in a level scene are named `brick_r{row}_c{col}`; the row drives
//! the payout. A brick's tag is a `+`-joined token list: `armored{N}` (N
//! total hits, 2..=9) and `drop_multiball` / `drop_wrecking` /
//! `drop_insiculous` (the pickup it drops). Unknown or malformed tokens are
//! skipped; for duplicates the last one wins.

use vstd::prelude::*;
use vstd::string::StrSliceExecFns;
use crate::bricks::Brick;
use crate::constants::{BRICK_ROWS, BRICK_VALUE_STEP, MAX_ARMOR_HITS, MIN_ARMOR_HITS};
use crate::spawning::{brick_value, spec_brick_value};
use crate::text::{
    all_digits, bounded_number, chars_of, digit_run_end, digits_to_usize, digits_value, has_prefix,
    is_ws, leading_digit_count, lemma_leading_digits_are_digits, lemma_split_on_nonempty, range_equals, range_has_prefix, split_on, trim,
    trim_bounds, trim_end, trim_start, digit_value, is_digit,
};
use crate::types::{ChaosMode, GameMode, PickupKind, spec_all_chaos_modes};

verus! {

broadcast use vstd::string::group_string_axioms;

// ----------------------------------------------------------------------
// Brick names
// ----------------------------------------------------------------------

/// The row a `brick_r{row}_c{col}` name gives: the digits right after
/// `brick_r`, if there are any and they fit in a `usize`.
pub open spec fn spec_brick_row_from_name(name: Seq<char>) -> Option<int> {
    let p = "brick_r"@;
    if !has_prefix(name, p) {
        None
    } else {
        let rest = name.subrange(p.len() as int, name.len() as int);
        let k = leading_digit_count(rest);
        if k == 0 {
            None
        } else {
            let v = digits_value(rest.subrange(0, k as int));
            if v <= usize::MAX {
                Some(v)
            } else {
                None
            }
        }
    }
}

/// Extract the row index from a `brick_r{row}_c{col}` entity name.
pub fn brick_row_from_name(name: &str) -> (r: Option<usize>)
    ensures
        match r {
            Some(v) => spec_brick_row_from_name(name@) == Some(v as int),
            None => spec_brick_row_from_name(name@) is None,
        },
{
    let chars = chars_of(name);
    let prefix = chars_of("brick_r");
    let n = chars.len();
    assert(chars@.subrange(0, n as int) =~= chars@);
    if !range_has_prefix(&chars, 0, n, &prefix) {
        return None;
    }
    let lo = prefix.len();
    let end = digit_run_end(&chars, lo, n);
    if end == lo {
        return None;
    }
    let ghost rest = chars@.subrange(lo as int, n as int);
    assert(rest.subrange(0, end - lo) =~= chars@.subrange(lo as int, end as int));
    digits_to_usize(&chars, lo, end)
}

/// Score paid by a brick with the given name: its row's value when the row
/// is on the grid, the minimum payout otherwise.
pub open spec fn spec_brick_value_from_name(name: Seq<char>) -> int {
    match spec_brick_row_from_name(name) {
        Some(row) => if row < BRICK_ROWS {
            spec_brick_value(row)
        } else {
            BRICK_VALUE_STEP as int
        },
        None => BRICK_VALUE_STEP as int,
    }
}

/// Score paid out by a brick with the given entity name. Bricks whose name
/// doesn't yield an in-range row still score the minimum payout, so renamed
/// bricks degrade gracefully instead of breaking the game.
pub fn brick_value_from_name(name: &str) -> (r: u32)
    ensures
        r == spec_brick_value_from_name(name@),
{
    match brick_row_from_name(name) {
        Some(row) => if row < BRICK_ROWS {
            brick_value(row)
        } else {
            BRICK_VALUE_STEP
        },
        None => BRICK_VALUE_STEP,
    }
}

// ----------------------------------------------------------------------
// Brick tags
// ----------------------------------------------------------------------

/// What a brick's tag says about it.
#[derive(Debug, Clone, Copy, PartialEq, Eq, Structural)]
pub struct BrickSpec {
    /// Hits needed to destroy it (1 = plain brick).
    pub hits: u32,
    /// Pickup dropped when destroyed, if any.
    pub drop: Option<PickupKind>,
}

/// Untagged bricks: one hit, no drop.
pub open spec fn spec_default_brick_spec() -> BrickSpec {
    BrickSpec { hits: 1, drop: None }
}

impl Default for BrickSpec {
    fn default() -> (r: Self)
        ensures
            r == spec_default_brick_spec(),
    {
        BrickSpec { hits: 1, drop: None }
    }
}

/// The effect of one (already trimmed) tag token.
pub open spec fn apply_brick_token(spec: BrickSpec, t: Seq<char>) -> BrickSpec {
    if t.len() == 0 {
        spec
    } else if has_prefix(t, "armored"@) {
        let n = t.subrange("armored"@.len() as int, t.len() as int);
        if n.len() > 0 && all_digits(n) && MIN_ARMOR_HITS <= digits_value(n) <= MAX_ARMOR_HITS {
            BrickSpec { hits: digits_value(n) as u32, drop: spec.drop }
        } else {
            spec
        }
    } else if t == "drop_multiball"@ {
        BrickSpec { hits: spec.hits, drop: Some(PickupKind::Multiball) }
    } else if t == "drop_wrecking"@ {
        BrickSpec { hits: spec.hits, drop: Some(PickupKind::Wrecking) }
    } else if t == "drop_insiculous"@ {
        BrickSpec { hits: spec.hits, drop: Some(PickupKind::Insiculous) }
    } else {
        spec
    }
}

/// Apply trimmed tokens left to right.
pub open spec fn fold_brick_tokens(spec: BrickSpec, ts: Seq<Seq<char>>) -> BrickSpec
    decreases ts.len(),
{
    if ts.len() == 0 {
        spec
    } else {
        apply_brick_token(fold_brick_tokens(spec, ts.drop_last()), trim(ts.last()))
    }
}

/// A whole tag: its `+`-separated tokens, each trimmed, applied in order to
/// the plain-brick default.
pub open spec fn spec_parse_brick_tag(tag: Seq<char>) -> BrickSpec {
    fold_brick_tokens(spec_default_brick_spec(), split_on(tag, '+'))
}

/// The literal words of the tag grammar.
struct TagWords {
    armored: Vec<char>,
    multiball: Vec<char>,
    wrecking: Vec<char>,
    insiculous: Vec<char>,
}

impl TagWords {
    spec fn wf(&self) -> bool {
        &&& self.armored@ == "armored"@
        &&& self.multiball@ == "drop_multiball"@
        &&& self.wrecking@ == "drop_wrecking"@
        &&& self.insiculous@ == "drop_insiculous"@
    }

    fn new() -> (r: TagWords)
        ensures
            r.wf(),
    {
        TagWords {
            armored: chars_of("armored"),
            multiball: chars_of("drop_multiball"),
            wrecking: chars_of("drop_wrecking"),
            insiculous: chars_of("drop_insiculous"),
        }
    }
}

/// Apply the token `trim(chars[lo..hi])` to `spec`.
fn apply_token_range(chars: &Vec<char>, lo: usize, hi: usize, spec: BrickSpec, words: &TagWords) -> (r:
    BrickSpec)
    requires
        lo <= hi <= chars@.len(),
        words.wf(),
    ensures
        r == apply_brick_token(spec, trim(chars@.subrange(lo as int, hi as int))),
{
    let (a, b) = trim_bounds(chars, lo, hi);
    let ghost t = chars@.subrange(a as int, b as int);
    if a == b {
        return spec;
    }
    if range_has_prefix(chars, a, b, &words.armored) {
        let na = a + words.armored.len();
        assert(t.subrange(words.armored@.len() as int, t.len() as int) =~= chars@.subrange(
            na as int,
            b as int,
        ));
        match bounded_number(chars, na, b, MAX_ARMOR_HITS) {
            Some(hits) => {
                if hits >= MIN_ARMOR_HITS {
                    BrickSpec { hits, drop: spec.drop }
                } else {
                    spec
                }
            },
            None => spec,
        }
    } else if range_equals(chars, a, b, &words.multiball) {
        BrickSpec { hits: spec.hits, drop: Some(PickupKind::Multiball) }
    } else if range_equals(chars, a, b, &words.wrecking) {
        BrickSpec { hits: spec.hits, drop: Some(PickupKind::Wrecking) }
    } else if range_equals(chars, a, b, &words.insiculous) {
        BrickSpec { hits: spec.hits, drop: Some(PickupKind::Insiculous) }
    } else {
        spec
    }
}

/// Parse a brick's tag string: tokens joined by `+`.
///
/// - `armored{N}`: N total hits to destroy (2..=9)
/// - `drop_multiball` / `drop_wrecking` / `drop_insiculous`: pickup dropped
///
/// Unknown or malformed tokens are skipped; duplicates: last wins.
pub fn parse_brick_tag(tag: &str) -> (r: BrickSpec)
    ensures
        r == spec_parse_brick_tag(tag@),
{
    let chars = chars_of(tag);
    let words = TagWords::new();
    let n = chars.len();
    let mut spec = BrickSpec::default();
    let mut start: usize = 0;
    let mut i: usize = 0;
    assert(chars@.subrange(0, 0) =~= Seq::<char>::empty());
    while i < n
        invariant
            n == chars@.len(),
            words.wf(),
            0 <= start <= i <= n,
            split_on(chars@.subrange(0, i as int), '+').len() >= 1,
            spec == fold_brick_tokens(
                spec_default_brick_spec(),
                split_on(chars@.subrange(0, i as int), '+').drop_last(),
            ),
            split_on(chars@.subrange(0, i as int), '+').last() == chars@.subrange(
                start as int,
                i as int,
            ),
        decreases n - i,
    {
        let ghost prev = split_on(chars@.subrange(0, i as int), '+');
        let ghost pre = chars@.subrange(0, i + 1);
        assert(pre.drop_last() =~= chars@.subrange(0, i as int));
        assert(pre.last() == chars@[i as int]);
        if chars[i] == '+' {
            let ghost next = split_on(pre, '+');
            assert(next == prev.push(Seq::<char>::empty()));
            assert(next.drop_last() =~= prev);
            spec = apply_token_range(&chars, start, i, spec, &words);
            start = i + 1;
            assert(chars@.subrange(start as int, i + 1) =~= Seq::<char>::empty());
        } else {
            let ghost next = split_on(pre, '+');
            assert(next == prev.update(prev.len() - 1, prev.last().push(chars@[i as int])));
            assert(next.drop_last() =~= prev.drop_last());
            assert(next.last() =~= chars@.subrange(start as int, i + 1));
        }
        i = i + 1;
    }
    assert(chars@.subrange(0, n as int) =~= chars@);
    apply_token_range(&chars, start, n, spec, &words)
}

/// A tag token that `parse_brick_tag` skips, worth a warning.
#[derive(Debug, Clone, PartialEq, Eq)]
pub enum TagIssue {
    /// An `armored` token whose hit count is not a number from 2 to 9.
    MalformedArmor(String),
    /// A token that is neither armor nor a known drop.
    UnknownToken(String),
}

/// A skipped token as plain values.
pub enum TagIssueView {
    MalformedArmor(Seq<char>),
    UnknownToken(Seq<char>),
}

impl View for TagIssue {
    type V = TagIssueView;

    open spec fn view(&self) -> TagIssueView {
        match self {
            TagIssue::MalformedArmor(t) => TagIssueView::MalformedArmor(t@),
            TagIssue::UnknownToken(t) => TagIssueView::UnknownToken(t@),
        }
    }
}

/// Why a (trimmed) token is skipped, if it is: empty tokens are silently
/// ignored, recognized ones are applied.
pub open spec fn spec_token_issue(t: Seq<char>) -> Option<TagIssueView> {
    if t.len() == 0 {
        None
    } else if has_prefix(t, "armored"@) {
        let n = t.subrange("armored"@.len() as int, t.len() as int);
        if n.len() > 0 && all_digits(n) && MIN_ARMOR_HITS <= digits_value(n) <= MAX_ARMOR_HITS {
            None
        } else {
            Some(TagIssueView::MalformedArmor(t))
        }
    } else if t == "drop_multiball"@ || t == "drop_wrecking"@ || t == "drop_insiculous"@ {
        None
    } else {
        Some(TagIssueView::UnknownToken(t))
    }
}

/// The skipped tokens among trimmed tokens, in order.
pub open spec fn issues_of_tokens(ts: Seq<Seq<char>>) -> Seq<TagIssueView>
    decreases ts.len(),
{
    if ts.len() == 0 {
        Seq::empty()
    } else {
        let prev = issues_of_tokens(ts.drop_last());
        match spec_token_issue(trim(ts.last())) {
            Some(i) => prev.push(i),
            None => prev,
        }
    }
}

/// The tokens of a tag that `parse_brick_tag` skips, in order.
pub open spec fn spec_tag_issues(tag: Seq<char>) -> Seq<TagIssueView> {
    issues_of_tokens(split_on(tag, '+'))
}

/// The issue of the token `trim(tag[lo..hi])`, if any.
fn token_issue_range(tag: &str, chars: &Vec<char>, lo: usize, hi: usize, words: &TagWords) -> (r:
    Option<TagIssue>)
    requires
        lo <= hi <= chars@.len(),
        chars@ == tag@,
        words.wf(),
    ensures
        match r {
            Some(i) => spec_token_issue(trim(chars@.subrange(lo as int, hi as int))) == Some(i@),
            None => spec_token_issue(trim(chars@.subrange(lo as int, hi as int))) is None,
        },
{
    let (a, b) = trim_bounds(chars, lo, hi);
    let ghost t = chars@.subrange(a as int, b as int);
    if a == b {
        return None;
    }
    if range_has_prefix(chars, a, b, &words.armored) {
        let na = a + words.armored.len();
        assert(t.subrange(words.armored@.len() as int, t.len() as int) =~= chars@.subrange(
            na as int,
            b as int,
        ));
        match bounded_number(chars, na, b, MAX_ARMOR_HITS) {
            Some(hits) => {
                if hits >= MIN_ARMOR_HITS {
                    return None;
                }
            },
            None => {},
        }
        let text = tag.substring_char(a, b).to_owned();
        Some(TagIssue::MalformedArmor(text))
    } else if range_equals(chars, a, b, &words.multiball) || range_equals(chars, a, b, &words.wrecking)
        || range_equals(chars, a, b, &words.insiculous) {
        None
    } else {
        let text = tag.substring_char(a, b).to_owned();
        Some(TagIssue::UnknownToken(text))
    }
}

/// The tokens of a brick tag that `parse_brick_tag` skips (malformed armor
/// or unknown words), in order, so they can be reported.
pub fn brick_tag_issues(tag: &str) -> (r: Vec<TagIssue>)
    ensures
        r@.len() == spec_tag_issues(tag@).len(),
        forall|k: int| 0 <= k < r@.len() ==> #[trigger] r@[k]@ == spec_tag_issues(tag@)[k],
{
    let chars = chars_of(tag);
    let words = TagWords::new();
    let n = chars.len();
    let mut issues: Vec<TagIssue> = Vec::new();
    let mut start: usize = 0;
    let mut i: usize = 0;
    assert(chars@.subrange(0, 0) =~= Seq::<char>::empty());
    while i < n
        invariant
            n == chars@.len(),
            chars@ == tag@,
            words.wf(),
            0 <= start <= i <= n,
            split_on(chars@.subrange(0, i as int), '+').len() >= 1,
            issues@.len() == issues_of_tokens(
                split_on(chars@.subrange(0, i as int), '+').drop_last(),
            ).len(),
            forall|k: int|
                0 <= k < issues@.len() ==> #[trigger] issues@[k]@ == issues_of_tokens(
                    split_on(chars@.subrange(0, i as int), '+').drop_last(),
                )[k],
            split_on(chars@.subrange(0, i as int), '+').last() == chars@.subrange(
                start as int,
                i as int,
            ),
        decreases n - i,
    {
        let ghost prev = split_on(chars@.subrange(0, i as int), '+');
        let ghost pre = chars@.subrange(0, i + 1);
        assert(pre.drop_last() =~= chars@.subrange(0, i as int));
        assert(pre.last() == chars@[i as int]);
        if chars[i] == '+' {
            let ghost next = split_on(pre, '+');
            assert(next == prev.push(Seq::<char>::empty()));
            assert(next.drop_last() =~= prev);
            let ghost before = issues_of_tokens(prev.drop_last());
            match token_issue_range(tag, &chars, start, i, &words) {
                Some(issue) => {
                    issues.push(issue);
                },
                None => {},
            }
            assert(issues_of_tokens(prev) == match spec_token_issue(trim(prev.last())) {
                Some(x) => before.push(x),
                None => before,
            });
            start = i + 1;
            assert(chars@.subrange(start as int, i + 1) =~= Seq::<char>::empty());
        } else {
            let ghost next = split_on(pre, '+');
            assert(next == prev.update(prev.len() - 1, prev.last().push(chars@[i as int])));
            assert(next.drop_last() =~= prev.drop_last());
            assert(next.last() =~= chars@.subrange(start as int, i + 1));
        }
        i = i + 1;
    }
    assert(chars@.subrange(0, n as int) =~= chars@);
    let ghost all = split_on(chars@, '+');
    let ghost before = issues_of_tokens(all.drop_last());
    match token_issue_range(tag, &chars, start, n, &words) {
        Some(issue) => {
            issues.push(issue);
        },
        None => {},
    }
    issues
}

// ----------------------------------------------------------------------
// Level rosters
// ----------------------------------------------------------------------

/// A selectable level: display name, scene file, and the chaos mode it
/// plays in.
#[derive(Debug, Clone, Copy)]
pub struct LevelDef {
    pub title: &'static str,
    pub scene_file: &'static str,
    pub mode: ChaosMode,
}

/// A level's description as plain values.
pub struct LevelDefView {
    pub title: Seq<char>,
    pub scene_file: Seq<char>,
    pub mode: ChaosMode,
}

impl View for LevelDef {
    type V = LevelDefView;

    open spec fn view(&self) -> LevelDefView {
        LevelDefView { title: self.title@, scene_file: self.scene_file@, mode: self.mode }
    }
}

pub open spec fn level_view(title: &str, scene_file: &str, mode: ChaosMode) -> LevelDefView {
    LevelDefView { title: title@, scene_file: scene_file@, mode }
}

/// The solo roster (one level per chaos mode) and the co-op roster
/// (layouts for the middle band between the two paddles).
pub open spec fn spec_roster(mode: GameMode) -> Seq<LevelDefView> {
    match mode {
        GameMode::SinglePlayer => seq![
            level_view("CLASSIC", "level1.scene.ron", ChaosMode::Normal),
            level_view("THE VAULT", "level2.scene.ron", ChaosMode::Insane),
            level_view("PINATA", "level3.scene.ron", ChaosMode::Ridiculous),
            level_view("THE GAUNTLET", "level4.scene.ron", ChaosMode::Insiculous),
        ],
        GameMode::TwoPlayerCoop => seq![
            level_view("CLASSIC DUO", "level1_2p.scene.ron", ChaosMode::Normal),
            level_view("THE VAULT DUO", "level2_2p.scene.ron", ChaosMode::Insane),
            level_view("PINATA DUO", "level3_2p.scene.ron", ChaosMode::Ridiculous),
            level_view("GAUNTLET DUO", "level4_2p.scene.ron", ChaosMode::Insiculous),
        ],
    }
}

/// The level roster for a game mode.
pub fn roster(mode: GameMode) -> (r: Vec<LevelDef>)
    ensures
        r@.len() == spec_roster(mode).len(),
        forall|i: int| 0 <= i < r@.len() ==> #[trigger] r@[i]@ == spec_roster(mode)[i],
{
    match mode {
        GameMode::SinglePlayer => vec![
            LevelDef { title: "CLASSIC", scene_file: "level1.scene.ron", mode: ChaosMode::Normal },
            LevelDef { title: "THE VAULT", scene_file: "level2.scene.ron", mode: ChaosMode::Insane },
            LevelDef { title: "PINATA", scene_file: "level3.scene.ron", mode: ChaosMode::Ridiculous },
            LevelDef {
                title: "THE GAUNTLET",
                scene_file: "level4.scene.ron",
                mode: ChaosMode::Insiculous,
            },
        ],
        GameMode::TwoPlayerCoop => vec![
            LevelDef {
                title: "CLASSIC DUO",
                scene_file: "level1_2p.scene.ron",
                mode: ChaosMode::Normal,
            },
            LevelDef {
                title: "THE VAULT DUO",
                scene_file: "level2_2p.scene.ron",
                mode: ChaosMode::Insane,
            },
            LevelDef {
                title: "PINATA DUO",
                scene_file: "level3_2p.scene.ron",
                mode: ChaosMode::Ridiculous,
            },
            LevelDef {
                title: "GAUNTLET DUO",
                scene_file: "level4_2p.scene.ron",
                mode: ChaosMode::Insiculous,
            },
        ],
    }
}

/// The chaos mode of level `index` in a roster.
pub fn level_mode(mode: GameMode, index: usize) -> (r: Option<ChaosMode>)
    ensures
        match r {
            Some(m) => index < spec_roster(mode).len() && m == spec_roster(mode)[index as int].mode,
            None => index >= spec_roster(mode).len(),
        },
{
    let levels = roster(mode);
    if index < levels.len() {
        assert(levels@[index as int]@ == spec_roster(mode)[index as int]);
        Some(levels[index].mode)
    } else {
        None
    }
}

/// One-line flavor text per level, shown under the roster.
pub open spec fn spec_level_hint(mode: GameMode, index: usize) -> Seq<char> {
    match (mode, index) {
        (GameMode::SinglePlayer, 0) => "The classic wall. A gentle taste of armor."@,
        (GameMode::SinglePlayer, 1) => "A fortress of steel. Ball speeds up per paddle hit."@,
        (GameMode::SinglePlayer, 2) => "Crack it open - it rains power-ups. Two-ball serves."@,
        (GameMode::SinglePlayer, 3) => "Armor, chaos, and everything at once."@,
        (GameMode::TwoPlayerCoop, 0) => "The wall between you. Guard both edges."@,
        (GameMode::TwoPlayerCoop, 1) => "An armored core - and the ball keeps speeding up."@,
        (GameMode::TwoPlayerCoop, 2) => "A prize band ripe for the cracking. Two-ball serves."@,
        (GameMode::TwoPlayerCoop, 3) => "Everything at once, coming from both sides."@,
        _ => ""@,
    }
}

pub fn level_hint(mode: GameMode, index: usize) -> (r: &'static str)
    ensures
        r@ == spec_level_hint(mode, index),
{
    match (mode, index) {
        (GameMode::SinglePlayer, 0) => "The classic wall. A gentle taste of armor.",
        (GameMode::SinglePlayer, 1) => "A fortress of steel. Ball speeds up per paddle hit.",
        (GameMode::SinglePlayer, 2) => "Crack it open - it rains power-ups. Two-ball serves.",
        (GameMode::SinglePlayer, 3) => "Armor, chaos, and everything at once.",
        (GameMode::TwoPlayerCoop, 0) => "The wall between you. Guard both edges.",
        (GameMode::TwoPlayerCoop, 1) => "An armored core - and the ball keeps speeding up.",
        (GameMode::TwoPlayerCoop, 2) => "A prize band ripe for the cracking. Two-ball serves.",
        (GameMode::TwoPlayerCoop, 3) => "Everything at once, coming from both sides.",
        _ => "",
    }
}

// ----------------------------------------------------------------------
// Bricks of a level scene
// ----------------------------------------------------------------------

/// A named entity of an instantiated level scene: its name, its tag if it
/// has one, and what the renderer needs to find it again.
pub struct NamedEntity<P> {
    pub name: String,
    pub tag: Option<String>,
    pub payload: P,
}

/// The brick a named entity becomes: every entity named `brick*` is one,
/// with its name's payout and its tag's armor and drop.
pub open spec fn spec_brick_from_named<P>(e: NamedEntity<P>) -> Option<Brick<P>> {
    if has_prefix(e.name@, "brick"@) {
        let spec = match e.tag {
            Some(t) => spec_parse_brick_tag(t@),
            None => spec_default_brick_spec(),
        };
        Some(
            Brick {
                payload: e.payload,
                value: spec_brick_value_from_name(e.name@) as u32,
                hits_left: spec.hits,
                drop: spec.drop,
            },
        )
    } else {
        None
    }
}

/// The bricks of a list of named entities, in order.
pub open spec fn spec_bricks_from_names<P>(es: Seq<NamedEntity<P>>) -> Seq<Brick<P>>
    decreases es.len(),
{
    if es.len() == 0 {
        Seq::empty()
    } else {
        let prev = spec_bricks_from_names(es.drop_last());
        match spec_brick_from_named(es.last()) {
            Some(b) => prev.push(b),
            None => prev,
        }
    }
}

/// Build the brick bookkeeping from a scene instance's named entities:
/// every entity named `brick*` becomes a brick; armor and drop come from
/// its tag (see `parse_brick_tag`), its payout from its name.
pub fn bricks_from_names<P: Copy>(named_entities: &Vec<NamedEntity<P>>) -> (r: Vec<Brick<P>>)
    ensures
        r@ == spec_bricks_from_names(named_entities@),
{
    let word = chars_of("brick");
    let mut out: Vec<Brick<P>> = Vec::new();
    let mut i: usize = 0;
    while i < named_entities.len()
        invariant
            0 <= i <= named_entities@.len(),
            word@ == "brick"@,
            out@ == spec_bricks_from_names(named_entities@.subrange(0, i as int)),
        decreases named_entities@.len() - i,
    {
        let e = &named_entities[i];
        let ghost pre = named_entities@.subrange(0, i + 1);
        assert(pre.drop_last() =~= named_entities@.subrange(0, i as int));
        assert(pre.last() == *e);
        let name = chars_of(e.name.as_str());
        assert(name@.subrange(0, name@.len() as int) =~= name@);
        if range_has_prefix(&name, 0, name.len(), &word) {
            let spec = match &e.tag {
                Some(t) => parse_brick_tag(t.as_str()),
                None => BrickSpec::default(),
            };
            out.push(
                Brick {
                    payload: e.payload,
                    value: brick_value_from_name(e.name.as_str()),
                    hits_left: spec.hits,
                    drop: spec.drop,
                },
            );
        }
        i = i + 1;
    }
    assert(named_entities@.subrange(0, named_entities@.len() as int) =~= named_entities@);
    out
}

// ----------------------------------------------------------------------
// Laws of the tag grammar
// ----------------------------------------------------------------------

/// `later` laid over `earlier`: each field that `later`'s tokens set wins,
/// the others keep `earlier`'s value (no token sets one hit or takes a drop
/// away, so a default field in `later` means "not set").
pub open spec fn overlay_brick_spec(earlier: BrickSpec, later: BrickSpec) -> BrickSpec {
    BrickSpec {
        hits: if later.hits != 1 {
            later.hits
        } else {
            earlier.hits
        },
        drop: if later.drop is Some {
            later.drop
        } else {
            earlier.drop
        },
    }
}

proof fn lemma_split_on_concat(a: Seq<char>, b: Seq<char>, sep: char)
    ensures
        split_on(a.push(sep) + b, sep) == split_on(a, sep) + split_on(b, sep),
    decreases b.len(),
{
    let s = a.push(sep) + b;
    if b.len() == 0 {
        assert(s =~= a.push(sep));
        assert(a.push(sep).drop_last() =~= a);
        assert(split_on(a, sep).push(Seq::<char>::empty()) =~= split_on(a, sep) + split_on(b, sep));
    } else {
        assert(s.drop_last() =~= a.push(sep) + b.drop_last());
        assert(s.last() == b.last());
        lemma_split_on_concat(a, b.drop_last(), sep);
        lemma_split_on_nonempty(b.drop_last(), sep);
        lemma_split_on_nonempty(a, sep);
        let aa = split_on(a, sep);
        let bb = split_on(b.drop_last(), sep);
        if b.last() == sep {
            assert((aa + bb).push(Seq::<char>::empty()) =~= aa + bb.push(Seq::<char>::empty()));
        } else {
            assert((aa + bb).update((aa + bb).len() - 1, (aa + bb).last().push(b.last())) =~= aa
                + bb.update(bb.len() - 1, bb.last().push(b.last())));
        }
    }
}

proof fn lemma_fold_concat(x: BrickSpec, ta: Seq<Seq<char>>, tb: Seq<Seq<char>>)
    ensures
        fold_brick_tokens(x, ta + tb) == fold_brick_tokens(fold_brick_tokens(x, ta), tb),
    decreases tb.len(),
{
    if tb.len() == 0 {
        assert(ta + tb =~= ta);
    } else {
        assert((ta + tb).drop_last() =~= ta + tb.drop_last());
        assert((ta + tb).last() == tb.last());
        lemma_fold_concat(x, ta, tb.drop_last());
    }
}

proof fn lemma_fold_overlay(x: BrickSpec, ts: Seq<Seq<char>>)
    ensures
        fold_brick_tokens(x, ts) == overlay_brick_spec(
            x,
            fold_brick_tokens(spec_default_brick_spec(), ts),
        ),
    decreases ts.len(),
{
    if ts.len() > 0 {
        lemma_fold_overlay(x, ts.drop_last());
    }
}

/// Joining two tags with `+` lays the second over the first: token order
/// across kinds does not matter, and for a repeated kind the last wins.
pub proof fn law_tag_concat_overlays(a: Seq<char>, b: Seq<char>)
    ensures
        spec_parse_brick_tag(a.push('+') + b) == overlay_brick_spec(
            spec_parse_brick_tag(a),
            spec_parse_brick_tag(b),
        ),
{
    lemma_split_on_concat(a, b, '+');
    lemma_fold_concat(spec_default_brick_spec(), split_on(a, '+'), split_on(b, '+'));
    lemma_fold_overlay(spec_parse_brick_tag(a), split_on(b, '+'));
}

proof fn lemma_fold_hits_in_range(x: BrickSpec, ts: Seq<Seq<char>>)
    requires
        1 <= x.hits <= MAX_ARMOR_HITS,
    ensures
        1 <= fold_brick_tokens(x, ts).hits <= MAX_ARMOR_HITS,
    decreases ts.len(),
{
    if ts.len() > 0 {
        lemma_fold_hits_in_range(x, ts.drop_last());
    }
}

/// Every tag, however malformed, yields a brick that takes between one and
/// nine hits.
pub proof fn law_tag_hits_in_range(tag: Seq<char>)
    ensures
        1 <= spec_parse_brick_tag(tag).hits <= MAX_ARMOR_HITS,
{
    lemma_fold_hits_in_range(spec_default_brick_spec(), split_on(tag, '+'));
}

proof fn lemma_split_without_sep(s: Seq<char>, sep: char)
    requires
        forall|i: int| 0 <= i < s.len() ==> s[i] != sep,
    ensures
        split_on(s, sep) == seq![s],
    decreases s.len(),
{
    if s.len() > 0 {
        lemma_split_without_sep(s.drop_last(), sep);
        assert(s.drop_last().push(s.last()) =~= s);
        assert(seq![s.drop_last()].update(0, s.drop_last().push(s.last())) =~= seq![s]);
    } else {
        assert(s =~= Seq::<char>::empty());
    }
}

/// A tag made of one token with no `+` and no surrounding whitespace is
/// that token applied to the plain-brick default.
proof fn lemma_parse_single_token(t: Seq<char>)
    requires
        t.len() > 0,
        forall|i: int| 0 <= i < t.len() ==> t[i] != '+',
        !is_ws(t[0]),
        !is_ws(t.last()),
    ensures
        spec_parse_brick_tag(t) == apply_brick_token(spec_default_brick_spec(), t),
{
    lemma_split_without_sep(t, '+');
    let ts = seq![t];
    let x = spec_default_brick_spec();
    assert(ts.drop_last() =~= Seq::<Seq<char>>::empty());
    assert(fold_brick_tokens(x, ts.drop_last()) == x);
    assert(ts.last() == t);
    assert(trim_start(t) == t);
    assert(trim_end(t) == t);
    assert(trim(t) == t);
    assert(fold_brick_tokens(x, ts) == apply_brick_token(x, t));
}

/// The pickup tag word of each pickup kind.
pub open spec fn drop_tag_word(kind: PickupKind) -> Seq<char> {
    match kind {
        PickupKind::Multiball => "drop_multiball"@,
        PickupKind::Wrecking => "drop_wrecking"@,
        PickupKind::Insiculous => "drop_insiculous"@,
    }
}

/// Appending `+drop_<kind>` to any tag makes the brick drop that kind of
/// pickup, whatever it dropped before, and leaves its armor alone.
pub proof fn law_drop_token_sets_drop(a: Seq<char>, kind: PickupKind)
    ensures
        spec_parse_brick_tag(a.push('+') + drop_tag_word(kind)) == (BrickSpec {
            hits: spec_parse_brick_tag(a).hits,
            drop: Some(kind),
        }),
{
    reveal_strlit("drop_multiball");
    reveal_strlit("drop_wrecking");
    reveal_strlit("drop_insiculous");
    reveal_strlit("armored");
    let t = drop_tag_word(kind);
    assert(t[0] == 'd');
    assert(!has_prefix(t, "armored"@)) by {
        assert(t.subrange(0, 7)[0] != "armored"@[0]);
    }
    assert(forall|i: int| 0 <= i < t.len() ==> t[i] != '+');
    lemma_parse_single_token(t);
    match kind {
        PickupKind::Multiball => {},
        PickupKind::Wrecking => {
            assert(t != "drop_multiball"@) by {
                assert(t.len() != "drop_multiball"@.len());
            }
        },
        PickupKind::Insiculous => {
            assert(t != "drop_multiball"@) by {
                assert(t.len() != "drop_multiball"@.len());
            }
            assert(t != "drop_wrecking"@) by {
                assert(t.len() != "drop_wrecking"@.len());
            }
        },
    }
    law_tag_concat_overlays(a, t);
}

/// The decimal digit that spells `n` (for `n` below ten).
pub open spec fn digit_char(n: int) -> char {
    seq!['0', '1', '2', '3', '4', '5', '6', '7', '8', '9'][n]
}

/// Appending `+armored{N}` (N from two to nine) to any tag makes the brick
/// take exactly N hits, whatever its armor was before, and leaves its drop
/// alone.
pub proof fn law_armor_token_sets_hits(a: Seq<char>, n: int)
    requires
        MIN_ARMOR_HITS <= n <= MAX_ARMOR_HITS,
    ensures
        spec_parse_brick_tag(a.push('+') + "armored"@.push(digit_char(n))) == (BrickSpec {
            hits: n as u32,
            drop: spec_parse_brick_tag(a).drop,
        }),
{
    reveal_strlit("armored");
    let t = "armored"@.push(digit_char(n));
    let d = t.subrange(7, 8);
    assert(d =~= seq![digit_char(n)]);
    assert(d.drop_last() =~= Seq::<char>::empty());
    assert(digits_value(d) == n) by {
        assert(digits_value(d) == digits_value(d.drop_last()) * 10 + digit_value(d.last()));
        if n == 2 {
        } else if n == 3 {
        } else if n == 4 {
        } else if n == 5 {
        } else if n == 6 {
        } else if n == 7 {
        } else if n == 8 {
        } else {
        }
    }
    assert(all_digits(d)) by {
        assert(is_digit(d[0]));
    }
    assert(t.subrange(0, 7) =~= "armored"@);
    assert(forall|i: int| 0 <= i < t.len() ==> t[i] != '+') by {
        assert(t.last() != '+');
    }
    assert(!is_ws(t.last()));
    lemma_parse_single_token(t);
    law_tag_concat_overlays(a, t);
}

/// Appending a token that is neither an armor token nor a pickup word
/// (after trimming) leaves the tag's meaning unchanged: unknown tokens are
/// skipped.
pub proof fn law_unknown_token_skipped(a: Seq<char>, t: Seq<char>)
    requires
        forall|i: int| 0 <= i < t.len() ==> t[i] != '+',
        !has_prefix(trim(t), "armored"@),
        trim(t) != "drop_multiball"@,
        trim(t) != "drop_wrecking"@,
        trim(t) != "drop_insiculous"@,
    ensures
        spec_parse_brick_tag(a.push('+') + t) == spec_parse_brick_tag(a),
{
    lemma_split_without_sep(t, '+');
    let ts = seq![t];
    let x = spec_default_brick_spec();
    assert(ts.drop_last() =~= Seq::<Seq<char>>::empty());
    assert(fold_brick_tokens(x, ts.drop_last()) == x);
    assert(ts.last() == t);
    assert(fold_brick_tokens(x, ts) == apply_brick_token(x, trim(t)));
    assert(spec_parse_brick_tag(t) == x);
    law_tag_concat_overlays(a, t);
}

/// A brick named `brick_r{row}_c...` for a one-digit row reads that row:
/// on the grid it pays the row's value, the same value the generated grid
/// gives that row; off the grid it pays the minimum payout.
pub proof fn law_brick_name_pays_its_row(row: int, rest: Seq<char>)
    requires
        0 <= row <= 9,
    ensures
        ({
            let name = "brick_r"@ + seq![digit_char(row)] + "_c"@ + rest;
            &&& spec_brick_row_from_name(name) == Some(row)
            &&& spec_brick_value_from_name(name) == if row < BRICK_ROWS {
                spec_brick_value(row)
            } else {
                BRICK_VALUE_STEP as int
            }
        }),
{
    reveal_strlit("brick_r");
    reveal_strlit("_c");
    let d = digit_char(row);
    let name = "brick_r"@ + seq![d] + "_c"@ + rest;
    assert(name.subrange(0, 7) =~= "brick_r"@);
    let tail = name.subrange(7, name.len() as int);
    assert(tail =~= seq![d] + ("_c"@ + rest));
    assert(is_digit(tail[0])) by {
        if row == 0 {
        } else if row == 1 {
        } else if row == 2 {
        } else if row == 3 {
        } else if row == 4 {
        } else if row == 5 {
        } else if row == 6 {
        } else if row == 7 {
        } else if row == 8 {
        } else {
        }
    }
    let after = tail.subrange(1, tail.len() as int);
    assert(after =~= "_c"@ + rest);
    assert(!is_digit(after[0]));
    assert(leading_digit_count(after) == 0);
    assert(leading_digit_count(tail) == 1);
    let ds = tail.subrange(0, 1);
    assert(ds =~= seq![d]);
    assert(ds.drop_last() =~= Seq::<char>::empty());
    assert(digits_value(ds) == row) by {
        assert(digits_value(ds) == digits_value(ds.drop_last()) * 10 + digit_value(ds.last()));
        if row == 0 {
        } else if row == 1 {
        } else if row == 2 {
        } else if row == 3 {
        } else if row == 4 {
        } else if row == 5 {
        } else if row == 6 {
        } else if row == 7 {
        } else if row == 8 {
        } else {
        }
    }
}

/// An entity whose name does not start with `brick_r` still pays the
/// minimum payout, so a renamed brick degrades gracefully.
pub proof fn law_unparsed_name_pays_minimum(name: Seq<char>)
    requires
        !has_prefix(name, "brick_r"@),
    ensures
        spec_brick_row_from_name(name) is None,
        spec_brick_value_from_name(name) == BRICK_VALUE_STEP,
{
}

// ----------------------------------------------------------------------
// Laws of the rosters
// ----------------------------------------------------------------------

/// Each roster holds one level per chaos mode, in the canonical mode order.
pub proof fn law_roster_follows_chaos_order(mode: GameMode, i: int)
    requires
        0 <= i < spec_all_chaos_modes().len(),
    ensures
        spec_roster(mode).len() == spec_all_chaos_modes().len(),
        spec_roster(mode)[i].mode == spec_all_chaos_modes()[i],
{
}

/// Level `i` of the solo roster plays the scene `level{i+1}.scene.ron` and
/// level `i` of the co-op roster plays `level{i+1}_2p.scene.ron`: both
/// rosters walk the same numbered layouts in the same order, under the
/// titles CLASSIC, THE VAULT, PINATA, THE GAUNTLET (each co-op title ending
/// in " DUO").
pub proof fn law_roster_scene_numbering(i: int)
    requires
        0 <= i < 4,
    ensures
        spec_roster(GameMode::SinglePlayer).len() == 4,
        spec_roster(GameMode::TwoPlayerCoop).len() == 4,
        spec_roster(GameMode::SinglePlayer)[i].scene_file
            == "level"@ + seq![seq!['1', '2', '3', '4'][i]] + ".scene.ron"@,
        spec_roster(GameMode::TwoPlayerCoop)[i].scene_file
            == "level"@ + seq![seq!['1', '2', '3', '4'][i]] + "_2p.scene.ron"@,
        spec_roster(GameMode::SinglePlayer)[i].title == seq![
            "CLASSIC"@,
            "THE VAULT"@,
            "PINATA"@,
            "THE GAUNTLET"@,
        ][i],
        ({
            let t = spec_roster(GameMode::TwoPlayerCoop)[i].title;
            t.len() >= 4 && t.subrange(t.len() - 4, t.len() as int) == " DUO"@
        }),
{
    reveal_strlit("level");
    reveal_strlit(".scene.ron");
    reveal_strlit("_2p.scene.ron");
    reveal_strlit(" DUO");
    reveal_strlit("level1.scene.ron");
    reveal_strlit("level2.scene.ron");
    reveal_strlit("level3.scene.ron");
    reveal_strlit("level4.scene.ron");
    reveal_strlit("level1_2p.scene.ron");
    reveal_strlit("level2_2p.scene.ron");
    reveal_strlit("level3_2p.scene.ron");
    reveal_strlit("level4_2p.scene.ron");
    reveal_strlit("CLASSIC DUO");
    reveal_strlit("THE VAULT DUO");
    reveal_strlit("PINATA DUO");
    reveal_strlit("GAUNTLET DUO");
    let solo = spec_roster(GameMode::SinglePlayer);
    let duo = spec_roster(GameMode::TwoPlayerCoop);
    let d = seq!['1', '2', '3', '4'][i];
    let sfx = " DUO"@;
    if i == 0 {
        assert(solo[i].scene_file =~= "level"@ + seq![d] + ".scene.ron"@);
        assert(duo[i].scene_file =~= "level"@ + seq![d] + "_2p.scene.ron"@);
        assert(duo[i].title.subrange(duo[i].title.len() - sfx.len(), duo[i].title.len() as int) =~= sfx);
    } else if i == 1 {
        assert(solo[i].scene_file =~= "level"@ + seq![d] + ".scene.ron"@);
        assert(duo[i].scene_file =~= "level"@ + seq![d] + "_2p.scene.ron"@);
        assert(duo[i].title.subrange(duo[i].title.len() - sfx.len(), duo[i].title.len() as int) =~= sfx);
    } else if i == 2 {
        assert(solo[i].scene_file =~= "level"@ + seq![d] + ".scene.ron"@);
        assert(duo[i].scene_file =~= "level"@ + seq![d] + "_2p.scene.ron"@);
        assert(duo[i].title.subrange(duo[i].title.len() - sfx.len(), duo[i].title.len() as int) =~= sfx);
    } else {
        assert(solo[i].scene_file =~= "level"@ + seq![d] + ".scene.ron"@);
        assert(duo[i].scene_file =~= "level"@ + seq![d] + "_2p.scene.ron"@);
        assert(duo[i].title.subrange(duo[i].title.len() - sfx.len(), duo[i].title.len() as int) =~= sfx);
    }
}

/// Every level of a roster has a non-empty hint line.
pub proof fn law_every_level_has_a_hint(mode: GameMode, index: usize)
    requires
        index < spec_roster(mode).len(),
    ensures
        spec_level_hint(mode, index).len() > 0,
{
    reveal_strlit("The classic wall. A gentle taste of armor.");
    reveal_strlit("A fortress of steel. Ball speeds up per paddle hit.");
    reveal_strlit("Crack it open - it rains power-ups. Two-ball serves.");
    reveal_strlit("Armor, chaos, and everything at once.");
    reveal_strlit("The wall between you. Guard both edges.");
    reveal_strlit("An armored core - and the ball keeps speeding up.");
    reveal_strlit("A prize band ripe for the cracking. Two-ball serves.");
    reveal_strlit("Everything at once, coming from both sides.");
}

// ----------------------------------------------------------------------
// Laws of scene bricks
// ----------------------------------------------------------------------

/// A named entity becomes a brick exactly when its name starts with
/// `brick`; that brick keeps the entity's payload, pays its name's value,
/// and takes exactly its tag's hit count and drop (a plain one-hit brick
/// with no drop when untagged), whatever the armor.
pub proof fn law_named_brick_carries_tag<P>(e: NamedEntity<P>)
    ensures
        has_prefix(e.name@, "brick"@) ==> {
            let r = spec_bricks_from_names(seq![e]);
            &&& r.len() == 1
            &&& r[0].payload == e.payload
            &&& r[0].value == spec_brick_value_from_name(e.name@)
            &&& r[0].hits_left == match e.tag {
                Some(t) => spec_parse_brick_tag(t@).hits,
                None => 1u32,
            }
            &&& r[0].drop == match e.tag {
                Some(t) => spec_parse_brick_tag(t@).drop,
                None => None,
            }
        },
        !has_prefix(e.name@, "brick"@) ==> spec_bricks_from_names(seq![e]).len() == 0,
{
    let es = seq![e];
    assert(es.drop_last() =~= Seq::<NamedEntity<P>>::empty());
    assert(es.last() == e);
    assert(spec_bricks_from_names(Seq::<NamedEntity<P>>::empty()) =~= Seq::<Brick<P>>::empty());
    let v = spec_brick_value_from_name(e.name@);
    assert(0 <= v <= 60) by {
        let name = e.name@;
        if has_prefix(name, "brick_r"@) {
            lemma_leading_digits_are_digits(name.subrange("brick_r"@.len() as int, name.len() as int));
        }
        match spec_brick_row_from_name(e.name@) {
            Some(row) => {
                if row < BRICK_ROWS {
                    assert(spec_brick_value(row) == (6 - row) * 10);
                }
            },
            None => {},
        }
    }
    if has_prefix(e.name@, "brick"@) {
        let br = spec_brick_from_named(e).unwrap();
        assert(spec_bricks_from_names(es) == Seq::<Brick<P>>::empty().push(br));
    }
}

/// The bricks of two lists of entities are the bricks of the first list
/// followed by those of the second: each entity is read on its own, in
/// order.
pub proof fn law_bricks_from_names_concat<P>(a: Seq<NamedEntity<P>>, b: Seq<NamedEntity<P>>)
    ensures
        spec_bricks_from_names(a + b) == spec_bricks_from_names(a) + spec_bricks_from_names(b),
    decreases b.len(),
{
    if b.len() == 0 {
        assert(a + b =~= a);
        assert(spec_bricks_from_names(a) + spec_bricks_from_names(b) =~= spec_bricks_from_names(a));
    } else {
        assert((a + b).drop_last() =~= a + b.drop_last());
        assert((a + b).last() == b.last());
        law_bricks_from_names_concat(a, b.drop_last());
        let x = spec_bricks_from_names(a);
        let y = spec_bricks_from_names(b.drop_last());
        match spec_brick_from_named(b.last()) {
            Some(br) => {
                assert((x + y).push(br) =~= x + y.push(br));
            },
            None => {},
        }
    }
}

} // verus!
