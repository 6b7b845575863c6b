//! Brick hit resolution.

use vstd::prelude::*;

verus! {

/// What a brick hit does, given the brick's remaining hits and whether the
/// wrecking ball is active (wrecking one-hit-kills anything).
#[derive(Debug, Clone, Copy, PartialEq, Eq, Structural)]
pub enum BrickHitOutcome {
    Destroyed,
    Damaged { hits_left: u32 },
}

/// The outcome a hit has on a brick with `hits_left` hits remaining.
pub open spec fn spec_brick_hit_outcome(hits_left: u32, wrecking_active: bool) -> BrickHitOutcome {
    if wrecking_active || hits_left <= 1 {
        BrickHitOutcome::Destroyed
    } else {
        BrickHitOutcome::Damaged { hits_left: (hits_left - 1) as u32 }
    }
}

pub fn brick_hit_outcome(hits_left: u32, wrecking_active: bool) -> (r: BrickHitOutcome)
    ensures
        r == spec_brick_hit_outcome(hits_left, wrecking_active),
{
    if wrecking_active || hits_left <= 1 {
        BrickHitOutcome::Destroyed
    } else {
        BrickHitOutcome::Damaged { hits_left: hits_left - 1 }
    }
}

} // verus!

verus! {

/// A live brick: what the renderer needs to find it again (`payload`), the
/// score it pays when destroyed, remaining hits, and the pickup it drops.
#[derive(Debug, Clone, Copy)]
pub struct Brick<P> {
    pub payload: P,
    pub value: u32,
    /// Hits left to destroy it (1 = plain brick).
    pub hits_left: u32,
    /// Pickup dropped when destroyed, if any.
    pub drop: Option<crate::types::PickupKind>,
}

/// What happened to one hit brick.
#[derive(Debug, Clone, Copy)]
pub enum BrickEvent<P> {
    /// The brick survived with `hits_left` hits remaining.
    Damaged { payload: P, hits_left: u32 },
    /// The brick was destroyed and removed from the wall.
    Destroyed { brick: Brick<P> },
}

/// Whether brick `j` is among the hit indices.
pub open spec fn is_hit(hits: Seq<usize>, j: int) -> bool {
    exists|k: int| 0 <= k < hits.len() && hits[k] as int == j
}

/// What is left of brick `b` after one hit.
pub open spec fn after_hit<P>(b: Brick<P>, wrecking_active: bool) -> Seq<Brick<P>> {
    match spec_brick_hit_outcome(b.hits_left, wrecking_active) {
        BrickHitOutcome::Destroyed => Seq::empty(),
        BrickHitOutcome::Damaged { hits_left } => seq![
            Brick { payload: b.payload, value: b.value, hits_left, drop: b.drop },
        ],
    }
}

/// The wall from brick `i` on after resolving the hits: unhit bricks stay,
/// damaged bricks lose a hit, destroyed bricks are gone.
pub open spec fn remaining_from<P>(
    bricks: Seq<Brick<P>>,
    hits: Seq<usize>,
    wrecking_active: bool,
    i: int,
) -> Seq<Brick<P>>
    decreases bricks.len() - i,
{
    if i < 0 || i >= bricks.len() {
        Seq::empty()
    } else {
        let here = if is_hit(hits, i) {
            after_hit(bricks[i], wrecking_active)
        } else {
            seq![bricks[i]]
        };
        here + remaining_from(bricks, hits, wrecking_active, i + 1)
    }
}

/// The bricks from index `i` on that the hits destroy, in wall order.
pub open spec fn destroyed_from<P>(
    bricks: Seq<Brick<P>>,
    hits: Seq<usize>,
    wrecking_active: bool,
    i: int,
) -> Seq<Brick<P>>
    decreases bricks.len() - i,
{
    if i < 0 || i >= bricks.len() {
        Seq::empty()
    } else {
        let here = if is_hit(hits, i) && spec_brick_hit_outcome(bricks[i].hits_left, wrecking_active)
            == BrickHitOutcome::Destroyed {
            seq![bricks[i]]
        } else {
            Seq::empty()
        };
        here + destroyed_from(bricks, hits, wrecking_active, i + 1)
    }
}

/// The events of the hits on bricks from index `i` on, highest index first.
pub open spec fn events_from<P>(
    bricks: Seq<Brick<P>>,
    hits: Seq<usize>,
    wrecking_active: bool,
    i: int,
) -> Seq<BrickEvent<P>>
    decreases bricks.len() - i,
{
    if i < 0 || i >= bricks.len() {
        Seq::empty()
    } else {
        let here = if is_hit(hits, i) {
            match spec_brick_hit_outcome(bricks[i].hits_left, wrecking_active) {
                BrickHitOutcome::Destroyed => seq![BrickEvent::Destroyed { brick: bricks[i] }],
                BrickHitOutcome::Damaged { hits_left } => seq![
                    BrickEvent::Damaged { payload: bricks[i].payload, hits_left },
                ],
            }
        } else {
            Seq::empty()
        };
        events_from(bricks, hits, wrecking_active, i + 1) + here
    }
}

/// Total score of a list of bricks.
pub open spec fn total_value<P>(bricks: Seq<Brick<P>>) -> int
    decreases bricks.len(),
{
    if bricks.len() == 0 {
        0
    } else {
        bricks[0].value + total_value(bricks.subrange(1, bricks.len() as int))
    }
}

pub proof fn lemma_total_value_cons<P>(b: Brick<P>, rest: Seq<Brick<P>>)
    ensures
        total_value(seq![b] + rest) == b.value + total_value(rest),
{
    assert((seq![b] + rest).subrange(1, (seq![b] + rest).len() as int) =~= rest);
}

/// Destroying from an earlier index destroys at least as much.
pub proof fn lemma_destroyed_grows<P>(
    bricks: Seq<Brick<P>>,
    hits: Seq<usize>,
    wrecking_active: bool,
    i: int,
    j: int,
)
    requires
        0 <= i <= j <= bricks.len(),
    ensures
        total_value(destroyed_from(bricks, hits, wrecking_active, i)) >= total_value(
            destroyed_from(bricks, hits, wrecking_active, j),
        ),
        destroyed_from(bricks, hits, wrecking_active, i).len() >= destroyed_from(
            bricks,
            hits,
            wrecking_active,
            j,
        ).len(),
        total_value(destroyed_from(bricks, hits, wrecking_active, j)) >= 0,
    decreases j - i,
{
    if i < j {
        lemma_destroyed_grows(bricks, hits, wrecking_active, i + 1, j);
        let rest = destroyed_from(bricks, hits, wrecking_active, i + 1);
        if is_hit(hits, i) && spec_brick_hit_outcome(bricks[i].hits_left, wrecking_active)
            == BrickHitOutcome::Destroyed {
            lemma_total_value_cons(bricks[i], rest);
        } else {
            assert(Seq::<Brick<P>>::empty() + rest =~= rest);
        }
    } else {
        lemma_total_value_nonneg(destroyed_from(bricks, hits, wrecking_active, j));
    }
}

pub proof fn lemma_total_value_nonneg<P>(bricks: Seq<Brick<P>>)
    ensures
        total_value(bricks) >= 0,
    decreases bricks.len(),
{
    if bricks.len() > 0 {
        lemma_total_value_nonneg(bricks.subrange(1, bricks.len() as int));
    }
}

/// Whether `hits` holds index `j`.
pub fn contains_index(hits: &Vec<usize>, j: usize) -> (r: bool)
    ensures
        r == is_hit(hits@, j as int),
{
    let mut k: usize = 0;
    while k < hits.len()
        invariant
            0 <= k <= hits@.len(),
            forall|m: int| 0 <= m < k ==> hits@[m] != j,
        decreases hits@.len() - k,
    {
        if hits[k] == j {
            return true;
        }
        k = k + 1;
    }
    false
}

/// A hit destroys a brick exactly when the wrecking ball is active or the
/// brick has at most one hit left; otherwise it takes away exactly one hit
/// and the brick survives with at least one.
pub proof fn law_hit_outcome(hits_left: u32, wrecking_active: bool)
    ensures
        (spec_brick_hit_outcome(hits_left, wrecking_active) == BrickHitOutcome::Destroyed) <==> (
        wrecking_active || hits_left <= 1),
        match spec_brick_hit_outcome(hits_left, wrecking_active) {
            BrickHitOutcome::Damaged { hits_left: h } => h == hits_left - 1 && h >= 1,
            BrickHitOutcome::Destroyed => true,
        },
{
}

/// Every brick from index `i` on either stays on the wall (possibly
/// damaged) or is destroyed; none appears or vanishes otherwise.
pub proof fn law_bricks_conserved<P>(
    bricks: Seq<Brick<P>>,
    hits: Seq<usize>,
    wrecking_active: bool,
    i: int,
)
    requires
        0 <= i <= bricks.len(),
    ensures
        remaining_from(bricks, hits, wrecking_active, i).len() + destroyed_from(
            bricks,
            hits,
            wrecking_active,
            i,
        ).len() == bricks.len() - i,
    decreases bricks.len() - i,
{
    if i < bricks.len() {
        law_bricks_conserved(bricks, hits, wrecking_active, i + 1);
    }
}

/// A frame without hits leaves the wall as it was.
pub proof fn law_no_hits_no_change<P>(bricks: Seq<Brick<P>>, wrecking_active: bool, i: int)
    requires
        0 <= i <= bricks.len(),
    ensures
        remaining_from(bricks, Seq::<usize>::empty(), wrecking_active, i) == bricks.subrange(
            i,
            bricks.len() as int,
        ),
        destroyed_from(bricks, Seq::<usize>::empty(), wrecking_active, i).len() == 0,
    decreases bricks.len() - i,
{
    if i < bricks.len() {
        law_no_hits_no_change(bricks, wrecking_active, i + 1);
        assert(!is_hit(Seq::<usize>::empty(), i));
        assert(seq![bricks[i]] + bricks.subrange(i + 1, bricks.len() as int) =~= bricks.subrange(
            i,
            bricks.len() as int,
        ));
    } else {
        assert(bricks.subrange(i, bricks.len() as int) =~= Seq::<Brick<P>>::empty());
    }
}

/// With the wrecking ball active, every hit brick is destroyed: what
/// remains are exactly the bricks that were not hit, unchanged.
pub proof fn law_wrecking_destroys_every_hit<P>(bricks: Seq<Brick<P>>, hits: Seq<usize>, i: int)
    requires
        0 <= i <= bricks.len(),
    ensures
        forall|k: int|
            0 <= k < remaining_from(bricks, hits, true, i).len() ==> exists|j: int|
                i <= j < bricks.len() && !is_hit(hits, j) && #[trigger] remaining_from(
                    bricks,
                    hits,
                    true,
                    i,
                )[k] == bricks[j],
    decreases bricks.len() - i,
{
    if i < bricks.len() {
        law_wrecking_destroys_every_hit(bricks, hits, i + 1);
        let rest = remaining_from(bricks, hits, true, i + 1);
        let all = remaining_from(bricks, hits, true, i);
        if is_hit(hits, i) {
            assert(all =~= rest);
        } else {
            assert(all =~= seq![bricks[i]] + rest);
            assert forall|k: int| 0 <= k < all.len() implies exists|j: int|
                i <= j < bricks.len() && !is_hit(hits, j) && #[trigger] all[k] == bricks[j] by {
                if k == 0 {
                    assert(all[0] == bricks[i]);
                } else {
                    assert(all[k] == rest[k - 1]);
                }
            }
        }
    }
}

/// `b` is `orig` with one hit fewer if `hit`, and otherwise the same: same
/// payload, value and drop.
pub open spec fn kept_as<P>(b: Brick<P>, orig: Brick<P>, hit: bool) -> bool {
    &&& b.payload == orig.payload
    &&& b.value == orig.value
    &&& b.drop == orig.drop
    &&& b.hits_left == if hit {
        orig.hits_left - 1
    } else {
        orig.hits_left as int
    }
}

/// Resolving hits changes nothing about a brick but its hit count: every
/// brick left on the wall is one of the bricks that stood from index `i` on,
/// with the same payload, value and drop, and one hit fewer exactly when it
/// was hit. So a damaged drop brick still drops its pickup when it is
/// finally destroyed.
pub proof fn law_hits_change_only_hit_counts<P>(
    bricks: Seq<Brick<P>>,
    hits: Seq<usize>,
    wrecking_active: bool,
    i: int,
)
    requires
        0 <= i <= bricks.len(),
    ensures
        forall|k: int|
            0 <= k < remaining_from(bricks, hits, wrecking_active, i).len() ==> exists|j: int|
                #![trigger bricks[j]]
                i <= j < bricks.len() && kept_as(
                    #[trigger] remaining_from(bricks, hits, wrecking_active, i)[k],
                    bricks[j],
                    is_hit(hits, j),
                ),
    decreases bricks.len() - i,
{
    if i < bricks.len() {
        law_hits_change_only_hit_counts(bricks, hits, wrecking_active, i + 1);
        let rest = remaining_from(bricks, hits, wrecking_active, i + 1);
        let all = remaining_from(bricks, hits, wrecking_active, i);
        let here = if is_hit(hits, i) {
            after_hit(bricks[i], wrecking_active)
        } else {
            seq![bricks[i]]
        };
        assert(all == here + rest);
        assert forall|k: int| 0 <= k < all.len() implies exists|j: int|
            #![trigger bricks[j]]
            i <= j < bricks.len() && kept_as(#[trigger] all[k], bricks[j], is_hit(hits, j)) by {
            if k < here.len() {
                assert(all[k] == here[k]);
                assert(k == 0);
                assert(kept_as(all[k], bricks[i], is_hit(hits, i)));
            } else {
                assert(all[k] == rest[k - here.len()]);
                let j = choose|j: int|
                    #![trigger bricks[j]]
                    i + 1 <= j < bricks.len() && kept_as(rest[k - here.len()], bricks[j], is_hit(hits, j));
                assert(bricks[j] == bricks[j]);
            }
        }
    }
}

/// When one brick is hit (by one ball or several) without the wrecking
/// ball: an armored brick stays on the wall in its place with one hit fewer
/// and nothing else changed, and nothing is destroyed; a brick with one hit
/// left is removed and is the one destroyed brick.
pub proof fn law_single_hit<P>(before: Seq<Brick<P>>, b: Brick<P>, after: Seq<Brick<P>>, hits: Seq<usize>)
    requires
        hits.len() >= 1,
        forall|k: int| 0 <= k < hits.len() ==> hits[k] as int == before.len(),
    ensures
        ({
            let wall = before + seq![b] + after;
            &&& b.hits_left >= 2 ==> remaining_from(wall, hits, false, 0) == before + seq![
                Brick { payload: b.payload, value: b.value, hits_left: (b.hits_left - 1) as u32, drop: b.drop },
            ] + after
            &&& b.hits_left >= 2 ==> destroyed_from(wall, hits, false, 0).len() == 0
            &&& b.hits_left <= 1 ==> remaining_from(wall, hits, false, 0) == before + after
            &&& b.hits_left <= 1 ==> destroyed_from(wall, hits, false, 0) == seq![b]
        }),
{
    let wall = before + seq![b] + after;
    let n = before.len() as int;
    assert(hits[0] as int == n);
    assert(is_hit(hits, n));
    assert forall|j: int| j != n implies !is_hit(hits, j) by {
        if is_hit(hits, j) {
            let k = choose|k: int| 0 <= k < hits.len() && hits[k] as int == j;
            assert(hits[k] as int == n);
        }
    }
    lemma_unhit_tail(wall, hits, false, n + 1);
    lemma_unhit_prefix(wall, hits, false, 0, n);
    assert(wall.subrange(n + 1, wall.len() as int) =~= after);
    assert(wall.subrange(0, n) =~= before);
    assert(wall[n] == b);
    let rest = remaining_from(wall, hits, false, n + 1);
    if b.hits_left >= 2 {
        assert(before + (seq![Brick { payload: b.payload, value: b.value, hits_left: (b.hits_left - 1) as u32, drop: b.drop }] + after)
            =~= before + seq![Brick { payload: b.payload, value: b.value, hits_left: (b.hits_left - 1) as u32, drop: b.drop }] + after);
        assert(destroyed_from(wall, hits, false, n) =~= destroyed_from(wall, hits, false, n + 1));
    } else {
        assert(remaining_from(wall, hits, false, n) =~= rest);
        assert(destroyed_from(wall, hits, false, n) =~= seq![b]);
    }
}

/// When one brick is hit (by one ball or several): the frame reports that
/// brick alone, as damaged with one hit fewer when it is armored and the
/// wrecking ball is off, and otherwise as destroyed, carrying the brick as
/// it stood (its drop included) and paying exactly its value.
pub proof fn law_single_hit_report<P>(
    before: Seq<Brick<P>>,
    b: Brick<P>,
    after: Seq<Brick<P>>,
    hits: Seq<usize>,
    wrecking_active: bool,
)
    requires
        hits.len() >= 1,
        forall|k: int| 0 <= k < hits.len() ==> hits[k] as int == before.len(),
    ensures
        ({
            let wall = before + seq![b] + after;
            let events = events_from(wall, hits, wrecking_active, 0);
            let destroyed = destroyed_from(wall, hits, wrecking_active, 0);
            if b.hits_left >= 2 && !wrecking_active {
                &&& events == seq![BrickEvent::Damaged { payload: b.payload, hits_left: (b.hits_left - 1) as u32 }]
                &&& destroyed.len() == 0
                &&& total_value(destroyed) == 0
            } else {
                &&& events == seq![BrickEvent::Destroyed { brick: b }]
                &&& destroyed == seq![b]
                &&& total_value(destroyed) == b.value
            }
        }),
{
    let wall = before + seq![b] + after;
    let n = before.len() as int;
    let w = wrecking_active;
    assert(hits[0] as int == n);
    assert(is_hit(hits, n));
    assert forall|j: int| j != n implies !is_hit(hits, j) by {
        if is_hit(hits, j) {
            let k = choose|k: int| 0 <= k < hits.len() && hits[k] as int == j;
            assert(hits[k] as int == n);
        }
    }
    lemma_unhit_tail(wall, hits, w, n + 1);
    lemma_unhit_prefix(wall, hits, w, 0, n);
    lemma_events_unhit_tail(wall, hits, w, n + 1);
    lemma_events_unhit_prefix(wall, hits, w, 0, n);
    assert(wall[n] == b);
    let ev = events_from(wall, hits, w, n + 1);
    assert(ev.len() == 0);
    assert(ev =~= Seq::<BrickEvent<P>>::empty());
    assert(destroyed_from(wall, hits, w, n + 1) =~= Seq::<Brick<P>>::empty());
    if b.hits_left >= 2 && !w {
        assert(events_from(wall, hits, w, n) =~= seq![BrickEvent::Damaged { payload: b.payload, hits_left: (b.hits_left - 1) as u32 }]);
        assert(destroyed_from(wall, hits, w, n) =~= Seq::<Brick<P>>::empty());
    } else {
        assert(events_from(wall, hits, w, n) =~= seq![BrickEvent::Destroyed { brick: b }]);
        assert(destroyed_from(wall, hits, w, n) =~= seq![b]);
        lemma_total_value_cons(b, Seq::<Brick<P>>::empty());
        assert(seq![b] + Seq::<Brick<P>>::empty() =~= seq![b]);
    }
}

/// Past the last hit index no event is reported.
proof fn lemma_events_unhit_tail<P>(bricks: Seq<Brick<P>>, hits: Seq<usize>, w: bool, i: int)
    requires
        0 <= i <= bricks.len(),
        forall|j: int| i <= j < bricks.len() ==> !is_hit(hits, j),
    ensures
        events_from(bricks, hits, w, i).len() == 0,
    decreases bricks.len() - i,
{
    if i < bricks.len() {
        lemma_events_unhit_tail(bricks, hits, w, i + 1);
    }
}

/// Before the first hit index no event is reported.
proof fn lemma_events_unhit_prefix<P>(bricks: Seq<Brick<P>>, hits: Seq<usize>, w: bool, i: int, n: int)
    requires
        0 <= i <= n < bricks.len(),
        forall|j: int| i <= j < n ==> !is_hit(hits, j),
    ensures
        events_from(bricks, hits, w, i) == events_from(bricks, hits, w, n),
    decreases n - i,
{
    if i < n {
        lemma_events_unhit_prefix(bricks, hits, w, i + 1, n);
        assert(events_from(bricks, hits, w, i + 1) + Seq::<BrickEvent<P>>::empty() =~= events_from(
            bricks,
            hits,
            w,
            i + 1,
        ));
    }
}

/// Past the last hit index the wall is untouched.
proof fn lemma_unhit_tail<P>(bricks: Seq<Brick<P>>, hits: Seq<usize>, w: bool, i: int)
    requires
        0 <= i <= bricks.len(),
        forall|j: int| i <= j < bricks.len() ==> !is_hit(hits, j),
    ensures
        remaining_from(bricks, hits, w, i) == bricks.subrange(i, bricks.len() as int),
        destroyed_from(bricks, hits, w, i).len() == 0,
    decreases bricks.len() - i,
{
    if i < bricks.len() {
        lemma_unhit_tail(bricks, hits, w, i + 1);
        assert(seq![bricks[i]] + bricks.subrange(i + 1, bricks.len() as int) =~= bricks.subrange(
            i,
            bricks.len() as int,
        ));
    } else {
        assert(bricks.subrange(i, bricks.len() as int) =~= Seq::<Brick<P>>::empty());
    }
}

/// Before the first hit index the wall is untouched.
proof fn lemma_unhit_prefix<P>(bricks: Seq<Brick<P>>, hits: Seq<usize>, w: bool, i: int, n: int)
    requires
        0 <= i <= n < bricks.len(),
        forall|j: int| i <= j < n ==> !is_hit(hits, j),
    ensures
        remaining_from(bricks, hits, w, i) == bricks.subrange(i, n) + remaining_from(bricks, hits, w, n),
        destroyed_from(bricks, hits, w, i) == destroyed_from(bricks, hits, w, n),
    decreases n - i,
{
    if i < n {
        lemma_unhit_prefix(bricks, hits, w, i + 1, n);
        assert(bricks.subrange(i, n) =~= seq![bricks[i]] + bricks.subrange(i + 1, n));
        assert(seq![bricks[i]] + (bricks.subrange(i + 1, n) + remaining_from(bricks, hits, w, n))
            =~= seq![bricks[i]] + bricks.subrange(i + 1, n) + remaining_from(bricks, hits, w, n));
        assert(Seq::<Brick<P>>::empty() + destroyed_from(bricks, hits, w, i + 1) =~= destroyed_from(
            bricks,
            hits,
            w,
            i + 1,
        ));
    } else {
        assert(bricks.subrange(i, n) =~= Seq::<Brick<P>>::empty());
        assert(Seq::<Brick<P>>::empty() + remaining_from(bricks, hits, w, n) =~= remaining_from(
            bricks,
            hits,
            w,
            n,
        ));
    }
}

} // verus!
