//! What pushing windows apart achieves.
//!
//! The laws speak of answers that keep what the questions ask: a place is clear of all the
//! obstacles of its question.

use crate::geometry::{Direction, Point, Rect};
use crate::model::{TiledWindow, WindowId};
use crate::push;
use crate::push::{PushRules, PushState, Pushed};
use crate::ranking;
use crate::workspace;
use vstd::prelude::*;

verus! {

impl PushState {
    /// Whether every place that a window gets from this state on is clear of the windows that
    /// are locked by then.
    pub open spec fn well_answered(self, rules: PushRules, answers: Seq<Option<Point>>) -> bool
        decreases rules.limit - self.operations,
    {
        if self.queue.len() == 0 || self.operations >= rules.limit {
            true
        } else {
            match self.decision(rules, answers) {
                Err(_) => true,
                Ok((to, used)) => push::clear(
                    to,
                    push::rects_of(self.tiled, self.locked),
                    rules.gap as int,
                ) && self.settled(rules, to, used).well_answered(rules, answers),
            }
        }
    }

    /// What pushing keeps: locked windows do not conflict with each other, and whatever
    /// conflicts with one of them is queued.
    pub open spec fn contained(self, gap: int) -> bool {
        forall|a: u64, b: u64|
            self.locked.contains(a) && self.tiled.contains_key(b) && a != b
                && !self.queue.contains(b) ==> !(#[trigger] self.tiled[a]).geometry.conflicting(
                (#[trigger] self.tiled[b]).geometry,
                gap,
            )
    }
}

/// Whether the window `a` conflicts with no other.
pub open spec fn free(tiled: Map<u64, TiledWindow>, a: u64, gap: int) -> bool {
    forall|b: u64| #[trigger]
        tiled.contains_key(b) && b != a ==> !tiled[a].geometry.conflicting(tiled[b].geometry, gap)
}

/// Whether two layouts have the same windows in the same sizes.
pub open spec fn same_windows(a: Map<u64, TiledWindow>, b: Map<u64, TiledWindow>) -> bool {
    &&& a.dom() == b.dom()
    &&& forall|id: u64| #[trigger]
        a.contains_key(id) ==> a[id].id == b[id].id && a[id].geometry.size == b[id].geometry.size
}

proof fn clear_of_locked(state: PushState, rules: PushRules, rect: Rect, a: u64)
    requires
        state.sound(),
        push::clear(rect, push::rects_of(state.tiled, state.locked), rules.gap as int),
        state.locked.contains(a),
    ensures
        !rect.conflicting(state.tiled[a].geometry, rules.gap as int),
{
    vstd::set_lib::lemma_set_subset_finite(state.tiled.dom(), state.locked);
    ranking::ranking_ranks(state.locked, |id: u64| 0);
    let ids = ranking::ascending(state.locked);
    assert(ids.to_set().contains(a));
    let k = choose|k: int| 0 <= k < ids.len() && ids[k] == a;
    assert(push::rects_of(state.tiled, state.locked)[k] == state.tiled[a].geometry);
}

proof fn settling_contains(state: PushState, rules: PushRules, to: Rect, used: nat)
    requires
        state.sound(),
        state.contained(rules.gap as int),
        state.queue.len() > 0,
        push::clear(to, push::rects_of(state.tiled, state.locked), rules.gap as int),
    ensures
        state.settled(rules, to, used).contained(rules.gap as int),
{
    let gap = rules.gap as int;
    let id = state.queue[0];
    let next = state.settled(rules, to, used);
    let rest = state.queue.drop_first();
    let more = push::joining(next.tiled, id, next.locked, rest, gap);
    push::settled_is_sound(state, rules, to, used);
    push::joining_members(next.tiled, id, next.locked, rest, gap);
    assert forall|a: u64, b: u64|
        next.locked.contains(a) && next.tiled.contains_key(b) && a != b && !next.queue.contains(
            b,
        ) implies !(#[trigger] next.tiled[a]).geometry.conflicting(
        (#[trigger] next.tiled[b]).geometry,
        gap,
    ) by {
        assert(state.tiled.contains_key(b));
        if a == id {
            if state.locked.contains(b) {
                clear_of_locked(state, rules, to, b);
            } else {
                // A window that conflicts and is not queued yet would have joined.
                assert(!rest.contains(b)) by {
                    if rest.contains(b) {
                        let k = choose|k: int| 0 <= k < rest.len() && rest[k] == b;
                        assert(next.queue[k] == b);
                    }
                }
                assert(!more.contains(b)) by {
                    if more.contains(b) {
                        let k = choose|k: int| 0 <= k < more.len() && more[k] == b;
                        assert(next.queue[k + rest.len()] == b);
                    }
                }
                assert(!more.to_set().contains(b));
            }
        } else {
            assert(state.locked.contains(a));
            if b == id {
                clear_of_locked(state, rules, to, a);
                to.conflict_is_symmetric(state.tiled[a].geometry, gap);
            } else {
                assert(!state.queue.contains(b)) by {
                    if state.queue.contains(b) {
                        let k = choose|k: int| 0 <= k < state.queue.len() && state.queue[k] == b;
                        assert(rest[k - 1] == b);
                        assert(next.queue[k - 1] == b);
                    }
                }
                assert(next.tiled[a] == state.tiled[a] && next.tiled[b] == state.tiled[b]);
            }
        }
    }
}

/// Where pushing settles, a set of windows with all the locked ones in it is free of conflicts,
/// and all others have not moved. Returns that set.
proof fn outcome_frees(
    state: PushState,
    rules: PushRules,
    answers: Seq<Option<Point>>,
    before: Map<u64, TiledWindow>,
) -> (moved: Set<u64>)
    requires
        state.sound(),
        state.contained(rules.gap as int),
        state.well_answered(rules, answers),
        state.outcome(rules, answers) is Settled,
        forall|id: u64| #[trigger]
            state.tiled.contains_key(id) && !state.locked.contains(id) ==> state.tiled[id]
                == before[id],
    ensures
        state.locked.subset_of(moved),
        moved.subset_of(state.tiled.dom()),
        state.outcome(rules, answers)->tiled.dom() == state.tiled.dom(),
        forall|a: u64| #[trigger]
            moved.contains(a) ==> free(state.outcome(rules, answers)->tiled, a, rules.gap as int),
        forall|id: u64| #[trigger]
            state.tiled.contains_key(id) && !moved.contains(id) ==> state.outcome(
                rules,
                answers,
            )->tiled[id] == before[id],
    decreases rules.limit - state.operations,
{
    if state.queue.len() == 0 {
        assert forall|a: u64| #[trigger] state.locked.contains(a) implies free(
            state.tiled,
            a,
            rules.gap as int,
        ) by {
            assert forall|b: u64| #[trigger]
                state.tiled.contains_key(b) && b != a implies !state.tiled[a].geometry.conflicting(
                state.tiled[b].geometry,
                rules.gap as int,
            ) by {
                assert(!state.queue.contains(b));
            }
        }
        state.locked
    } else {
        let (to, used) = state.decision(rules, answers)->Ok_0;
        let next = state.settled(rules, to, used);
        push::settled_is_sound(state, rules, to, used);
        settling_contains(state, rules, to, used);
        outcome_frees(next, rules, answers, before)
    }
}

/// Pushing keeps the windows and their sizes, and does not move those that are locked.
proof fn outcome_keeps(state: PushState, rules: PushRules, answers: Seq<Option<Point>>)
    requires
        state.sound(),
        state.outcome(rules, answers) is Settled,
    ensures
        same_windows(state.tiled, state.outcome(rules, answers)->tiled),
        forall|id: u64| #[trigger]
            state.locked.contains(id) ==> state.outcome(rules, answers)->tiled[id]
                == state.tiled[id],
        state.used <= state.outcome(rules, answers)->used,
    decreases rules.limit - state.operations,
{
    if state.queue.len() > 0 {
        let (to, used) = state.decision(rules, answers)->Ok_0;
        let next = state.settled(rules, to, used);
        push::settled_is_sound(state, rules, to, used);
        outcome_keeps(next, rules, answers);
        let last = state.outcome(rules, answers)->tiled;
        assert(last.dom() == state.tiled.dom());
        assert forall|id: u64| #[trigger] state.tiled.contains_key(id) implies state.tiled[id].id
            == last[id].id && state.tiled[id].geometry.size == last[id].geometry.size by {
            assert(next.tiled.contains_key(id));
        }
        assert forall|id: u64| #[trigger] state.locked.contains(id) implies last[id]
            == state.tiled[id] by {
            assert(next.locked.contains(id));
            assert(id != state.queue[0]);
        }
    }
}

/// Pushing takes no window twice: where the limit allows for all of them but the source, and
/// there is an answer for each, it settles.
proof fn outcome_settles(state: PushState, rules: PushRules, answers: Seq<Option<Point>>)
    requires
        state.sound(),
        state.tiled.dom().len() <= rules.limit + 1,
        forall|i: int| state.used <= i < answers.len() ==> #[trigger] answers[i] is Some,
    ensures
        match state.outcome(rules, answers) {
            Pushed::Settled { used, .. } => used + state.operations + 1 <= state.used
                + state.tiled.dom().len(),
            Pushed::Failed(fault) => fault is NeedsPosition && answers.len() + state.operations + 1
                < state.used + state.tiled.dom().len(),
        },
    decreases rules.limit - state.operations,
{
    vstd::set_lib::lemma_set_subset_finite(state.tiled.dom(), state.locked);
    vstd::set_lib::lemma_len_subset(state.locked, state.tiled.dom());
    if state.queue.len() > 0 {
        let more = state.locked.insert(state.queue[0]);
        assert(more.subset_of(state.tiled.dom()));
        vstd::set_lib::lemma_len_subset(more, state.tiled.dom());
        match state.decision(rules, answers) {
            Ok((to, used)) => {
                push::settled_is_sound(state, rules, to, used);
                outcome_settles(state.settled(rules, to, used), rules, answers);
            },
            Err(_) => {},
        }
    }
}

/// Answers that are added do not change what was decided without them.
proof fn outcome_extends(
    state: PushState,
    rules: PushRules,
    answers: Seq<Option<Point>>,
    more: Seq<Option<Point>>,
)
    requires
        !(state.outcome(rules, answers) matches Pushed::Failed(fault) && fault is NeedsPosition),
    ensures
        state.outcome(rules, answers + more) == state.outcome(rules, answers),
    decreases rules.limit - state.operations,
{
    if state.queue.len() > 0 && state.operations < rules.limit {
        assert(state.decision(rules, answers + more) == state.decision(rules, answers));
        match state.decision(rules, answers) {
            Ok((to, used)) => {
                outcome_extends(state.settled(rules, to, used), rules, answers, more);
            },
            Err(_) => {},
        }
    }
}

/// The rules by which windows are pushed away from `source`.
pub open spec fn rules_for(
    gap: i64,
    limit: usize,
    tiled: Map<u64, TiledWindow>,
    source: WindowId,
    fallback: Direction,
) -> PushRules {
    PushRules { gap, limit, source_center: tiled[source.0].geometry.middle(), fallback }
}

/// Whether every answer that is used when windows are pushed away from `source` is clear of
/// the obstacles of its question.
pub open spec fn answers_are_clear(
    gap: i64,
    limit: usize,
    tiled: Map<u64, TiledWindow>,
    source: WindowId,
    fallback: Direction,
    answers: Seq<Option<Point>>,
    used: nat,
) -> bool {
    let rules = rules_for(gap, limit, tiled, source, fallback);
    PushState::start(rules, tiled, source.0, used).well_answered(rules, answers)
}

/// Pushing keeps all windows and their sizes, and the source keeps its place.
pub proof fn pushing_keeps(
    gap: i64,
    limit: usize,
    tiled: Map<u64, TiledWindow>,
    source: WindowId,
    fallback: Direction,
    answers: Seq<Option<Point>>,
    used: nat,
)
    requires
        tiled.dom().finite(),
        push::pushed_apart(gap, limit, tiled, source, fallback, answers, used) is Settled,
    ensures
        same_windows(
            tiled,
            push::pushed_apart(gap, limit, tiled, source, fallback, answers, used)->tiled,
        ),
        push::pushed_apart(gap, limit, tiled, source, fallback, answers, used)->tiled[source.0]
            == tiled[source.0],
{
    let rules = rules_for(gap, limit, tiled, source, fallback);
    let start = PushState::start(rules, tiled, source.0, used);
    push::start_is_sound(rules, tiled, source.0, used);
    outcome_keeps(start, rules, answers);
    assert(start.locked.contains(source.0));
}

/// Where windows have been pushed away from `source`, every window that was free of conflicts
/// still is, and so are the source and all windows that have moved. All windows keep their
/// sizes, and the source keeps its place.
pub proof fn pushing_frees(
    gap: i64,
    limit: usize,
    tiled: Map<u64, TiledWindow>,
    source: WindowId,
    fallback: Direction,
    answers: Seq<Option<Point>>,
    used: nat,
)
    requires
        tiled.dom().finite(),
        answers_are_clear(gap, limit, tiled, source, fallback, answers, used),
        push::pushed_apart(gap, limit, tiled, source, fallback, answers, used) is Settled,
    ensures
        ({
            let after = push::pushed_apart(
                gap,
                limit,
                tiled,
                source,
                fallback,
                answers,
                used,
            )->tiled;
            &&& same_windows(tiled, after)
            &&& after[source.0] == tiled[source.0]
            &&& free(after, source.0, gap as int)
            &&& forall|id: u64| #[trigger]
                tiled.contains_key(id) && free(tiled, id, gap as int) ==> free(
                    after,
                    id,
                    gap as int,
                )
            &&& forall|id: u64| #[trigger]
                tiled.contains_key(id) && after[id] != tiled[id] ==> free(after, id, gap as int)
        }),
{
    let rules = rules_for(gap, limit, tiled, source, fallback);
    let start = PushState::start(rules, tiled, source.0, used);
    push::start_is_sound(rules, tiled, source.0, used);
    assert(start.contained(gap as int)) by {
        push::joining_members(tiled, source.0, start.locked, Seq::empty(), gap as int);
        assert forall|a: u64, b: u64|
            start.locked.contains(a) && start.tiled.contains_key(b) && a != b
                && !start.queue.contains(b) implies !(#[trigger] start.tiled[a])
            .geometry.conflicting((#[trigger] start.tiled[b]).geometry, gap as int) by {
            assert(!start.queue.to_set().contains(b));
        }
    }
    let moved = outcome_frees(start, rules, answers, tiled);
    outcome_keeps(start, rules, answers);
    let after = start.outcome(rules, answers)->tiled;
    assert(start.locked.contains(source.0));
    assert(moved.contains(source.0));
    assert forall|id: u64| #[trigger]
        tiled.contains_key(id) && free(tiled, id, gap as int) implies free(
        after,
        id,
        gap as int,
    ) by {
        if !moved.contains(id) {
            assert forall|b: u64| #[trigger]
                after.contains_key(b) && b != id implies !after[id].geometry.conflicting(
                after[b].geometry,
                gap as int,
            ) by {
                assert(tiled.contains_key(b));
                if moved.contains(b) {
                    assert(free(after, b, gap as int));
                    assert(after.contains_key(id));
                    after[b].geometry.conflict_is_symmetric(after[id].geometry, gap as int);
                }
            }
        }
    }
}

/// Where all windows but the source were apart before, all are apart when the source has
/// pushed them.
pub proof fn pushing_stabilizes(
    gap: i64,
    limit: usize,
    tiled: Map<u64, TiledWindow>,
    source: WindowId,
    fallback: Direction,
    answers: Seq<Option<Point>>,
    used: nat,
)
    requires
        tiled.dom().finite(),
        workspace::tiles_stable(tiled.remove(source.0), gap as int),
        answers_are_clear(gap, limit, tiled, source, fallback, answers, used),
        push::pushed_apart(gap, limit, tiled, source, fallback, answers, used) is Settled,
    ensures
        workspace::tiles_stable(
            push::pushed_apart(gap, limit, tiled, source, fallback, answers, used)->tiled,
            gap as int,
        ),
{
    pushing_frees(gap, limit, tiled, source, fallback, answers, used);
    let after = push::pushed_apart(gap, limit, tiled, source, fallback, answers, used)->tiled;
    let others = tiled.remove(source.0);
    assert forall|a: u64, b: u64| #[trigger]
        after.contains_key(a) && #[trigger] after.contains_key(b) && a
            != b implies !after[a].geometry.conflicting(after[b].geometry, gap as int) by {
        assert(tiled.contains_key(a) && tiled.contains_key(b));
        after[b].geometry.conflict_is_symmetric(after[a].geometry, gap as int);
        if a == source.0 || after[a] != tiled[a] {
            assert(free(after, a, gap as int));
        } else if b == source.0 || after[b] != tiled[b] {
            assert(free(after, b, gap as int));
        } else {
            assert(others.contains_key(a) && others.contains_key(b));
            assert(others[a] == tiled[a] && others[b] == tiled[b]);
        }
    }
}

/// Pushing ends: where the limit allows for every window but the source, and every answer is a
/// place, it settles, or it asks for one more answer and has then used fewer than there are
/// windows.
pub proof fn pushing_ends(
    gap: i64,
    limit: usize,
    tiled: Map<u64, TiledWindow>,
    source: WindowId,
    fallback: Direction,
    answers: Seq<Option<Point>>,
    used: nat,
)
    requires
        tiled.dom().finite(),
        tiled.contains_key(source.0),
        tiled.dom().len() <= limit + 1,
        forall|i: int| used <= i < answers.len() ==> #[trigger] answers[i] is Some,
    ensures
        match push::pushed_apart(gap, limit, tiled, source, fallback, answers, used) {
            Pushed::Settled { used: count, .. } => used <= count < used + tiled.dom().len(),
            Pushed::Failed(fault) => fault is NeedsPosition && answers.len() + 1 < used
                + tiled.dom().len(),
        },
{
    let rules = rules_for(gap, limit, tiled, source, fallback);
    let start = PushState::start(rules, tiled, source.0, used);
    push::start_is_sound(rules, tiled, source.0, used);
    outcome_settles(start, rules, answers);
    if start.outcome(rules, answers) is Settled {
        outcome_keeps(start, rules, answers);
    }
}

/// Answers that are added do not change an outcome that did not ask for more.
pub proof fn more_answers_change_nothing(
    gap: i64,
    limit: usize,
    tiled: Map<u64, TiledWindow>,
    source: WindowId,
    fallback: Direction,
    answers: Seq<Option<Point>>,
    more: Seq<Option<Point>>,
    used: nat,
)
    requires
        !(push::pushed_apart(gap, limit, tiled, source, fallback, answers, used) matches
            Pushed::Failed(fault) && fault is NeedsPosition),
    ensures
        push::pushed_apart(gap, limit, tiled, source, fallback, answers + more, used)
            == push::pushed_apart(gap, limit, tiled, source, fallback, answers, used),
{
    if tiled.contains_key(source.0) {
        let rules = rules_for(gap, limit, tiled, source, fallback);
        let start = PushState::start(rules, tiled, source.0, used);
        outcome_extends(start, rules, answers, more);
    }
}

} // verus!
