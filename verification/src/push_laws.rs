//! In which order windows are pushed, which of them, and where to.

use crate::geometry::{Direction, Point, Rect};
use crate::layout;
use crate::layout::Movement;
use crate::model::{TiledWindow, WindowId};
use crate::push;
use crate::push::{PushRules, PushState, Pushed};
use crate::ranking;
use crate::stability;
use vstd::math::abs;
use vstd::prelude::*;

verus! {

/// Of two windows that join the queue because of the same window, the one whose centre is nearer to
/// the centre of that window is queued first, and of two equally near ones that of the smaller id.
/// So a window that is no farther on either axis, and nearer on one, is always queued first.
pub proof fn nearer_windows_are_queued_first(
    tiled: Map<u64, TiledWindow>,
    pivot: u64,
    locked: Set<u64>,
    queue: Seq<u64>,
    gap: int,
    i: int,
    j: int,
)
    requires
        tiled.dom().finite(),
        0 <= i < push::joining(tiled, pivot, locked, queue, gap).len(),
        0 <= j < push::joining(tiled, pivot, locked, queue, gap).len(),
    ensures
        ({
            let list = push::joining(tiled, pivot, locked, queue, gap);
            let p = tiled[pivot].geometry.middle();
            let a = tiled[list[i]].geometry.middle();
            let b = tiled[list[j]].geometry.middle();
            let near = (a.x - p.x) * (a.x - p.x) + (a.y - p.y) * (a.y - p.y);
            let far = (b.x - p.x) * (b.x - p.x) + (b.y - p.y) * (b.y - p.y);
            &&& near < far ==> i < j
            &&& near == far && list[i] < list[j] ==> i < j
            &&& abs(a.x - p.x) <= abs(b.x - p.x) && abs(a.y - p.y) <= abs(b.y - p.y) && (abs(
                a.x - p.x,
            ) < abs(b.x - p.x) || abs(a.y - p.y) < abs(b.y - p.y)) ==> i < j
        }),
{
    let list = push::joining(tiled, pivot, locked, queue, gap);
    let p = tiled[pivot].geometry.middle();
    let a = tiled[list[i]].geometry.middle();
    let b = tiled[list[j]].geometry.middle();
    let key = push::remoteness(tiled, p);
    ranking::ranking_ranks(
        push::conflicting_ids(tiled, tiled[pivot].geometry, locked, queue, gap),
        key,
    );
    if j < i {
        assert(ranking::precedes(key(list[j]), list[j], key(list[i]), list[i]));
    }
    if abs(a.x - p.x) <= abs(b.x - p.x) && abs(a.y - p.y) <= abs(b.y - p.y) && (abs(a.x - p.x)
        < abs(b.x - p.x) || abs(a.y - p.y) < abs(b.y - p.y)) {
        let (ax, bx, ay, by) = (a.x - p.x, b.x - p.x, a.y - p.y, b.y - p.y);
        assert(ax * ax + ay * ay < bx * bx + by * by) by (nonlinear_arith)
            requires
                abs(ax) <= abs(bx),
                abs(ay) <= abs(by),
                abs(ax) < abs(bx) || abs(ay) < abs(by),
        ;
    }
}

/// Windows are pushed in turn: what waits keeps its order and is dealt with before all that joins
/// later. To begin with, just the windows that conflict with the source wait; a window that has got
/// its place makes those wait that conflict with it there and neither wait nor have a place yet.
pub proof fn windows_wait_their_turn(
    rules: PushRules,
    tiled: Map<u64, TiledWindow>,
    source: u64,
    state: PushState,
    to: Rect,
    used: nat,
)
    requires
        tiled.dom().finite(),
        tiled.contains_key(source),
        state.sound(),
        state.queue.len() > 0,
    ensures
        ({
            let first = PushState::start(rules, tiled, source, used).queue;
            let next = state.settled(rules, to, used);
            let waiting = (state.queue.len() - 1) as int;
            &&& forall|id: u64| #[trigger]
                first.contains(id) <==> tiled.contains_key(id) && id != source
                    && tiled[source].geometry.conflicting(tiled[id].geometry, rules.gap as int)
            &&& waiting <= next.queue.len()
            &&& forall|i: int| 0 <= i < waiting ==> #[trigger] next.queue[i] == state.queue[i + 1]
            &&& forall|i: int|
                waiting <= i < next.queue.len() ==> next.tiled.contains_key(#[trigger] next.queue[i])
                    && next.queue[i] != state.queue[0] && !state.locked.contains(next.queue[i])
                    && to.conflicting(next.tiled[next.queue[i]].geometry, rules.gap as int)
            &&& forall|id: u64| #[trigger]
                next.tiled.contains_key(id) && id != state.queue[0] && !state.locked.contains(id)
                    && to.conflicting(next.tiled[id].geometry, rules.gap as int)
                    ==> next.queue.contains(id)
            &&& next.tiled[state.queue[0]].geometry == to
            &&& forall|id: u64|
                id != state.queue[0] ==> (#[trigger] next.tiled.contains_key(id)
                    <==> state.tiled.contains_key(id)) && next.tiled[id] == state.tiled[id]
        }),
{
    let gap = rules.gap as int;
    let locked = Set::<u64>::empty().insert(source);
    push::joining_members(tiled, source, locked, Seq::empty(), gap);
    let first = PushState::start(rules, tiled, source, used).queue;
    assert forall|id: u64| #[trigger]
        first.contains(id) <==> tiled.contains_key(id) && id != source
            && tiled[source].geometry.conflicting(tiled[id].geometry, gap) by {
        assert(first.to_set().contains(id) <==> first.contains(id));
    }
    let next = state.settled(rules, to, used);
    let id = state.queue[0];
    let rest = state.queue.drop_first();
    push::settled_is_sound(state, rules, to, used);
    push::joining_members(next.tiled, id, next.locked, rest, gap);
    let more = push::joining(next.tiled, id, next.locked, rest, gap);
    let waiting = (state.queue.len() - 1) as int;
    assert forall|i: int| waiting <= i < next.queue.len() implies next.tiled.contains_key(
        #[trigger] next.queue[i],
    ) && next.queue[i] != id && !state.locked.contains(next.queue[i]) && to.conflicting(
        next.tiled[next.queue[i]].geometry,
        gap,
    ) by {
        assert(next.queue[i] == more[i - waiting]);
        assert(more.contains(next.queue[i]));
    }
    assert forall|x: u64| #[trigger]
        next.tiled.contains_key(x) && x != id && !state.locked.contains(x) && to.conflicting(
            next.tiled[x].geometry,
            gap,
        ) implies next.queue.contains(x) by {
        if rest.contains(x) {
            let k = choose|k: int| 0 <= k < rest.len() && rest[k] == x;
            assert(next.queue[k] == x);
        } else {
            assert(more.to_set().contains(x));
            let k = choose|k: int| 0 <= k < more.len() && more[k] == x;
            assert(next.queue[k + rest.len()] == x);
        }
    }
}

/// What a question has to ask about, whichever window it is: one that is where it was, and that
/// conflicts there with a window that has its place.
spec fn asks_rightly(
    question: layout::PushView,
    before: Map<u64, TiledWindow>,
    rules: PushRules,
    source: Rect,
) -> bool {
    &&& before.contains_key(question.window.0)
    &&& question.rect == before[question.window.0].geometry
    &&& question.center == before[question.window.0].geometry.middle()
    &&& question.source_center == rules.source_center
    &&& question.fallback == rules.fallback
    &&& question.gap == rules.gap
    &&& question.obstacles.contains(source)
    &&& exists|k: int|
        0 <= k < question.obstacles.len() && question.rect.conflicting(
            #[trigger] question.obstacles[k],
            rules.gap as int,
        )
}

proof fn questions_of_states(
    state: PushState,
    rules: PushRules,
    answers: Seq<Option<Point>>,
    before: Map<u64, TiledWindow>,
    source: u64,
)
    requires
        state.sound(),
        state.locked.contains(source),
        state.tiled.dom() == before.dom(),
        forall|id: u64| #[trigger]
            state.tiled.contains_key(id) && !state.locked.contains(id) ==> state.tiled[id]
                == before[id],
    ensures
        state.outcome(rules, answers) matches Pushed::Failed(
            layout::LayoutFault::NeedsPosition(question),
        ) ==> asks_rightly(question, before, rules, state.tiled[source].geometry),
    decreases rules.limit - state.operations,
{
    if state.queue.len() > 0 && state.operations < rules.limit {
        match state.decision(rules, answers) {
            Ok((to, used)) => {
                push::settled_is_sound(state, rules, to, used);
                let next = state.settled(rules, to, used);
                assert(state.queue[0] != source);
                questions_of_states(next, rules, answers, before, source);
            },
            Err(fault) => {
                if let layout::LayoutFault::NeedsPosition(question) = fault {
                    let ids = ranking::ascending(state.locked);
                    vstd::set_lib::lemma_set_subset_finite(state.tiled.dom(), state.locked);
                    ranking::ranking_ranks(state.locked, |id: u64| 0);
                    assert(ids.to_set().contains(source));
                    let k = choose|k: int| 0 <= k < ids.len() && ids[k] == source;
                    assert(question.obstacles[k] == state.tiled[source].geometry);
                }
            },
        }
    }
}

/// A question asks for a place of a window that has not been moved yet and conflicts, where it is,
/// with a window that has its place. It tells where the window and the source have their centres,
/// what the window must stay clear of, the source among it, and by how much. The first question
/// that pushing asks is about the window that is nearest to the source of all that conflict with
/// it, and of equally near ones about that with the smallest id.
pub proof fn questions_are_about_conflicts(
    gap: i64,
    limit: usize,
    tiled: Map<u64, TiledWindow>,
    source: WindowId,
    fallback: Direction,
    answers: Seq<Option<Point>>,
    used: nat,
    question: layout::PushView,
)
    requires
        tiled.dom().finite(),
        push::pushed_apart(gap, limit, tiled, source, fallback, answers, used) == Pushed::Failed(
            layout::LayoutFault::NeedsPosition(question),
        ),
    ensures
        tiled.contains_key(question.window.0),
        question.window != source,
        question.rect == tiled[question.window.0].geometry,
        question.center == tiled[question.window.0].geometry.middle(),
        question.source_center == tiled[source.0].geometry.middle(),
        question.fallback == fallback,
        question.gap == gap,
        question.obstacles.contains(tiled[source.0].geometry),
        exists|k: int|
            0 <= k < question.obstacles.len() && question.rect.conflicting(
                #[trigger] question.obstacles[k],
                gap as int,
            ),
        used == answers.len() ==> {
            &&& question.obstacles == seq![tiled[source.0].geometry]
            &&& question.rect.conflicting(tiled[source.0].geometry, gap as int)
            &&& forall|id: u64| #[trigger]
                tiled.contains_key(id) && id != source.0 && id != question.window.0
                    && tiled[source.0].geometry.conflicting(tiled[id].geometry, gap as int) ==> {
                    let p = tiled[source.0].geometry.middle();
                    let a = question.rect.middle();
                    let b = tiled[id].geometry.middle();
                    let near = (a.x - p.x) * (a.x - p.x) + (a.y - p.y) * (a.y - p.y);
                    let far = (b.x - p.x) * (b.x - p.x) + (b.y - p.y) * (b.y - p.y);
                    near < far || (near == far && question.window.0 < id)
                }
        },
{
    let rules = stability::rules_for(gap, limit, tiled, source, fallback);
    let start = PushState::start(rules, tiled, source.0, used);
    push::start_is_sound(rules, tiled, source.0, used);
    assert(start.locked.contains(source.0));
    questions_of_states(start, rules, answers, tiled, source.0);
    question_is_not_of_the_source(start, rules, answers, source.0);
    if used == answers.len() {
        let id = start.queue[0];
        let locked = start.locked;
        push::joining_members(tiled, source.0, locked, Seq::empty(), gap as int);
        assert(start.queue.contains(id));
        ranking::ranking_ranks(locked, |id: u64| 0);
        let ids = ranking::ascending(locked);
        assert(ids =~= seq![source.0]) by {
            assert(ids.to_set().contains(source.0));
            let k = choose|k: int| 0 <= k < ids.len() && ids[k] == source.0;
            assert forall|i: int| 0 <= i < ids.len() implies ids[i] == source.0 by {
                assert(ids.to_set().contains(ids[i]));
            }
            assert(ids.len() == 1) by {
                if ids.len() > 1 {
                    assert(ids[0] == ids[1]);
                }
            }
        }
        let rects = push::rects_of(tiled, locked);
        assert(rects =~= seq![tiled[source.0].geometry]);
        tiled[id].geometry.conflict_is_symmetric(tiled[source.0].geometry, gap as int);
        assert(!start.stays(rules)) by {
            assert(tiled[id].geometry.conflicting(rects[0], gap as int));
        }
        assert(start.decision(rules, answers) == Err::<(Rect, nat), layout::LayoutFault>(
            layout::LayoutFault::NeedsPosition(start.question(rules)),
        )) by {
            assert(answers.len() == used);
        }
        if start.operations < limit {
            assert(question == start.question(rules));
        }
        assert forall|other: u64| #[trigger]
            tiled.contains_key(other) && other != source.0 && other != question.window.0
                && tiled[source.0].geometry.conflicting(tiled[other].geometry, gap as int) implies {
            let p = tiled[source.0].geometry.middle();
            let a = question.rect.middle();
            let b = tiled[other].geometry.middle();
            let near = (a.x - p.x) * (a.x - p.x) + (a.y - p.y) * (a.y - p.y);
            let far = (b.x - p.x) * (b.x - p.x) + (b.y - p.y) * (b.y - p.y);
            near < far || (near == far && question.window.0 < other)
        } by {
            assert(start.queue.to_set().contains(other));
            let j = choose|j: int| 0 <= j < start.queue.len() && start.queue[j] == other;
            nearer_windows_are_queued_first(
                tiled,
                source.0,
                locked,
                Seq::empty(),
                gap as int,
                j,
                0,
            );
        }
    }
}

proof fn question_is_not_of_the_source(
    state: PushState,
    rules: PushRules,
    answers: Seq<Option<Point>>,
    source: u64,
)
    requires
        state.sound(),
        state.locked.contains(source),
    ensures
        state.outcome(rules, answers) matches Pushed::Failed(
            layout::LayoutFault::NeedsPosition(question),
        ) ==> question.window.0 != source,
    decreases rules.limit - state.operations,
{
    if state.queue.len() > 0 && state.operations < rules.limit {
        match state.decision(rules, answers) {
            Ok((to, used)) => {
                push::settled_is_sound(state, rules, to, used);
                question_is_not_of_the_source(
                    state.settled(rules, to, used),
                    rules,
                    answers,
                    source,
                );
            },
            Err(_) => {},
        }
    }
}

/// Whether movements tell what has changed between two layouts.
spec fn tell_what_moved(
    movements: Seq<Movement>,
    before: Map<u64, TiledWindow>,
    after: Map<u64, TiledWindow>,
) -> bool {
    &&& forall|i: int|
        0 <= i < movements.len() ==> after.contains_key((#[trigger] movements[i]).window.0)
            && movements[i].from == before[movements[i].window.0].geometry.origin && movements[i].to
            == after[movements[i].window.0].geometry.origin && movements[i].from != movements[i].to
    &&& forall|id: u64| #[trigger]
        after.contains_key(id) && after[id] != before[id] ==> exists|i: int|
            0 <= i < movements.len() && (#[trigger] movements[i]).window.0 == id
}

/// Whether what has moved between two layouts had to: where it was, it conflicts with a window of
/// the new layout.
spec fn moved_for_a_reason(
    before: Map<u64, TiledWindow>,
    after: Map<u64, TiledWindow>,
    gap: int,
) -> bool {
    forall|id: u64| #[trigger]
        after.contains_key(id) && after[id] != before[id] ==> exists|other: u64| #[trigger]
            after.contains_key(other) && other != id && before[id].geometry.conflicting(
                after[other].geometry,
                gap,
            )
}

/// Whether each window that has moved is where an answer put it.
spec fn moved_to_answers(
    before: Map<u64, TiledWindow>,
    after: Map<u64, TiledWindow>,
    answers: Seq<Option<Point>>,
) -> bool {
    forall|id: u64| #[trigger]
        after.contains_key(id) && after[id] != before[id] ==> exists|k: int|
            0 <= k < answers.len() && #[trigger] answers[k] == Some(after[id].geometry.origin)
}

/// Where a window that cannot stay was, it conflicts with one that has its place.
proof fn moving_has_a_reason(state: PushState, rules: PushRules)
    requires
        state.sound(),
        state.queue.len() > 0,
        !state.stays(rules),
    ensures
        exists|other: u64| #[trigger]
            state.locked.contains(other) && state.tiled[state.queue[0]].geometry.conflicting(
                state.tiled[other].geometry,
                rules.gap as int,
            ),
{
    let rects = push::rects_of(state.tiled, state.locked);
    let rect = state.tiled[state.queue[0]].geometry;
    vstd::set_lib::lemma_set_subset_finite(state.tiled.dom(), state.locked);
    ranking::ranking_ranks(state.locked, |id: u64| 0);
    let ids = ranking::ascending(state.locked);
    let k = choose|k: int|
        0 <= k < rects.len() && rect.conflicting(#[trigger] rects[k], rules.gap as int);
    assert(ids.to_set().contains(ids[k]));
    assert(state.locked.contains(ids[k]));
}

proof fn outcome_moves_rightly(
    state: PushState,
    rules: PushRules,
    answers: Seq<Option<Point>>,
    before: Map<u64, TiledWindow>,
)
    requires
        state.sound(),
        state.tiled.dom() == before.dom(),
        state.outcome(rules, answers) is Settled,
        forall|id: u64| #[trigger]
            state.tiled.contains_key(id) && !state.locked.contains(id) ==> state.tiled[id]
                == before[id],
        tell_what_moved(state.movements, before, state.tiled),
        forall|id: u64| #[trigger]
            state.tiled.contains_key(id) && state.tiled[id] != before[id] ==> exists|
                other: u64,
            | #[trigger]
                state.locked.contains(other) && other != id && before[id].geometry.conflicting(
                    state.tiled[other].geometry,
                    rules.gap as int,
                ),
        moved_to_answers(before, state.tiled, answers),
    ensures
        ({
            let after = state.outcome(rules, answers)->tiled;
            &&& after.dom() == before.dom()
            &&& tell_what_moved(state.outcome(rules, answers)->movements, before, after)
            &&& moved_for_a_reason(before, after, rules.gap as int)
            &&& moved_to_answers(before, after, answers)
        }),
    decreases rules.limit - state.operations,
{
    let gap = rules.gap as int;
    if state.queue.len() == 0 {
        assert forall|id: u64| #[trigger]
            state.tiled.contains_key(id) && state.tiled[id] != before[id] implies exists|
            other: u64,
        | #[trigger]
            state.tiled.contains_key(other) && other != id && before[id].geometry.conflicting(
                state.tiled[other].geometry,
                gap,
            ) by {
            let other = choose|other: u64| #[trigger]
                state.locked.contains(other) && other != id && before[id].geometry.conflicting(
                    state.tiled[other].geometry,
                    gap,
                );
            assert(state.tiled.contains_key(other));
        }
    } else {
        let (to, used) = state.decision(rules, answers)->Ok_0;
        let next = state.settled(rules, to, used);
        let id = state.queue[0];
        push::settled_is_sound(state, rules, to, used);
        assert(state.tiled[id] == before[id]);
        assert(next.tiled[id] != before[id] ==> next.tiled[id].geometry.origin
            != before[id].geometry.origin);
        assert(tell_what_moved(next.movements, before, next.tiled)) by {
            assert forall|i: int| 0 <= i < next.movements.len() implies next.tiled.contains_key(
                (#[trigger] next.movements[i]).window.0,
            ) && next.movements[i].from == before[next.movements[i].window.0].geometry.origin
                && next.movements[i].to
                == next.tiled[next.movements[i].window.0].geometry.origin
                && next.movements[i].from != next.movements[i].to by {
                if i < state.movements.len() {
                    assert(next.movements[i] == state.movements[i]);
                    let w = state.movements[i].window.0;
                    assert(state.tiled[w] != before[w]);
                }
            }
            assert forall|w: u64| #[trigger]
                next.tiled.contains_key(w) && next.tiled[w] != before[w] implies exists|i: int|
                0 <= i < next.movements.len() && (#[trigger] next.movements[i]).window.0 == w by {
                if w == id {
                    assert(next.movements[state.movements.len() as int].window.0 == w);
                } else {
                    assert(state.tiled.contains_key(w));
                    let i = choose|i: int|
                        0 <= i < state.movements.len() && (#[trigger] state.movements[i]).window.0
                            == w;
                    assert(next.movements[i] == state.movements[i]);
                }
            }
        }
        assert forall|w: u64| #[trigger]
            next.tiled.contains_key(w) && next.tiled[w] != before[w] implies exists|
            other: u64,
        | #[trigger]
            next.locked.contains(other) && other != w && before[w].geometry.conflicting(
                next.tiled[other].geometry,
                gap,
            ) by {
            if w == id {
                moving_has_a_reason(state, rules);
                let other = choose|other: u64| #[trigger]
                    state.locked.contains(other) && state.tiled[id].geometry.conflicting(
                        state.tiled[other].geometry,
                        gap,
                    );
                assert(next.locked.contains(other));
            } else {
                assert(state.tiled.contains_key(w));
                let other = choose|other: u64| #[trigger]
                    state.locked.contains(other) && other != w && before[w].geometry.conflicting(
                        state.tiled[other].geometry,
                        gap,
                    );
                assert(next.locked.contains(other));
            }
        }
        assert(moved_to_answers(before, next.tiled, answers)) by {
            assert forall|w: u64| #[trigger]
                next.tiled.contains_key(w) && next.tiled[w] != before[w] implies exists|k: int|
                0 <= k < answers.len() && #[trigger] answers[k] == Some(
                    next.tiled[w].geometry.origin,
                ) by {
                if w == id {
                    assert(answers[state.used as int] == Some(next.tiled[w].geometry.origin));
                } else {
                    assert(state.tiled.contains_key(w));
                    let k = choose|k: int|
                        0 <= k < answers.len() && #[trigger] answers[k] == Some(
                            state.tiled[w].geometry.origin,
                        );
                    assert(answers[k] == Some(next.tiled[w].geometry.origin));
                }
            }
        }
        outcome_moves_rightly(next, rules, answers, before);
    }
}

/// Pushing moves no window without a reason: one that has moved conflicts, where it was, with
/// another where that is now. It is where an answer put it. The movements tell of every window that
/// has moved, and of no other, where it was and where it is.
pub proof fn pushing_moves_what_conflicts(
    gap: i64,
    limit: usize,
    tiled: Map<u64, TiledWindow>,
    source: WindowId,
    fallback: Direction,
    answers: Seq<Option<Point>>,
    used: nat,
)
    requires
        tiled.dom().finite(),
        push::pushed_apart(gap, limit, tiled, source, fallback, answers, used) is Settled,
    ensures
        ({
            let pushed = push::pushed_apart(gap, limit, tiled, source, fallback, answers, used);
            let after = pushed->tiled;
            let movements = pushed->movements;
            &&& after.dom() == tiled.dom()
            &&& forall|id: u64| #[trigger]
                after.contains_key(id) && after[id] != tiled[id] ==> exists|other: u64| #[trigger]
                    after.contains_key(other) && other != id && tiled[id].geometry.conflicting(
                        after[other].geometry,
                        gap as int,
                    )
            &&& forall|id: u64| #[trigger]
                after.contains_key(id) && after[id] != tiled[id] ==> exists|k: int|
                    0 <= k < answers.len() && #[trigger] answers[k] == Some(
                        after[id].geometry.origin,
                    )
            &&& forall|i: int|
                0 <= i < movements.len() ==> after.contains_key((#[trigger] movements[i]).window.0)
                    && movements[i].from == tiled[movements[i].window.0].geometry.origin
                    && movements[i].to == after[movements[i].window.0].geometry.origin
                    && movements[i].from != movements[i].to
            &&& forall|id: u64| #[trigger]
                after.contains_key(id) && after[id] != tiled[id] ==> exists|i: int|
                    0 <= i < movements.len() && (#[trigger] movements[i]).window.0 == id
        }),
{
    let rules = stability::rules_for(gap, limit, tiled, source, fallback);
    let start = PushState::start(rules, tiled, source.0, used);
    push::start_is_sound(rules, tiled, source.0, used);
    outcome_moves_rightly(start, rules, answers, tiled);
}

} // verus!
