//! Pushing windows apart.
//!
//! One window, the source, has been put at its place. Every window that conflicts with it is
//! queued, the nearest first. A window that is taken from the queue gets a place that is clear
//! of all the windows that are locked, the source and those taken before it; then it is locked,
//! and the windows that it conflicts with are queued in turn. No window is taken twice, so the
//! queue runs empty.

use crate::geometry::{Direction, Point, Rect};
use crate::id_map;
use crate::id_map::{IdMap, IdSet};
use crate::layout;
use crate::layout::{LayoutError, Movement, Push};
use crate::model::{TiledWindow, WindowId};
use crate::ranking;
use crate::ranking::RankedIds;
use vstd::prelude::*;

verus! {

/// What stays the same while windows are pushed.
#[derive(Clone, Copy)]
pub struct PushRules {
    /// How far apart windows stay.
    pub gap: i64,
    /// How many windows may be pushed.
    pub limit: usize,
    /// Where the source has its centre.
    pub source_center: Point,
    /// Which way to go from there where no other direction is given.
    pub fallback: Direction,
}

#[verifier::ext_equal]
pub struct PushState {
    pub tiled: Map<u64, TiledWindow>,
    pub locked: Set<u64>,
    pub queue: Seq<u64>,
    pub movements: Seq<Movement>,
    /// How many windows have been taken from the queue.
    pub operations: nat,
    /// How many answers have been used.
    pub used: nat,
}

/// How pushing ends: with all windows at their places, or with a failure.
#[verifier::ext_equal]
pub enum Pushed {
    Settled { tiled: Map<u64, TiledWindow>, movements: Seq<Movement>, used: nat },
    Failed(layout::LayoutFault),
}

pub open spec fn square_distance(a: Point, b: Point) -> int {
    (a.x - b.x) * (a.x - b.x) + (a.y - b.y) * (a.y - b.y)
}

/// The square of how far each window's centre is from a point.
pub open spec fn remoteness(tiled: Map<u64, TiledWindow>, center: Point) -> spec_fn(u64) -> int {
    |id: u64| square_distance(tiled[id].geometry.middle(), center)
}

/// The windows that conflict with `pivot` and are neither locked nor queued.
pub open spec fn conflicting_ids(
    tiled: Map<u64, TiledWindow>,
    pivot: Rect,
    locked: Set<u64>,
    queue: Seq<u64>,
    gap: int,
) -> Set<u64> {
    tiled.dom().filter(
        |id: u64|
            !locked.contains(id) && !queue.contains(id) && pivot.conflicting(
                tiled[id].geometry,
                gap,
            ),
    )
}

/// The windows that join the queue because of a conflict with the window `pivot`.
pub open spec fn joining(
    tiled: Map<u64, TiledWindow>,
    pivot: u64,
    locked: Set<u64>,
    queue: Seq<u64>,
    gap: int,
) -> Seq<u64> {
    let rect = tiled[pivot].geometry;
    ranking::ranking(
        conflicting_ids(tiled, rect, locked, queue, gap),
        remoteness(tiled, rect.middle()),
    )
}

/// The rectangles of the locked windows, in the order of their ids.
pub open spec fn rects_of(tiled: Map<u64, TiledWindow>, locked: Set<u64>) -> Seq<Rect> {
    Seq::new(
        ranking::ascending(locked).len(),
        |i: int| tiled[ranking::ascending(locked)[i]].geometry,
    )
}

/// Whether a rectangle conflicts with none of the obstacles.
pub open spec fn clear(rect: Rect, obstacles: Seq<Rect>, gap: int) -> bool {
    forall|i: int| 0 <= i < obstacles.len() ==> !rect.conflicting(#[trigger] obstacles[i], gap)
}

impl PushState {
    /// The start: the source is locked, and what conflicts with it is queued.
    pub open spec fn start(rules: PushRules, tiled: Map<u64, TiledWindow>, source: u64, used: nat) -> Self {
        let locked = Set::<u64>::empty().insert(source);
        PushState {
            tiled,
            locked,
            queue: joining(tiled, source, locked, Seq::empty(), rules.gap as int),
            movements: Seq::empty(),
            operations: 0,
            used,
        }
    }

    /// The question that the first window of the queue poses.
    pub open spec fn question(self, rules: PushRules) -> layout::PushView {
        let id = self.queue[0];
        let rect = self.tiled[id].geometry;
        layout::PushView {
            window: WindowId(id),
            rect,
            source_center: rules.source_center,
            center: rect.middle(),
            fallback: rules.fallback,
            gap: rules.gap,
            obstacles: rects_of(self.tiled, self.locked),
        }
    }

    /// Whether the first window of the queue can stay where it is.
    pub open spec fn stays(self, rules: PushRules) -> bool {
        clear(
            self.tiled[self.queue[0]].geometry,
            rects_of(self.tiled, self.locked),
            rules.gap as int,
        )
    }

    /// The state once the first window of the queue has got its place.
    pub open spec fn settled(self, rules: PushRules, to: Rect, used: nat) -> Self {
        let id = self.queue[0];
        let from = self.tiled[id].geometry;
        let tiled = self.tiled.insert(id, TiledWindow { geometry: to, ..self.tiled[id] });
        let locked = self.locked.insert(id);
        let rest = self.queue.drop_first();
        PushState {
            tiled,
            locked,
            queue: rest + joining(tiled, id, locked, rest, rules.gap as int),
            movements: if to.origin != from.origin {
                self.movements.push(
                    Movement { window: WindowId(id), from: from.origin, to: to.origin },
                )
            } else {
                self.movements
            },
            operations: self.operations + 1,
            used,
        }
    }

    /// Where the first window of the queue goes, and how many answers are then used. A window
    /// that cannot stay goes to the next answer; `None` as an answer says that its ray has no
    /// clear place.
    pub open spec fn decision(self, rules: PushRules, answers: Seq<Option<Point>>) -> Result<
        (Rect, nat),
        layout::LayoutFault,
    > {
        let rect = self.tiled[self.queue[0]].geometry;
        if self.stays(rules) {
            Ok((rect, self.used))
        } else if self.used >= answers.len() {
            Err(layout::LayoutFault::NeedsPosition(self.question(rules)))
        } else {
            match answers[self.used as int] {
                None => Err(layout::LayoutFault::DidNotConverge(rules.limit as int)),
                Some(to) => Ok((rect.moved_to(to), self.used + 1)),
            }
        }
    }

    /// How pushing goes on from this state.
    pub open spec fn outcome(self, rules: PushRules, answers: Seq<Option<Point>>) -> Pushed
        decreases rules.limit - self.operations,
    {
        if self.queue.len() == 0 {
            Pushed::Settled { tiled: self.tiled, movements: self.movements, used: self.used }
        } else if self.operations >= rules.limit {
            Pushed::Failed(layout::LayoutFault::DidNotConverge(self.operations as int + 1))
        } else {
            match self.decision(rules, answers) {
                Err(fault) => Pushed::Failed(fault),
                Ok((to, used)) => self.settled(rules, to, used).outcome(rules, answers),
            }
        }
    }

    /// What holds of every state: the queue has no window twice and none that is locked.
    pub open spec fn sound(self) -> bool {
        &&& self.tiled.dom().finite()
        &&& self.locked.subset_of(self.tiled.dom())
        &&& self.locked.len() == self.operations + 1
        &&& self.queue.no_duplicates()
        &&& forall|i: int|
            0 <= i < self.queue.len() ==> self.tiled.contains_key(#[trigger] self.queue[i])
                && !self.locked.contains(self.queue[i])
    }
}

/// How pushing windows away from `source` ends.
pub open spec fn pushed_apart(
    gap: i64,
    limit: usize,
    tiled: Map<u64, TiledWindow>,
    source: WindowId,
    fallback: Direction,
    answers: Seq<Option<Point>>,
    used: nat,
) -> Pushed {
    if !tiled.contains_key(source.0) {
        Pushed::Failed(layout::LayoutFault::UnknownWindow(source))
    } else {
        let rules = PushRules {
            gap,
            limit,
            source_center: tiled[source.0].geometry.middle(),
            fallback,
        };
        PushState::start(rules, tiled, source.0, used).outcome(rules, answers)
    }
}

pub proof fn joining_members(
    tiled: Map<u64, TiledWindow>,
    pivot: u64,
    locked: Set<u64>,
    queue: Seq<u64>,
    gap: int,
)
    requires
        tiled.dom().finite(),
    ensures
        joining(tiled, pivot, locked, queue, gap).to_set() == conflicting_ids(
            tiled,
            tiled[pivot].geometry,
            locked,
            queue,
            gap,
        ),
        joining(tiled, pivot, locked, queue, gap).no_duplicates(),
        forall|id: u64| #[trigger]
            joining(tiled, pivot, locked, queue, gap).contains(id) ==> tiled.contains_key(id)
                && !locked.contains(id) && !queue.contains(id)
                && tiled[pivot].geometry.conflicting(tiled[id].geometry, gap),
{
    let rect = tiled[pivot].geometry;
    let ids = conflicting_ids(tiled, rect, locked, queue, gap);
    ranking::ranking_ranks(ids, remoteness(tiled, rect.middle()));
    let s = joining(tiled, pivot, locked, queue, gap);
    assert forall|id: u64| #[trigger] s.contains(id) implies ids.contains(id) by {
        assert(s.to_set().contains(id));
    }
}

/// The start is sound.
pub proof fn start_is_sound(rules: PushRules, tiled: Map<u64, TiledWindow>, source: u64, used: nat)
    requires
        tiled.dom().finite(),
        tiled.contains_key(source),
    ensures
        PushState::start(rules, tiled, source, used).sound(),
{
    let st = PushState::start(rules, tiled, source, used);
    joining_members(tiled, source, st.locked, Seq::empty(), rules.gap as int);
    assert forall|i: int| 0 <= i < st.queue.len() implies st.tiled.contains_key(
        #[trigger] st.queue[i],
    ) && !st.locked.contains(st.queue[i]) by {
        assert(st.queue.contains(st.queue[i]));
    }
}

/// A sound state stays sound.
pub proof fn settled_is_sound(st: PushState, rules: PushRules, to: Rect, used: nat)
    requires
        st.sound(),
        st.queue.len() > 0,
    ensures
        st.settled(rules, to, used).sound(),
        st.settled(rules, to, used).tiled.dom() == st.tiled.dom(),
{
    let id = st.queue[0];
    let next = st.settled(rules, to, used);
    let rest = st.queue.drop_first();
    assert(next.tiled.dom() =~= st.tiled.dom());
    vstd::set_lib::lemma_set_subset_finite(st.tiled.dom(), st.locked);
    joining_members(next.tiled, id, next.locked, rest, rules.gap as int);
    let more = joining(next.tiled, id, next.locked, rest, rules.gap as int);
    assert forall|i: int| 0 <= i < next.queue.len() implies next.tiled.contains_key(
        #[trigger] next.queue[i],
    ) && !next.locked.contains(next.queue[i]) by {
        if i < rest.len() {
            assert(next.queue[i] == st.queue[i + 1]);
            assert(st.queue[0] != st.queue[i + 1]);
        } else {
            assert(next.queue[i] == more[i - rest.len()]);
            assert(more.contains(next.queue[i]));
        }
    }
    assert(next.queue.no_duplicates()) by {
        assert forall|i: int, j: int| 0 <= i < j < next.queue.len() implies next.queue[i]
            != next.queue[j] by {
            if j < rest.len() {
                assert(next.queue[i] == st.queue[i + 1] && next.queue[j] == st.queue[j + 1]);
            } else {
                assert(next.queue[j] == more[j - rest.len()]);
                assert(more.contains(next.queue[j]));
                if i < rest.len() {
                    assert(next.queue[i] == rest[i]);
                    assert(rest.contains(rest[i]));
                } else {
                    assert(next.queue[i] == more[i - rest.len()]);
                }
            }
        }
    }
}

fn gap_between(a: i64, b: i64) -> (r: u128)
    ensures
        r == layout::distance(a as int, b as int),
        r * r == (a - b) * (a - b),
        r * r <= u128::MAX,
{
    let r: u128 = if a < b {
        (b as i128 - a as i128) as u128
    } else {
        (a as i128 - b as i128) as u128
    };
    assert(r * r == (a - b) * (a - b)) by (nonlinear_arith)
        requires
            r == a - b || r == b - a,
    ;
    assert(r * r <= u128::MAX) by (nonlinear_arith)
        requires
            r <= 0xffff_ffff_ffff_ffff,
    ;
    r
}

fn measure(a: Point, b: Point) -> (r: (bool, u128))
    ensures
        ranking::wide(r) == square_distance(a, b),
{
    let dx: u128 = gap_between(a.x, b.x);
    let dy: u128 = gap_between(a.y, b.y);
    let xx: u128 = dx * dx;
    let yy: u128 = dy * dy;
    if xx > u128::MAX - yy {
        (true, xx - (u128::MAX - yy) - 1)
    } else {
        (false, xx + yy)
    }
}

/// The windows that join the queue because of a conflict with the window `pivot`.
fn find_joining(
    tiled: &IdMap<TiledWindow>,
    ids: &Vec<u64>,
    pivot: u64,
    locked: &IdSet,
    queued: &IdSet,
    gap: i64,
    Ghost(queue): Ghost<Seq<u64>>,
) -> (r: Vec<u64>)
    requires
        ids@.to_set() == tiled@.dom(),
        id_map::ascend(ids@),
        tiled@.contains_key(pivot),
        queued@ == queue.to_set(),
    ensures
        r@ == joining(tiled@, pivot, locked@, queue, gap as int),
{
    let rect: Rect = match tiled.get(pivot) {
        Some(window) => window.geometry,
        None => {
            return Vec::new();
        },
    };
    let center: Point = rect.center();
    let ghost key = remoteness(tiled@, center);
    let ghost wanted = conflicting_ids(tiled@, rect, locked@, queue, gap as int);
    let mut found: RankedIds = RankedIds::new();
    let mut i: usize = 0;
    proof {
        assert(found.ids().to_set() =~= wanted.intersect(ids@.take(0).to_set()));
    }
    while i < ids.len()
        invariant
            i <= ids@.len(),
            ids@.to_set() == tiled@.dom(),
            id_map::ascend(ids@),
            tiled@.contains_key(pivot),
            rect == tiled@[pivot].geometry,
            center == rect.middle(),
            key == remoteness(tiled@, center),
            wanted == conflicting_ids(tiled@, rect, locked@, queue, gap as int),
            queued@ == queue.to_set(),
            found.ranked_by(key),
            found.ids().to_set() == wanted.intersect(ids@.take(i as int).to_set()),
        decreases ids@.len() - i,
    {
        let id: u64 = ids[i];
        let ghost before = ids@.take(i as int);
        let ghost after = ids@.take(i + 1);
        proof {
            assert(ids@.to_set().contains(ids@[i as int]));
            assert(after =~= before.push(id));
            before.lemma_push_to_set_commute(id);
            assert(!before.contains(id));
        }
        let geometry: Rect = match tiled.get(id) {
            Some(window) => window.geometry,
            None => rect,
        };
        if !locked.contains(id) && !queued.contains(id) && rect.conflicts(geometry, gap) {
            let value: (bool, u128) = measure(geometry.center(), center);
            proof {
                assert(!found.ids().contains(id)) by {
                    if found.ids().contains(id) {
                        assert(found.ids().to_set().contains(id));
                        assert(before.to_set().contains(id));
                    }
                }
                assert(wanted.contains(id));
            }
            found.insert(value, id, Ghost(key));
            assert(found.ids().to_set() =~= wanted.intersect(after.to_set()));
        } else {
            proof {
                assert(!wanted.contains(id));
                assert(wanted.intersect(before.to_set()) =~= wanted.intersect(after.to_set()));
            }
        }
        i = i + 1;
    }
    proof {
        assert(ids@.take(i as int) =~= ids@);
        assert(wanted.intersect(ids@.to_set()) =~= wanted);
        found.is_the_ranking(key);
    }
    found.into_ids()
}

/// The rectangles of the locked windows, in the order of their ids.
fn locked_rects(tiled: &IdMap<TiledWindow>, locked: &IdSet) -> (r: Vec<Rect>)
    requires
        locked@.subset_of(tiled@.dom()),
    ensures
        r@ == rects_of(tiled@, locked@),
{
    let ids: Vec<u64> = locked.ids();
    let mut rects: Vec<Rect> = Vec::new();
    let mut i: usize = 0;
    while i < ids.len()
        invariant
            i <= ids@.len(),
            ids@ == ranking::ascending(locked@),
            ids@.to_set() == locked@,
            locked@.subset_of(tiled@.dom()),
            rects@ == rects_of(tiled@, locked@).take(i as int),
        decreases ids@.len() - i,
    {
        assert(ids@.to_set().contains(ids@[i as int]));
        match tiled.get(ids[i]) {
            Some(window) => {
                rects.push(window.geometry);
            },
            None => {},
        }
        i = i + 1;
        assert(rects@ =~= rects_of(tiled@, locked@).take(i as int));
    }
    assert(rects@ =~= rects_of(tiled@, locked@));
    rects
}

fn is_clear(rect: Rect, obstacles: &Vec<Rect>, gap: i64) -> (r: bool)
    ensures
        r == clear(rect, obstacles@, gap as int),
{
    let mut i: usize = 0;
    while i < obstacles.len()
        invariant
            i <= obstacles@.len(),
            forall|k: int|
                0 <= k < i ==> !rect.conflicting(#[trigger] obstacles@[k], gap as int),
        decreases obstacles@.len() - i,
    {
        if rect.conflicts(obstacles[i], gap) {
            return false;
        }
        i = i + 1;
    }
    true
}

/// Where a window that conflicts with a locked one goes, and how many answers are then used.
fn decide(
    rules: PushRules,
    tiled: &IdMap<TiledWindow>,
    locked: &IdSet,
    id: u64,
    rect: Rect,
    answers: &[Option<Point>],
    used: usize,
    Ghost(state): Ghost<PushState>,
) -> (r: Result<(Rect, usize), LayoutError>)
    requires
        used <= answers@.len(),
        locked@.subset_of(tiled@.dom()),
        state.tiled == tiled@,
        state.locked == locked@,
        state.used == used,
        state.queue.len() > 0,
        state.queue[0] == id,
        rect == tiled@[id].geometry,
    ensures
        match state.decision(rules, answers@) {
            Ok((to, count)) => r is Ok && r->Ok_0.0 == to && r->Ok_0.1 == count && count
                <= answers@.len(),
            Err(fault) => r is Err && r->Err_0@ == fault,
        },
{
    let obstacles: Vec<Rect> = locked_rects(tiled, locked);
    if is_clear(rect, &obstacles, rules.gap) {
        return Ok((rect, used));
    }
    if used >= answers.len() {
        return Err(
            LayoutError::NeedsPosition(
                Push {
                    window: WindowId(id),
                    rect,
                    source_center: rules.source_center,
                    center: rect.center(),
                    fallback: rules.fallback,
                    gap: rules.gap,
                    obstacles,
                },
            ),
        );
    }
    match answers[used] {
        Some(to) => Ok((rect.translated(to.x, to.y), used + 1)),
        None => Err(LayoutError::DidNotConverge(rules.limit)),
    }
}

/// Pushes windows away from `source` until none conflicts with a window that has been moved,
/// and returns the movements and how many answers have been used. The first `start` answers
/// count as used. Where it fails, the windows are left in between.
#[verifier::rlimit(60)]
pub fn push_apart(
    gap: i64,
    limit: usize,
    tiled: &mut IdMap<TiledWindow>,
    source: WindowId,
    fallback: Direction,
    answers: &[Option<Point>],
    start: usize,
) -> (r: Result<(Vec<Movement>, usize), LayoutError>)
    requires
        start <= answers@.len(),
    ensures
        match pushed_apart(gap, limit, old(tiled)@, source, fallback, answers@, start as nat) {
            Pushed::Settled { tiled: after, movements, used: count } => r is Ok && final(tiled)@
                == after && r->Ok_0.0@ == movements && r->Ok_0.1 == count && count
                <= answers@.len(),
            Pushed::Failed(fault) => r is Err && r->Err_0@ == fault,
        },
{
    let source_rect: Rect = match tiled.get(source.0) {
        Some(window) => window.geometry,
        None => {
            return Err(LayoutError::UnknownWindow(source));
        },
    };
    let rules = PushRules { gap, limit, source_center: source_rect.center(), fallback };
    proof {
        tiled.ids_are_finite();
    }
    let ids: Vec<u64> = tiled.keys();
    let mut locked: IdSet = IdSet::new();
    locked.insert(source.0);
    let mut queued: IdSet = IdSet::new();
    let ghost empty = Seq::<u64>::empty();
    assert(queued@ =~= empty.to_set());
    let mut queue: Vec<u64> = find_joining(
        &*tiled,
        &ids,
        source.0,
        &locked,
        &queued,
        gap,
        Ghost(empty),
    );
    let mut head: usize = 0;
    let mut movements: Vec<Movement> = Vec::new();
    let mut operations: usize = 0;
    let mut used: usize = start;
    let ghost mut state = PushState::start(rules, tiled@, source.0, used as nat);
    let ghost goal = state.outcome(rules, answers@);
    proof {
        start_is_sound(rules, tiled@, source.0, used as nat);
        assert(movements@ =~= state.movements);
    }
    mark_queued(&mut queued, &queue);
    proof {
        assert(queue@.skip(0) =~= queue@);
        assert(queued@ =~= state.queue.to_set());
    }
    while head < queue.len()
        invariant
            head <= queue@.len(),
            used <= answers@.len(),
            goal == pushed_apart(
                gap,
                limit,
                old(tiled)@,
                source,
                fallback,
                answers@,
                start as nat,
            ),
            rules == (PushRules {
                gap,
                limit,
                source_center: rules.source_center,
                fallback,
            }),
            state.sound(),
            state.outcome(rules, answers@) == goal,
            state.tiled == tiled@,
            state.locked == locked@,
            state.queue == queue@.skip(head as int),
            state.movements == movements@,
            state.operations == operations,
            state.used == used,
            queued@ == state.queue.to_set(),
            ids@.to_set() == tiled@.dom(),
            id_map::ascend(ids@),
        decreases tiled@.dom().len() - locked@.len(),
    {
        let id: u64 = queue[head];
        assert(state.queue[0] == id);
        proof {
            room_to_lock(state, ids@);
            assert(ids.len() == ids@.len());
        }
        if operations >= limit {
            return Err(LayoutError::DidNotConverge(operations + 1));
        }
        let window: TiledWindow = match tiled.get(id) {
            Some(window) => *window,
            None => {
                return Err(LayoutError::UnknownWindow(source));
            },
        };
        let rect: Rect = window.geometry;
        let moved: Rect = match decide(
            rules,
            &*tiled,
            &locked,
            id,
            rect,
            answers,
            used,
            Ghost(state),
        ) {
            Ok((to, count)) => {
                used = count;
                to
            },
            Err(error) => {
                return Err(error);
            },
        };
        let ghost next = state.settled(rules, moved, used as nat);
        proof {
            assert(next.outcome(rules, answers@) == goal);
            settled_is_sound(state, rules, moved, used as nat);
        }
        tiled.insert(id, TiledWindow { id: window.id, geometry: moved });
        locked.insert(id);
        head = head + 1;
        let ghost rest = queue@.skip(head as int);
        proof {
            assert(rest =~= state.queue.drop_first());
        }
        queued.remove(id);
        proof {
            unqueued(state.queue);
        }
        operations = operations + 1;
        if moved.origin != rect.origin {
            movements.push(
                Movement { window: WindowId(id), from: rect.origin, to: moved.origin },
            );
        }
        let mut more: Vec<u64> = find_joining(
            &*tiled,
            &ids,
            id,
            &locked,
            &queued,
            gap,
            Ghost(rest),
        );
        mark_queued(&mut queued, &more);
        let ghost queue_before = queue@;
        let ghost joined = more@;
        queue.append(&mut more);
        proof {
            assert(queue@.skip(head as int) =~= rest + joined);
            assert(queued@ =~= next.queue.to_set()) by {
                joined_set(rest, joined);
            }
            vstd::set_lib::lemma_set_subset_finite(state.tiled.dom(), state.locked);
            assert(!state.locked.contains(id));
            assert(next.locked.subset_of(next.tiled.dom()));
            vstd::set_lib::lemma_len_subset(next.locked, next.tiled.dom());
            state = next;
        }
    }
    proof {
        assert(state.queue.len() == 0);
    }
    Ok((movements, used))
}

/// Adds every id of a list to a set.
fn mark_queued(queued: &mut IdSet, ids: &Vec<u64>)
    ensures
        final(queued)@ == old(queued)@.union(ids@.to_set()),
{
    let mut i: usize = 0;
    assert(queued@ =~= queued@.union(ids@.take(0).to_set()));
    while i < ids.len()
        invariant
            i <= ids@.len(),
            queued@ == old(queued)@.union(ids@.take(i as int).to_set()),
        decreases ids@.len() - i,
    {
        proof {
            let before = ids@.take(i as int);
            assert(ids@.take(i + 1) =~= before.push(ids@[i as int]));
            before.lemma_push_to_set_commute(ids@[i as int]);
        }
        queued.insert(ids[i]);
        i = i + 1;
        assert(queued@ =~= old(queued)@.union(ids@.take(i as int).to_set()));
    }
    assert(ids@.take(i as int) =~= ids@);
}

proof fn joined_set(a: Seq<u64>, b: Seq<u64>)
    ensures
        (a + b).to_set() == a.to_set().union(b.to_set()),
{
    let s = a + b;
    assert forall|x: u64| a.to_set().union(b.to_set()).contains(x) implies s.to_set().contains(
        x,
    ) by {
        if a.to_set().contains(x) {
            let k = choose|k: int| 0 <= k < a.len() && a[k] == x;
            assert(s[k] == x);
        } else {
            let k = choose|k: int| 0 <= k < b.len() && b[k] == x;
            assert(s[k + a.len()] == x);
        }
    }
    assert forall|x: u64| s.to_set().contains(x) implies a.to_set().union(b.to_set()).contains(
        x,
    ) by {
        let k = choose|k: int| 0 <= k < s.len() && s[k] == x;
        if k < a.len() {
            assert(a[k] == x);
        } else {
            assert(b[k - a.len()] == x);
        }
    }
    assert(s.to_set() =~= a.to_set().union(b.to_set()));
}

/// Taking the first of distinct ids takes it out of their set.
proof fn unqueued(queue: Seq<u64>)
    requires
        queue.len() > 0,
        queue.no_duplicates(),
    ensures
        queue.drop_first().to_set() == queue.to_set().remove(queue[0]),
{
    let rest = queue.drop_first();
    assert forall|x: u64| queue.to_set().remove(queue[0]).contains(x) implies rest.to_set().contains(
        x,
    ) by {
        let k = choose|k: int| 0 <= k < queue.len() && queue[k] == x;
        assert(rest[k - 1] == x);
    }
    assert forall|x: u64| rest.to_set().contains(x) implies queue.to_set().remove(
        queue[0],
    ).contains(x) by {
        let k = choose|k: int| 0 <= k < rest.len() && rest[k] == x;
        assert(queue[k + 1] == x);
    }
    assert(rest.to_set() =~= queue.to_set().remove(queue[0]));
}

/// While a window is queued, fewer windows are locked than there are.
proof fn room_to_lock(state: PushState, ids: Seq<u64>)
    requires
        state.sound(),
        state.queue.len() > 0,
        ids.to_set() == state.tiled.dom(),
        id_map::ascend(ids),
    ensures
        state.operations + 1 < state.tiled.dom().len(),
        state.tiled.dom().len() == ids.len(),
{
    let id = state.queue[0];
    let more = state.locked.insert(id);
    vstd::set_lib::lemma_set_subset_finite(state.tiled.dom(), state.locked);
    assert(more.subset_of(state.tiled.dom()));
    vstd::set_lib::lemma_len_subset(more, state.tiled.dom());
    ids.unique_seq_to_set();
}

} // verus!
