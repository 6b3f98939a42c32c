//! What transactions and new settings leave behind, and what is told of it.

use crate::desktop;
use crate::directional_focus::FocusScore;
use crate::geometry::{Direction, Point, Rect, Size};
use crate::layout;
use crate::layout::{Movement, WindowTransaction};
use crate::model;
use crate::model::{CameraPolicy, TiledWindow, WindowId, WindowMode, WorkspaceId};
use crate::push;
use crate::push::Pushed;
use crate::ranking;
use crate::survival;
use crate::viewport;
use crate::workspace;
use vstd::prelude::*;

verus! {

/// Whether a movement is the first of its window in a list.
pub open spec fn first_of_its_window(movements: Seq<Movement>, i: int) -> bool {
    &&& 0 <= i < movements.len()
    &&& forall|j: int| 0 <= j < i ==> (#[trigger] movements[j]).window != movements[i].window
}

/// Whether movements are in the order of their windows, one for each.
pub open spec fn in_window_order(list: Seq<Movement>) -> bool {
    forall|i: int, j: int|
        0 <= i < j < list.len() ==> (#[trigger] list[i]).window.0 < (#[trigger] list[j]).window.0
}

/// Whether a list has a movement of a window.
pub open spec fn moves(list: Seq<Movement>, window: WindowId) -> bool {
    exists|i: int| 0 <= i < list.len() && (#[trigger] list[i]).window == window
}

proof fn arranging_one(list: Seq<Movement>, movement: Movement)
    requires
        in_window_order(list),
    ensures
        in_window_order(layout::arranged_with(list, movement)),
        forall|x: Movement| #[trigger]
            layout::arranged_with(list, movement).contains(x) <==> list.contains(x) || (x
                == movement && !moves(list, movement.window)),
    decreases list.len(),
{
    let after = layout::arranged_with(list, movement);
    if list.len() == 0 {
        assert(after[0] == movement);
    } else if list.last().window == movement.window {
        assert(list[list.len() - 1].window == movement.window);
    } else if list.last().window.0 < movement.window.0 {
        assert(!moves(list, movement.window)) by {
            if moves(list, movement.window) {
                let i = choose|i: int|
                    0 <= i < list.len() && (#[trigger] list[i]).window == movement.window;
                if i < list.len() - 1 {
                    assert(list[i].window.0 < list[list.len() - 1].window.0);
                }
            }
        }
        assert forall|x: Movement| #[trigger] after.contains(x) <==> list.contains(x) || x
            == movement by {
            if after.contains(x) {
                let i = after.index_of(x);
                if i < list.len() {
                    assert(list[i] == x);
                }
            }
            if list.contains(x) {
                let i = list.index_of(x);
                assert(after[i] == x);
            }
            assert(after[list.len() as int] == movement);
        }
        assert(in_window_order(after)) by {
            assert forall|i: int, j: int| 0 <= i < j < after.len() implies (
            #[trigger] after[i]).window.0 < (#[trigger] after[j]).window.0 by {
                assert(after[i] == list[i]);
                if j == list.len() && i < list.len() - 1 {
                    assert(list[i].window.0 < list[list.len() - 1].window.0);
                }
            }
        }
    } else {
        let rest = list.drop_last();
        let last = list.last();
        let head = layout::arranged_with(rest, movement);
        assert(in_window_order(rest)) by {
            assert forall|i: int, j: int| 0 <= i < j < rest.len() implies (
            #[trigger] rest[i]).window.0 < (#[trigger] rest[j]).window.0 by {
                assert(rest[i] == list[i] && rest[j] == list[j]);
            }
        }
        arranging_one(rest, movement);
        assert(moves(rest, movement.window) == moves(list, movement.window)) by {
            if moves(list, movement.window) {
                let i = choose|i: int|
                    0 <= i < list.len() && (#[trigger] list[i]).window == movement.window;
                assert(rest[i].window == movement.window);
            }
            if moves(rest, movement.window) {
                let i = choose|i: int|
                    0 <= i < rest.len() && (#[trigger] rest[i]).window == movement.window;
                assert(list[i].window == movement.window);
            }
        }
        assert forall|x: Movement| #[trigger] after.contains(x) <==> list.contains(x) || (x
            == movement && !moves(list, movement.window)) by {
            assert(list.contains(x) <==> rest.contains(x) || x == last) by {
                if list.contains(x) {
                    let i = list.index_of(x);
                    if i < rest.len() {
                        assert(rest[i] == x);
                    }
                }
                if rest.contains(x) {
                    let i = rest.index_of(x);
                    assert(list[i] == x);
                }
                assert(list[list.len() - 1] == last);
            }
            assert(after.contains(x) <==> head.contains(x) || x == last) by {
                if after.contains(x) {
                    let i = after.index_of(x);
                    if i < head.len() {
                        assert(head[i] == x);
                    }
                }
                if head.contains(x) {
                    let i = head.index_of(x);
                    assert(after[i] == x);
                }
                assert(after[head.len() as int] == last);
            }
            assert(head.contains(x) <==> rest.contains(x) || (x == movement && !moves(
                rest,
                movement.window,
            )));
        }
        assert(in_window_order(after)) by {
            assert forall|i: int, j: int| 0 <= i < j < after.len() implies (
            #[trigger] after[i]).window.0 < (#[trigger] after[j]).window.0 by {
                assert(after[i] == head[i]);
                if j < head.len() {
                    assert(after[j] == head[j]);
                } else {
                    assert(head.contains(head[i]));
                    if rest.contains(head[i]) {
                        let m = rest.index_of(head[i]);
                        assert(list[m].window.0 < list[list.len() - 1].window.0);
                    }
                }
            }
        }
    }
}

/// The movements that are told of come in the order of their windows, one for each window that
/// has moved: its first.
pub proof fn movements_are_told_once(movements: Seq<Movement>)
    ensures
        in_window_order(layout::arranged(movements)),
        forall|x: Movement| #[trigger]
            layout::arranged(movements).contains(x) <==> exists|i: int|
                first_of_its_window(movements, i) && #[trigger] movements[i] == x,
    decreases movements.len(),
{
    if movements.len() > 0 {
        let rest = movements.drop_last();
        let last = movements.last();
        let end = movements.len() - 1;
        movements_are_told_once(rest);
        arranging_one(layout::arranged(rest), last);
        let list = layout::arranged(rest);
        let after = layout::arranged(movements);
        assert(moves(list, last.window) <==> !first_of_its_window(movements, end)) by {
            if moves(list, last.window) {
                let i = choose|i: int|
                    0 <= i < list.len() && (#[trigger] list[i]).window == last.window;
                assert(list.contains(list[i]));
                let j = choose|j: int|
                    first_of_its_window(rest, j) && #[trigger] rest[j] == list[i];
                assert(movements[j].window == last.window);
            }
            if !first_of_its_window(movements, end) {
                let j = choose|j: int|
                    0 <= j < end && (#[trigger] movements[j]).window == last.window;
                let first = earliest_of(rest, j);
                assert(list.contains(rest[first]));
                let i = list.index_of(rest[first]);
                assert(list[i].window == last.window);
            }
        }
        assert forall|x: Movement| #[trigger] after.contains(x) <==> exists|i: int|
            first_of_its_window(movements, i) && #[trigger] movements[i] == x by {
            if after.contains(x) {
                if list.contains(x) {
                    let i = choose|i: int|
                        first_of_its_window(rest, i) && #[trigger] rest[i] == x;
                    assert forall|j: int| 0 <= j < i implies (#[trigger] movements[j]).window
                        != movements[i].window by {
                        assert(rest[j] == movements[j]);
                    }
                    assert(first_of_its_window(movements, i) && movements[i] == x);
                } else {
                    assert(first_of_its_window(movements, end) && movements[end] == x);
                }
            }
            if exists|i: int| first_of_its_window(movements, i) && #[trigger] movements[i] == x {
                let i = choose|i: int|
                    first_of_its_window(movements, i) && #[trigger] movements[i] == x;
                if i < end {
                    assert(rest[i] == x);
                    assert forall|j: int| 0 <= j < i implies (#[trigger] rest[j]).window
                        != rest[i].window by {
                        assert(rest[j] == movements[j]);
                    }
                    assert(first_of_its_window(rest, i));
                    assert(list.contains(x));
                }
            }
        }
    }
}

/// The first movement of the window that a movement is of.
proof fn earliest_of(movements: Seq<Movement>, at: int) -> (first: int)
    requires
        0 <= at < movements.len(),
    ensures
        first_of_its_window(movements, first),
        movements[first].window == movements[at].window,
    decreases at,
{
    if first_of_its_window(movements, at) {
        at
    } else {
        let j = choose|j: int|
            0 <= j < at && (#[trigger] movements[j]).window == movements[at].window;
        earliest_of(movements, j)
    }
}

/// Every transaction on a workspace makes a new generation of it, which the answer tells. A
/// window that is inserted, dropped or moved has the focus; what is inserted or dropped leaves
/// the direction it came with. The workspace keeps its id, its name, its home and its camera.
pub proof fn transactions_leave_their_mark(
    solver: layout::SolverView,
    ws: workspace::WorkspaceView,
    transaction: WindowTransaction,
    answers: Seq<Option<Point>>,
)
    requires
        solver.applied(ws, transaction, answers) is Ok,
    ensures
        ({
            let (after, delta) = solver.applied(ws, transaction, answers)->Ok_0;
            &&& ws.generation < u64::MAX ==> after.generation == ws.generation + 1
            &&& ws.generation == u64::MAX ==> after.generation == 0
            &&& delta.generation == after.generation
            &&& after.id == ws.id && after.name == ws.name && after.original_output
                == ws.original_output && after.camera == ws.camera
            &&& match transaction {
                WindowTransaction::InsertTiled { id, hint, .. } => delta.source == Some(id)
                    && after.focused_window == Some(id) && after.focus_history.last() == id
                    && after.layout_direction_hint == hint && after.floating == ws.floating
                    && after.maximized == ws.maximized && after.fullscreen == ws.fullscreen,
                WindowTransaction::MoveTiledFinished { id, hint, .. } => delta.source == Some(id)
                    && after.focused_window == Some(id) && after.focus_history.last() == id
                    && after.layout_direction_hint == hint && after.floating == ws.floating
                    && after.maximized == ws.maximized && after.fullscreen == ws.fullscreen,
                WindowTransaction::MoveFloating { id, .. } => delta.source is None
                    && after.focused_window == Some(id) && after.focus_history.last() == id
                    && after.layout_direction_hint == ws.layout_direction_hint && after.tiled
                    == ws.tiled && after.maximized == ws.maximized && after.fullscreen
                    == ws.fullscreen,
                WindowTransaction::SetMode { id, mode, .. } => delta.source == (if mode
                    == WindowMode::Tiled && ws.mode_of(id) != Some(WindowMode::Tiled) {
                    Some(id)
                } else {
                    None
                }) && after.layout_direction_hint == ws.layout_direction_hint && (ws.mode_of(id)
                    != Some(mode) ==> after.focused_window == Some(id)),
                WindowTransaction::Remove { id } => delta.source is None
                    && after.layout_direction_hint == ws.layout_direction_hint
                    && (ws.tiled.contains_key(id.0) ==> !after.tiled.contains_key(id.0)),
            }
        }),
{
}

proof fn nothing_joins(tiled: Map<u64, TiledWindow>, source: u64, gap: int)
    requires
        forall|id: u64| #[trigger]
            tiled.contains_key(id) && id != source ==> !tiled[source].geometry.conflicting(
                tiled[id].geometry,
                gap,
            ),
    ensures
        push::joining(tiled, source, Set::<u64>::empty().insert(source), Seq::empty(), gap).len()
            == 0,
{
    let locked = Set::<u64>::empty().insert(source);
    let ids = push::conflicting_ids(tiled, tiled[source].geometry, locked, Seq::empty(), gap);
    assert(ids =~= Set::<u64>::empty());
    ranking::ranking_ranks(ids, push::remoteness(tiled, tiled[source].geometry.middle()));
    let list = push::joining(tiled, source, locked, Seq::empty(), gap);
    if list.len() > 0 {
        assert(list.to_set().contains(list[0]));
    }
}

/// A window that is in nobody's way pushes nothing, and nobody is asked for a place.
pub proof fn windows_out_of_the_way_push_nothing(
    gap: i64,
    limit: usize,
    tiled: Map<u64, TiledWindow>,
    source: WindowId,
    fallback: Direction,
    answers: Seq<Option<Point>>,
    used: nat,
)
    requires
        tiled.contains_key(source.0),
        forall|id: u64| #[trigger]
            tiled.contains_key(id) && id != source.0 ==> !tiled[source.0].geometry.conflicting(
                tiled[id].geometry,
                gap as int,
            ),
    ensures
        push::pushed_apart(gap, limit, tiled, source, fallback, answers, used)
            == (Pushed::Settled { tiled, movements: Seq::empty(), used }),
{
    nothing_joins(tiled, source.0, gap as int);
}

proof fn settled_windows_stay(
    solver: layout::SolverView,
    tiled: Map<u64, TiledWindow>,
    ids: Seq<u64>,
    i: int,
    seed: Direction,
    answers: Seq<Option<Point>>,
    used: nat,
)
    requires
        workspace::tiles_stable(tiled, solver.gap as int),
        forall|j: int| 0 <= j < ids.len() ==> tiled.contains_key(#[trigger] ids[j]),
        0 <= i,
    ensures
        solver.pushed_in_turn(tiled, ids, i, seed, answers, used) == Ok::<
            (Map<u64, TiledWindow>, nat),
            layout::LayoutFault,
        >((tiled, used)),
    decreases ids.len() - i,
{
    if i < ids.len() {
        windows_out_of_the_way_push_nothing(
            solver.gap,
            solver.operation_limit,
            tiled,
            WindowId(ids[i]),
            seed,
            answers,
            used,
        );
        settled_windows_stay(solver, tiled, ids, i + 1, seed, answers, used);
    }
}

/// Windows that are far enough apart stay where they are when a workspace is laid out anew.
pub proof fn settled_layouts_stay(
    solver: layout::SolverView,
    ws: workspace::WorkspaceView,
    answers: Seq<Option<Point>>,
    used: nat,
)
    requires
        ws.tiled.dom().finite(),
        workspace::tiles_stable(ws.tiled, solver.gap as int),
    ensures
        solver.reflowed(ws, answers, used) is Ok,
        (solver.reflowed(ws, answers, used)->Ok_0).0.tiled == ws.tiled,
        (solver.reflowed(ws, answers, used)->Ok_0).1 == used,
{
    let ids = ranking::ascending(ws.tiled.dom());
    ranking::ranking_ranks(ws.tiled.dom(), |id: u64| 0);
    assert forall|j: int| 0 <= j < ids.len() implies ws.tiled.contains_key(#[trigger] ids[j]) by {
        assert(ids.to_set().contains(ids[j]));
    }
    settled_windows_stay(solver, ws.tiled, ids, 0, ws.layout_direction_hint, answers, used);
}

/// Whether two lists have workspaces of the same ids.
pub open spec fn same_ids(
    a: Seq<workspace::WorkspaceView>,
    b: Seq<workspace::WorkspaceView>,
) -> bool {
    &&& a.len() == b.len()
    &&& forall|i: int| 0 <= i < a.len() ==> (#[trigger] a[i]).id == b[i].id
}

/// Whether two desktops have workspaces of the same ids at the same places.
pub open spec fn same_places(a: desktop::DesktopView, b: desktop::DesktopView) -> bool {
    &&& a.outputs.dom() == b.outputs.dom()
    &&& forall|k: u64| #[trigger]
        a.outputs.contains_key(k) ==> same_ids(a.outputs[k].workspaces, b.outputs[k].workspaces)
            && a.outputs[k].output == b.outputs[k].output && a.outputs[k].active
            == b.outputs[k].active
    &&& same_ids(a.detached, b.detached)
}

proof fn first_places_agree(
    a: Seq<workspace::WorkspaceView>,
    b: Seq<workspace::WorkspaceView>,
    id: WorkspaceId,
)
    requires
        same_ids(a, b),
    ensures
        desktop::first_with_id(a, id) == desktop::first_with_id(b, id),
    decreases a.len(),
{
    if a.len() > 0 {
        assert(a.drop_last().len() == b.drop_last().len());
        assert forall|i: int| 0 <= i < a.drop_last().len() implies (#[trigger] a.drop_last()[i]).id
            == b.drop_last()[i].id by {
            assert(a[i].id == b[i].id);
        }
        first_places_agree(a.drop_last(), b.drop_last(), id);
        assert(a[a.len() - 1].id == b[a.len() - 1].id);
    }
}

proof fn places_among_agree(
    a: desktop::DesktopView,
    b: desktop::DesktopView,
    keys: Seq<u64>,
    n: int,
    id: WorkspaceId,
)
    requires
        same_places(a, b),
        n <= keys.len(),
        forall|i: int| 0 <= i < keys.len() ==> a.outputs.contains_key(#[trigger] keys[i]),
    ensures
        a.placed_among(keys, n, id) == b.placed_among(keys, n, id),
    decreases n,
{
    if n > 0 {
        places_among_agree(a, b, keys, n - 1, id);
        assert(a.outputs.contains_key(keys[n - 1]));
        first_places_agree(
            a.outputs[keys[n - 1]].workspaces,
            b.outputs[keys[n - 1]].workspaces,
            id,
        );
    }
}

proof fn places_agree(a: desktop::DesktopView, b: desktop::DesktopView, id: WorkspaceId)
    requires
        same_places(a, b),
        a.outputs.dom().finite(),
    ensures
        a.place(id) == b.place(id),
{
    let keys = a.keys();
    ranking::ranking_ranks(a.outputs.dom(), |id: u64| 0);
    assert forall|i: int| 0 <= i < keys.len() implies a.outputs.contains_key(#[trigger] keys[i]) by {
        assert(keys.to_set().contains(keys[i]));
    }
    places_among_agree(a, b, keys, keys.len() as int, id);
    first_places_agree(a.detached, b.detached, id);
}

proof fn replacing_keeps_places(
    d: desktop::DesktopView,
    before: desktop::DesktopView,
    place: (Option<u64>, int),
    ws: workspace::WorkspaceView,
)
    requires
        same_places(d, before),
        survival::known(before, place),
        ws.id == before.at(place).id,
    ensures
        same_places(d, before.with_at(place, ws)),
{
    let after = before.with_at(place, ws);
    assert(after.outputs.dom() =~= before.outputs.dom());
    assert forall|k: u64| #[trigger] d.outputs.contains_key(k) implies same_ids(
        d.outputs[k].workspaces,
        after.outputs[k].workspaces,
    ) && d.outputs[k].output == after.outputs[k].output && d.outputs[k].active
        == after.outputs[k].active by {
        assert(same_ids(d.outputs[k].workspaces, before.outputs[k].workspaces));
    }
}

/// Whether a workspace is as it was but for its tiled windows and its camera.
pub open spec fn kept(ws: workspace::WorkspaceView, after: workspace::WorkspaceView) -> bool {
    after.id == ws.id && after.name == ws.name && after.floating == ws.floating
        && after.focused_window == ws.focused_window && after.maximized == ws.maximized
        && after.fullscreen == ws.fullscreen
}

proof fn reflowing_resettles(
    d: desktop::DesktopView,
    all: Seq<workspace::WorkspaceView>,
    n: int,
    policy: CameraPolicy,
    answers: Seq<Option<Point>>,
)
    requires
        d.outputs.dom().finite(),
        n <= all.len(),
        d.reflowed(all, n, policy, answers) is Ok,
    ensures
        ({
            let after = (d.reflowed(all, n, policy, answers)->Ok_0).0;
            &&& after.solver == d.solver && after.primary_output == d.primary_output
            &&& same_places(d, after)
            &&& forall|place: (Option<u64>, int)| #[trigger]
                survival::known(d, place) ==> kept(d.at(place), after.at(place))
            &&& forall|m: int|
                0 <= m < n ==> d.place((#[trigger] all[m]).id) is Some && after.at(
                    d.place(all[m].id)->0,
                ).camera.policy == policy && workspace::tiles_stable(
                    after.at(d.place(all[m].id)->0).tiled,
                    d.solver.gap as int,
                )
        }),
    decreases n,
{
    if n > 0 {
        reflowing_resettles(d, all, n - 1, policy, answers);
        let (before, used) = d.reflowed(all, n - 1, policy, answers)->Ok_0;
        let (after, _) = d.reflowed(all, n, policy, answers)->Ok_0;
        let id = all[n - 1].id;
        places_agree(d, before, id);
        before.place_is_known(id);
        let place = before.place(id)->0;
        let seen = after.at(place);
        assert(survival::known(before, place));
        assert(after == before.with_at(place, seen));
        replacing_keeps_places(d, before, place, seen);
        assert(kept(before.at(place), seen));
        assert forall|other: (Option<u64>, int)| #[trigger] survival::known(d, other) implies kept(
            d.at(other),
            after.at(other),
        ) by {
            assert(kept(d.at(other), before.at(other)));
            if other != place {
                assert(after.at(other) == before.at(other));
            }
        }
        assert forall|m: int| 0 <= m < n implies d.place((#[trigger] all[m]).id) is Some
            && after.at(d.place(all[m].id)->0).camera.policy == policy && workspace::tiles_stable(
            after.at(d.place(all[m].id)->0).tiled,
            d.solver.gap as int,
        ) by {
            if m < n - 1 {
                let other = d.place(all[m].id)->0;
                d.place_is_known(all[m].id);
                assert(survival::known(d, other));
                if other != place {
                    assert(after.at(other) == before.at(other));
                }
            }
        }
    } else {
        assert(same_places(d, d));
    }
}

/// New settings reach every workspace: no two of its tiled windows are nearer than the new gap,
/// and its camera has the new policy. No workspace goes elsewhere, and everything that is not
/// tiled stays as it is.
pub proof fn new_settings_reach_every_workspace(
    d: desktop::DesktopView,
    gap: i64,
    policy: CameraPolicy,
    answers: Seq<Option<Point>>,
    m: int,
)
    requires
        d.outputs.dom().finite(),
        d.reconfigured(gap, policy, answers) is Ok,
        0 <= m < d.all().len(),
    ensures
        ({
            let after = d.reconfigured(gap, policy, answers)->Ok_0;
            let place = d.place(d.all()[m].id)->0;
            &&& after.solver.gap == (if gap < 0 {
                0
            } else {
                gap
            })
            &&& after.primary_output == d.primary_output
            &&& same_places(d, after)
            &&& d.place(d.all()[m].id) is Some
            &&& after.at(place).id == d.all()[m].id
            &&& after.at(place).camera.policy == policy
            &&& workspace::tiles_stable(after.at(place).tiled, after.solver.gap as int)
            &&& kept(d.at(place), after.at(place))
        }),
{
    let fresh = desktop::DesktopView { solver: layout::SolverView::with_gap(gap), ..d };
    let all = d.all();
    reflowing_resettles(fresh, all, all.len() as int, policy, answers);
    let id = all[m].id;
    assert(same_places(d, fresh));
    places_agree(d, fresh, id);
    d.place_is_known(id);
    let place = d.place(id)->0;
    assert(fresh.place(id) is Some);
    assert(survival::known(fresh, place));
    assert(fresh.at(place) == d.at(place));
}

/// What is laid out on an output is remembered for it: every floating window has its rectangle
/// kept under the key of the output. The camera follows the focus. A workspace without a name
/// that gets a window belongs to the output. Nothing else on the desktop changes.
pub proof fn layouts_are_remembered(
    d: desktop::DesktopView,
    place: (Option<u64>, int),
    transaction: WindowTransaction,
    ws: workspace::WorkspaceView,
)
    requires
        survival::known(d, place),
    ensures
        ({
            let after = d.laid_out(place, transaction, ws);
            let seen = after.at(place);
            &&& after.outputs.dom() == d.outputs.dom()
            &&& after.solver == d.solver && after.primary_output == d.primary_output
                && after.last_active == d.last_active
            &&& forall|other: (Option<u64>, int)| #[trigger]
                survival::known(d, other) && other != place ==> after.at(other) == d.at(other)
            &&& seen.tiled == ws.tiled && seen.focused_window == ws.focused_window && seen.id
                == ws.id && seen.name == ws.name
            &&& seen.floating.dom() == ws.floating.dom()
            &&& match place.0 {
                Some(k) => {
                    let output = d.outputs[k].output;
                    &&& forall|id: u64| #[trigger]
                        ws.floating.contains_key(id) ==> seen.floating[id].viewport.rect
                            == ws.floating[id].viewport.rect
                            && seen.floating[id].viewport.output_rects.contains_key(
                            output.stable_key,
                        )
                    &&& seen.camera.center == ws.followed_center(output.logical_size)
                    &&& after.outputs[k].active == d.outputs[k].active
                    &&& after.outputs[k].output == output
                    &&& seen.original_output == (if transaction is InsertTiled && ws.name is None {
                        Some(output.stable_key)
                    } else {
                        ws.original_output
                    })
                },
                None => seen == ws,
            }
        }),
{
    let after = d.laid_out(place, transaction, ws);
    assert(after.outputs.dom() =~= d.outputs.dom());
    let seen = after.at(place);
    match place.0 {
        Some(k) => {
            let output = d.outputs[k].output;
            let stored = ws.changed(
                viewport::ChangeView::Store { key: output.stable_key, size: output.logical_size },
            );
            assert(stored.floating.dom() =~= ws.floating.dom());
            assert(seen.floating == stored.floating);
            assert(stored.followed_center(output.logical_size) == ws.followed_center(
                output.logical_size,
            ));
        },
        None => {},
    }
}

/// The focus that moves in a direction goes to a window of the workspace, and the others
/// remember what had it. Only from a tiled window does the direction stay as a hint. Nothing
/// else moves but the camera, which follows.
pub proof fn the_focus_moves_in_its_workspace(
    d: desktop::DesktopView,
    workspace: WorkspaceId,
    hint: Direction,
    scores: Seq<Option<FocusScore>>,
)
    requires
        d.outputs.dom().finite(),
        d.focused_toward(workspace, hint, scores) is Ok,
    ensures
        ({
            let (after, target) = d.focused_toward(workspace, hint, scores)->Ok_0;
            let place = d.place(workspace)->0;
            let ws = d.at(place);
            let seen = after.at(place);
            &&& target is None ==> after == d
            &&& target matches Some(window) ==> {
                &&& ws.has(window) ==> seen.focused_window == Some(window)
                    && seen.focus_history.last() == window
                &&& seen.tiled == ws.tiled && seen.floating == ws.floating && seen.maximized
                    == ws.maximized && seen.fullscreen == ws.fullscreen && seen.id == workspace
                &&& seen.layout_direction_hint == (if ws.tiled.contains_key(
                    (ws.focused_window->0).0,
                ) {
                    hint
                } else {
                    ws.layout_direction_hint
                })
                &&& seen.camera.policy == ws.camera.policy
                &&& place.0 is None ==> seen.camera == ws.camera
                &&& place.0 matches Some(k) ==> seen.camera.center == ws.focused(
                    window,
                ).followed_center(d.outputs[k].output.logical_size)
                &&& forall|other: (Option<u64>, int)| #[trigger]
                    survival::known(d, other) && other != place ==> after.at(other) == d.at(other)
            }
        }),
{
    d.place_is_known(workspace);
}

/// A floating window that is moved is remembered where it was on other outputs, and a window that
/// becomes fullscreen remembers how it was: tiled, floating or maximized.
pub proof fn former_places_are_remembered(
    solver: layout::SolverView,
    ws: workspace::WorkspaceView,
    id: WindowId,
    target: Rect,
    size: Size,
    answers: Seq<Option<Point>>,
)
    ensures
        solver.applied(
            ws,
            WindowTransaction::MoveFloating { id, target, viewport_size: size },
            answers,
        ) matches Ok((after, _)) ==> after.floating[id.0].viewport.output_rects
            == ws.floating[id.0].viewport.output_rects && after.floating[id.0].window
            == ws.floating[id.0].window,
        solver.applied(
            ws,
            WindowTransaction::SetMode { id, mode: WindowMode::Fullscreen, viewport_size: size },
            answers,
        ) matches Ok((after, _)) ==> after.is_fullscreen(id) && (ws.mode_of(id) != Some(
            WindowMode::Fullscreen,
        ) ==> ({
            let restore = after.fullscreen->0.restore;
            &&& restore is Tiled <==> ws.tiled.contains_key(id.0)
            &&& restore is Maximized <==> !ws.tiled.contains_key(id.0)
                && !ws.floating.contains_key(id.0)
            &&& restore matches model::FullscreenRestoreView::Tiled { world_rect } ==> world_rect
                == ws.tiled[id.0].geometry
            &&& restore matches model::FullscreenRestoreView::Floating { viewport } ==> viewport
                == ws.floating[id.0].viewport
            &&& restore matches model::FullscreenRestoreView::Maximized { restore } ==> restore
                == ws.maximized->0.restore
        })),
{
}

} // verus!
