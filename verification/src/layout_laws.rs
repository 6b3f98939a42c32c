//! What layout transactions keep and achieve.

use crate::geometry::{Direction, Point, Rect, Size};
use crate::layout;
use crate::layout::WindowTransaction;
use crate::model::{TiledWindow, WindowId, WindowMode};
use crate::push;
use crate::ranking;
use crate::rounding;
use crate::stability;
use crate::workspace;
use vstd::prelude::*;

verus! {

/// A layout that a transaction or a reflow has led to has no two windows in conflict.
pub proof fn results_are_stable(
    solver: layout::SolverView,
    ws: workspace::WorkspaceView,
    transaction: WindowTransaction,
    answers: Seq<Option<Point>>,
    used: nat,
)
    ensures
        solver.applied(ws, transaction, answers) matches Ok((after, _)) ==> after.stable(
            solver.gap as int,
        ),
        solver.reflowed(ws, answers, used) matches Ok((after, _)) ==> after.stable(
            solver.gap as int,
        ),
{
}

/// Whether every answer that a prepared transaction uses is clear of the obstacles of its
/// question.
pub open spec fn answered_clearly(
    solver: layout::SolverView,
    prepared: layout::PreparedView,
    answers: Seq<Option<Point>>,
) -> bool {
    prepared.source matches Some(source) ==> stability::answers_are_clear(
        solver.gap,
        solver.operation_limit,
        prepared.workspace.tiled,
        source,
        prepared.seed,
        answers,
        0,
    )
}

/// What a transaction prepares is stable but for the window that it pushes from.
proof fn prepared_is_stable(
    solver: layout::SolverView,
    ws: workspace::WorkspaceView,
    transaction: WindowTransaction,
)
    requires
        ws.tiled.dom().finite(),
        ws.stable(solver.gap as int),
        solver.prepared(ws, transaction) is Ok,
    ensures
        ({
            let prepared = solver.prepared(ws, transaction)->Ok_0;
            &&& prepared.workspace.tiled.dom().finite()
            &&& match prepared.source {
                None => prepared.workspace.stable(solver.gap as int),
                Some(source) => prepared.workspace.tiled.contains_key(source.0)
                    && workspace::tiles_stable(
                    prepared.workspace.tiled.remove(source.0),
                    solver.gap as int,
                ),
            }
        }),
{
    let gap = solver.gap as int;
    let prepared = solver.prepared(ws, transaction)->Ok_0;
    let tiled = prepared.workspace.tiled;
    let kept = match prepared.source {
        None => tiled,
        Some(source) => tiled.remove(source.0),
    };
    assert forall|a: u64| #[trigger] kept.contains_key(a) implies ws.tiled.contains_key(a)
        && kept[a] == ws.tiled[a] by {}
    assert forall|a: u64, b: u64| #[trigger]
        kept.contains_key(a) && #[trigger] kept.contains_key(b) && a
            != b implies !kept[a].geometry.conflicting(kept[b].geometry, gap) by {
        assert(ws.tiled.contains_key(a) && ws.tiled.contains_key(b));
    }
    match prepared.source {
        None => {
            assert(tiled.dom().subset_of(ws.tiled.dom()));
            vstd::set_lib::lemma_set_subset_finite(ws.tiled.dom(), tiled.dom());
        },
        Some(source) => {
            assert(tiled.dom().subset_of(ws.tiled.dom().insert(source.0)));
            vstd::set_lib::lemma_set_subset_finite(ws.tiled.dom().insert(source.0), tiled.dom());
        },
    }
}

/// On a stable layout a transaction that can be prepared succeeds, or asks for one more answer,
/// as long as its answers are clear places and the limit allows for all windows. No transaction
/// ever asks for as many answers as there are tiled windows.
pub proof fn valid_transactions_succeed(
    solver: layout::SolverView,
    ws: workspace::WorkspaceView,
    transaction: WindowTransaction,
    answers: Seq<Option<Point>>,
)
    requires
        ws.tiled.dom().finite(),
        ws.stable(solver.gap as int),
        ws.tiled.dom().len() <= solver.operation_limit,
        solver.prepared(ws, transaction) is Ok,
        answered_clearly(solver, solver.prepared(ws, transaction)->Ok_0, answers),
        forall|i: int| 0 <= i < answers.len() ==> #[trigger] answers[i] is Some,
    ensures
        match solver.applied(ws, transaction, answers) {
            Ok(_) => true,
            Err(fault) => fault is NeedsPosition && answers.len() < ws.tiled.dom().len(),
        },
{
    prepared_is_stable(solver, ws, transaction);
    let prepared = solver.prepared(ws, transaction)->Ok_0;
    let tiled = prepared.workspace.tiled;
    match prepared.source {
        None => {},
        Some(source) => {
            assert(tiled.dom().len() <= ws.tiled.dom().len() + 1) by {
                assert(tiled.dom().subset_of(ws.tiled.dom().insert(source.0)));
                vstd::set_lib::lemma_len_subset(tiled.dom(), ws.tiled.dom().insert(source.0));
            }
            stability::pushing_ends(
                solver.gap,
                solver.operation_limit,
                tiled,
                source,
                prepared.seed,
                answers,
                0,
            );
            let outcome = push::pushed_apart(
                solver.gap,
                solver.operation_limit,
                tiled,
                source,
                prepared.seed,
                answers,
                0,
            );
            if outcome is Settled {
                stability::pushing_stabilizes(
                    solver.gap,
                    solver.operation_limit,
                    tiled,
                    source,
                    prepared.seed,
                    answers,
                    0,
                );
            }
        },
    }
}

/// A transaction changes which windows a workspace has only by the window that it inserts or
/// removes, and leaves every other window its mode and its size.
pub proof fn other_windows_are_kept(
    solver: layout::SolverView,
    ws: workspace::WorkspaceView,
    transaction: WindowTransaction,
    answers: Seq<Option<Point>>,
    id: WindowId,
    other: WindowId,
)
    requires
        ws.tiled.dom().finite(),
        solver.applied(ws, transaction, answers) is Ok,
        id == (match transaction {
            WindowTransaction::InsertTiled { id, .. } => id,
            WindowTransaction::MoveTiledFinished { id, .. } => id,
            WindowTransaction::MoveFloating { id, .. } => id,
            WindowTransaction::SetMode { id, .. } => id,
            WindowTransaction::Remove { id } => id,
        }),
        other != id,
    ensures
        solver.applied(ws, transaction, answers)->Ok_0.0.mode_of(other) == ws.mode_of(other),
        solver.applied(ws, transaction, answers)->Ok_0.0.size_of(other) == ws.size_of(other),
{
    let prepared = solver.prepared(ws, transaction)->Ok_0;
    let tiled = prepared.workspace.tiled;
    assert(prepared.workspace.mode_of(other) == ws.mode_of(other));
    assert(prepared.workspace.size_of(other) == ws.size_of(other));
    match prepared.source {
        None => {},
        Some(source) => {
            assert(tiled.dom().subset_of(ws.tiled.dom().insert(source.0)));
            vstd::set_lib::lemma_set_subset_finite(ws.tiled.dom().insert(source.0), tiled.dom());
            stability::pushing_keeps(
                solver.gap,
                solver.operation_limit,
                tiled,
                source,
                prepared.seed,
                answers,
                0,
            );
            if tiled.contains_key(other.0) {
                assert(prepared.workspace.size_of(other) == Some(tiled[other.0].geometry.size));
            }
        },
    }
}

/// The window that pushes others stays where it was put: an inserted window around its anchor,
/// a dragged one where it snapped to.
pub proof fn pushing_window_stays(
    solver: layout::SolverView,
    ws: workspace::WorkspaceView,
    transaction: WindowTransaction,
    answers: Seq<Option<Point>>,
    source: WindowId,
)
    requires
        ws.tiled.dom().finite(),
        solver.applied(ws, transaction, answers) is Ok,
        solver.prepared(ws, transaction)->Ok_0.source == Some(source),
    ensures
        ({
            let after = solver.applied(ws, transaction, answers)->Ok_0.0;
            &&& after.tiled[source.0] == solver.prepared(
                ws,
                transaction,
            )->Ok_0.workspace.tiled[source.0]
            &&& after.focused_window == Some(source)
            &&& transaction matches WindowTransaction::InsertTiled { id, size, anchor, .. }
                ==> after.tiled[id.0].geometry == Rect::around(anchor, size)
            &&& transaction matches WindowTransaction::MoveTiledFinished { id, target, .. }
                ==> after.tiled[id.0].geometry == solver.snapped(
                ws.tiled,
                id.0,
                ws.tiled[id.0].geometry.moved_to(target),
            )
        }),
{
    let prepared = solver.prepared(ws, transaction)->Ok_0;
    let tiled = prepared.workspace.tiled;
    assert(tiled.dom().subset_of(ws.tiled.dom().insert(source.0)));
    vstd::set_lib::lemma_set_subset_finite(ws.tiled.dom().insert(source.0), tiled.dom());
    stability::pushing_keeps(
        solver.gap,
        solver.operation_limit,
        tiled,
        source,
        prepared.seed,
        answers,
        0,
    );
}

/// Only tiled windows take part in a layout: whatever a transaction pushes, the floating,
/// maximized and fullscreen places of other windows and the camera stay.
pub proof fn only_tiled_windows_are_pushed(
    solver: layout::SolverView,
    ws: workspace::WorkspaceView,
    transaction: WindowTransaction,
    answers: Seq<Option<Point>>,
)
    requires
        solver.applied(ws, transaction, answers) is Ok,
    ensures
        ({
            let prepared = solver.prepared(ws, transaction)->Ok_0.workspace;
            let after = solver.applied(ws, transaction, answers)->Ok_0.0;
            &&& after.floating == prepared.floating
            &&& after.maximized == prepared.maximized
            &&& after.fullscreen == prepared.fullscreen
            &&& after.camera == ws.camera
            &&& after.name == ws.name
            &&& after.original_output == ws.original_output
            &&& after.id == ws.id
        }),
{
}

/// Whether a window has one place in the workspace and not two, and its entry bears its id.
pub open spec fn placed_once(ws: workspace::WorkspaceView, id: WindowId) -> bool {
    &&& ws.tiled.contains_key(id.0) ==> ws.tiled[id.0].id == id && !ws.floating.contains_key(id.0)
    &&& ws.floating.contains_key(id.0) ==> ws.floating[id.0].window == id
    &&& ws.tiled.contains_key(id.0) || ws.floating.contains_key(id.0) ==> !ws.is_maximized(id)
        && !ws.is_fullscreen(id)
    &&& !(ws.is_maximized(id) && ws.is_fullscreen(id))
}

/// A window that becomes fullscreen and returns to its mode has the place that it had, whatever the
/// viewport is on either way. It has one mode all the time.
pub proof fn fullscreen_returns(
    ws: workspace::WorkspaceView,
    id: WindowId,
    there: Size,
    back_again: Size,
)
    requires
        ws.has(id),
        !ws.is_fullscreen(id),
        ws.fullscreen is None,
        placed_once(ws, id),
    ensures
        ({
            let full = ws.with_mode(id, WindowMode::Fullscreen, there)->Ok_0.0;
            let back = full.with_mode(id, ws.mode_of(id)->0, back_again)->Ok_0.0;
            &&& ws.with_mode(id, WindowMode::Fullscreen, there) is Ok
            &&& full.mode_of(id) == Some(WindowMode::Fullscreen)
            &&& placed_once(full, id)
            &&& full.with_mode(id, ws.mode_of(id)->0, back_again) is Ok
            &&& back.tiled == ws.tiled
            &&& back.floating == ws.floating
            &&& back.maximized == ws.maximized
            &&& back.fullscreen is None
            &&& back.mode_of(id) == ws.mode_of(id)
            &&& placed_once(back, id)
        }),
{
    let mode = ws.mode_of(id)->0;
    let full = ws.with_mode(id, WindowMode::Fullscreen, there)->Ok_0.0;
    let back = full.with_mode(id, mode, back_again)->Ok_0.0;
    assert(!ws.lifted(id).has(id));
    assert(full.mode_of(id) == Some(WindowMode::Fullscreen));
    assert(back.tiled =~= ws.tiled);
    assert(back.floating =~= ws.floating);
    assert(back.maximized =~= ws.maximized);
}

/// The same holds of the transactions that a workspace is told to carry out: a floating window has
/// its whole placement again, and a tiled one its rectangle, whichever others it pushes away.
pub proof fn fullscreen_transactions_return(
    solver: layout::SolverView,
    ws: workspace::WorkspaceView,
    id: WindowId,
    there: Size,
    back_again: Size,
    answers: Seq<Option<Point>>,
    more: Seq<Option<Point>>,
)
    requires
        ws.tiled.dom().finite(),
        ws.mode_of(id) == Some(WindowMode::Tiled) || ws.mode_of(id) == Some(WindowMode::Floating),
        ws.fullscreen is None,
        placed_once(ws, id),
        solver.applied(
            ws,
            WindowTransaction::SetMode {
                id,
                mode: WindowMode::Fullscreen,
                viewport_size: there,
            },
            answers,
        ) is Ok,
        solver.applied(
            solver.applied(
                ws,
                WindowTransaction::SetMode {
                    id,
                    mode: WindowMode::Fullscreen,
                    viewport_size: there,
                },
                answers,
            )->Ok_0.0,
            WindowTransaction::SetMode {
                id,
                mode: ws.mode_of(id)->0,
                viewport_size: back_again,
            },
            more,
        ) is Ok,
    ensures
        ({
            let full = solver.applied(
                ws,
                WindowTransaction::SetMode {
                    id,
                    mode: WindowMode::Fullscreen,
                    viewport_size: there,
                },
                answers,
            )->Ok_0.0;
            let back = solver.applied(
                full,
                WindowTransaction::SetMode {
                    id,
                    mode: ws.mode_of(id)->0,
                    viewport_size: back_again,
                },
                more,
            )->Ok_0.0;
            &&& full.mode_of(id) == Some(WindowMode::Fullscreen)
            &&& placed_once(full, id)
            &&& back.fullscreen is None
            &&& back.mode_of(id) == ws.mode_of(id)
            &&& placed_once(back, id)
            &&& ws.floating.contains_key(id.0) ==> back.floating[id.0] == ws.floating[id.0]
            &&& ws.tiled.contains_key(id.0) ==> back.tiled[id.0].geometry
                == ws.tiled[id.0].geometry
        }),
{
    let away = WindowTransaction::SetMode {
        id,
        mode: WindowMode::Fullscreen,
        viewport_size: there,
    };
    let full = solver.applied(ws, away, answers)->Ok_0.0;
    let mode = ws.mode_of(id)->0;
    let home = WindowTransaction::SetMode { id, mode, viewport_size: back_again };
    let back = solver.applied(full, home, more)->Ok_0.0;
    assert(!ws.lifted(id).has(id));
    assert(full.mode_of(id) == Some(WindowMode::Fullscreen));
    assert(full.tiled.dom().subset_of(ws.tiled.dom()));
    vstd::set_lib::lemma_set_subset_finite(ws.tiled.dom(), full.tiled.dom());
    if mode == WindowMode::Tiled {
        pushing_window_stays(solver, full, home, more, id);
        let prepared = solver.prepared(full, home)->Ok_0;
        assert(prepared.workspace.tiled[id.0].geometry == ws.tiled[id.0].geometry);
        assert(prepared.workspace.tiled.dom() =~= full.tiled.dom().insert(id.0));
        stability::pushing_keeps(
            solver.gap,
            solver.operation_limit,
            prepared.workspace.tiled,
            id,
            prepared.seed,
            more,
            0,
        );
    }
}

/// A tiled or floating window that is maximized, with or without being fullscreen in between,
/// and returns to its mode has the place that it had, whatever the viewport is on each way.
pub proof fn maximized_returns(
    ws: workspace::WorkspaceView,
    id: WindowId,
    there: Size,
    back_again: Size,
    between: Size,
    between_again: Size,
)
    requires
        ws.mode_of(id) == Some(WindowMode::Tiled) || ws.mode_of(id) == Some(WindowMode::Floating),
        ws.maximized is None,
        ws.fullscreen is None,
        placed_once(ws, id),
    ensures
        ({
            let mode = ws.mode_of(id)->0;
            let max = ws.with_mode(id, WindowMode::Maximized, there)->Ok_0.0;
            let back = max.with_mode(id, mode, back_again)->Ok_0.0;
            let full = max.with_mode(id, WindowMode::Fullscreen, between)->Ok_0.0;
            let again = full.with_mode(id, WindowMode::Maximized, between_again)->Ok_0.0;
            &&& ws.with_mode(id, WindowMode::Maximized, there) is Ok
            &&& max.with_mode(id, mode, back_again) is Ok
            &&& back.tiled == ws.tiled
            &&& back.floating == ws.floating
            &&& back.maximized is None
            &&& back.fullscreen is None
            &&& max.with_mode(id, WindowMode::Fullscreen, between) is Ok
            &&& full.with_mode(id, WindowMode::Maximized, between_again) is Ok
            &&& again.tiled == max.tiled
            &&& again.floating == max.floating
            &&& again.maximized == max.maximized
            &&& again.fullscreen is None
        }),
{
    let mode = ws.mode_of(id)->0;
    let max = ws.with_mode(id, WindowMode::Maximized, there)->Ok_0.0;
    let back = max.with_mode(id, mode, back_again)->Ok_0.0;
    assert(!ws.lifted(id).has(id));
    assert(max.mode_of(id) == Some(WindowMode::Maximized));
    assert(back.tiled =~= ws.tiled);
    assert(back.floating =~= ws.floating);
    assert(placed_once(max, id));
    fullscreen_returns(max, id, between, between_again);
}

/// A dragged window keeps its size and snaps no farther than the snap distance on each axis.
pub proof fn snapping_is_bounded(
    solver: layout::SolverView,
    tiled: Map<u64, TiledWindow>,
    id: u64,
    rect: Rect,
)
    requires
        solver.snap_distance >= 0,
    ensures
        solver.snapped(tiled, id, rect).size == rect.size,
        layout::distance(
            solver.snapped(tiled, id, rect).origin.x as int,
            rect.origin.x as int,
        ) <= solver.snap_distance,
        layout::distance(
            solver.snapped(tiled, id, rect).origin.y as int,
            rect.origin.y as int,
        ) <= solver.snap_distance,
{
    snapping_axis_is_bounded(solver, tiled, id, rect, true);
    snapping_axis_is_bounded(solver, tiled, id, rect, false);
}

proof fn snapping_axis_is_bounded(
    solver: layout::SolverView,
    tiled: Map<u64, TiledWindow>,
    id: u64,
    rect: Rect,
    horizontal: bool,
)
    requires
        solver.snap_distance >= 0,
    ensures
        layout::distance(
            solver.snapped_axis(tiled, id, rect, horizontal),
            layout::span(rect, horizontal).0,
        ) <= solver.snap_distance,
        i64::MIN <= solver.snapped_axis(tiled, id, rect, horizontal) <= i64::MAX,
{
    if exists|o: u64, v: int| solver.snaps_best(tiled, id, rect, horizontal, o, v) {
        let (o, v) = choose|o: u64, v: int| solver.snaps_best(tiled, id, rect, horizontal, o, v);
        assert(solver.snaps_to(tiled, id, rect, horizontal, o, v));
    }
}

/// Whether every answer that is used when each of `ids`, from the place `i` on, pushes the
/// others away is clear of the obstacles of its question.
pub open spec fn answered_clearly_in_turn(
    solver: layout::SolverView,
    tiled: Map<u64, TiledWindow>,
    ids: Seq<u64>,
    i: int,
    seed: Direction,
    answers: Seq<Option<Point>>,
    used: nat,
) -> bool
    decreases ids.len() - i,
{
    if i >= ids.len() {
        true
    } else {
        &&& stability::answers_are_clear(
            solver.gap,
            solver.operation_limit,
            tiled,
            WindowId(ids[i]),
            seed,
            answers,
            used,
        )
        &&& match push::pushed_apart(
            solver.gap,
            solver.operation_limit,
            tiled,
            WindowId(ids[i]),
            seed,
            answers,
            used,
        ) {
            push::Pushed::Failed(_) => true,
            push::Pushed::Settled { tiled: after, used: count, .. } => answered_clearly_in_turn(
                solver,
                after,
                ids,
                i + 1,
                seed,
                answers,
                count,
            ),
        }
    }
}

/// Each window that has had its turn is free of conflicts, and stays so.
proof fn turns_free(
    solver: layout::SolverView,
    tiled: Map<u64, TiledWindow>,
    ids: Seq<u64>,
    i: int,
    seed: Direction,
    answers: Seq<Option<Point>>,
    used: nat,
)
    requires
        tiled.dom().finite(),
        0 <= i <= ids.len(),
        ids.to_set() == tiled.dom(),
        answered_clearly_in_turn(solver, tiled, ids, i, seed, answers, used),
        solver.pushed_in_turn(tiled, ids, i, seed, answers, used) is Ok,
        forall|k: int| 0 <= k < i ==> stability::free(tiled, #[trigger] ids[k], solver.gap as int),
    ensures
        ({
            let after = solver.pushed_in_turn(tiled, ids, i, seed, answers, used)->Ok_0.0;
            &&& stability::same_windows(tiled, after)
            &&& forall|k: int|
                0 <= k < ids.len() ==> stability::free(after, #[trigger] ids[k], solver.gap as int)
        }),
    decreases ids.len() - i,
{
    if i < ids.len() {
        let source = WindowId(ids[i]);
        let outcome = push::pushed_apart(
            solver.gap,
            solver.operation_limit,
            tiled,
            source,
            seed,
            answers,
            used,
        );
        stability::pushing_frees(
            solver.gap,
            solver.operation_limit,
            tiled,
            source,
            seed,
            answers,
            used,
        );
        let next = outcome->tiled;
        assert forall|k: int| 0 <= k < i + 1 implies stability::free(
            next,
            #[trigger] ids[k],
            solver.gap as int,
        ) by {
            assert(ids.to_set().contains(ids[k]));
            assert(tiled.contains_key(ids[k]));
        }
        turns_free(solver, next, ids, i + 1, seed, answers, outcome->used);
        let after = solver.pushed_in_turn(tiled, ids, i, seed, answers, used)->Ok_0.0;
        assert forall|id: u64| #[trigger] tiled.contains_key(id) implies tiled[id].id
            == after[id].id && tiled[id].geometry.size == after[id].geometry.size by {
            assert(next.contains_key(id));
        }
    }
}

/// A reflow whose answers are clear places never ends in an unstable layout, however the
/// windows lay before: where its pushing settles, it succeeds.
pub proof fn reflow_stabilizes(
    solver: layout::SolverView,
    ws: workspace::WorkspaceView,
    answers: Seq<Option<Point>>,
    used: nat,
)
    requires
        ws.tiled.dom().finite(),
        answered_clearly_in_turn(
            solver,
            ws.tiled,
            ranking::ascending(ws.tiled.dom()),
            0,
            ws.layout_direction_hint,
            answers,
            used,
        ),
    ensures
        solver.pushed_in_turn(
            ws.tiled,
            ranking::ascending(ws.tiled.dom()),
            0,
            ws.layout_direction_hint,
            answers,
            used,
        ) is Ok ==> solver.reflowed(ws, answers, used) is Ok,
        solver.reflowed(ws, answers, used) matches Ok((after, _)) ==> stability::same_windows(
            ws.tiled,
            after.tiled,
        ),
{
    let ids = ranking::ascending(ws.tiled.dom());
    ranking::ranking_ranks(ws.tiled.dom(), |id: u64| 0);
    let turned = solver.pushed_in_turn(
        ws.tiled,
        ids,
        0,
        ws.layout_direction_hint,
        answers,
        used,
    );
    if turned is Ok {
        turns_free(solver, ws.tiled, ids, 0, ws.layout_direction_hint, answers, used);
        let after = turned->Ok_0.0;
        assert forall|a: u64, b: u64| #[trigger]
            after.contains_key(a) && #[trigger] after.contains_key(b) && a
                != b implies !after[a].geometry.conflicting(
            after[b].geometry,
            solver.gap as int,
        ) by {
            assert(ids.to_set().contains(a));
            let k = choose|k: int| 0 <= k < ids.len() && ids[k] == a;
            assert(stability::free(after, ids[k], solver.gap as int));
        }
    }
}

/// A rectangle of the canvas that becomes a rectangle of the viewport and returns is the same,
/// where the viewport has even extents and all coordinates are exact binary64 numbers.
pub proof fn viewport_round_trip(rect: Rect, camera: Point, viewport: Size)
    requires
        viewport.width % 2 == 0,
        viewport.height % 2 == 0,
        -0x1_0000_0000_0000 < rect.origin.x < 0x1_0000_0000_0000,
        -0x1_0000_0000_0000 < rect.origin.y < 0x1_0000_0000_0000,
        -0x1_0000_0000_0000 < camera.x < 0x1_0000_0000_0000,
        -0x1_0000_0000_0000 < camera.y < 0x1_0000_0000_0000,
        -0x1_0000_0000_0000 < viewport.width < 0x1_0000_0000_0000,
        -0x1_0000_0000_0000 < viewport.height < 0x1_0000_0000_0000,
    ensures
        layout::to_world(layout::to_viewport(rect, camera, viewport), camera, viewport) == rect,
{
    axis_round_trip(rect.origin.x as int, camera.x as int, viewport.width as int);
    axis_round_trip(rect.origin.y as int, camera.y as int, viewport.height as int);
}

proof fn axis_round_trip(at: int, camera: int, extent: int)
    requires
        extent % 2 == 0,
        -0x1_0000_0000_0000 < at < 0x1_0000_0000_0000,
        -0x1_0000_0000_0000 < camera < 0x1_0000_0000_0000,
        -0x1_0000_0000_0000 < extent < 0x1_0000_0000_0000,
    ensures
        layout::unseen_axis(layout::seen_axis(at, camera, extent), camera, extent) == at,
        layout::seen_axis(at, camera, extent) == at - camera + extent / 2,
{
    rounding::small_is_exact(at);
    rounding::small_is_exact(camera);
    rounding::small_is_exact(extent);
    let edge = 2 * camera - extent;
    rounding::small_is_exact(edge);
    rounding::small_is_exact(2 * at - edge);
    let seen = layout::seen_axis(at, camera, extent);
    assert(seen == at - camera + extent / 2);
    rounding::small_is_exact(seen);
    rounding::small_is_exact(edge + 2 * seen);
}

/// Whether the viewport around the camera shows a window with its margins.
pub open spec fn shows(
    center: int,
    start: int,
    length: int,
    extent: int,
    margin: int,
) -> bool {
    2 * center - extent + 2 * margin <= 2 * start && 2 * (start + length) <= 2 * center + extent - 2
        * margin
}

/// A camera that keeps the focused window visible shows all of it with its margins, where the
/// viewport has room for them and an even extent; where it has no room, the window's middle is
/// in the middle. A window that was shown leaves the camera where it is.
pub proof fn following_shows(camera: int, start: int, length: int, extent: int, margin: int)
    requires
        margin >= 0,
        extent >= 0,
        extent % 2 == 0,
        length > 0,
        -0x1_0000_0000_0000 < camera < 0x1_0000_0000_0000,
        -0x1_0000_0000_0000 < start < 0x1_0000_0000_0000,
        length < 0x1_0000_0000_0000,
        extent < 0x1_0000_0000_0000,
        margin < 0x1_0000_0000_0000,
    ensures
        ({
            let center = workspace::followed_axis(camera, start, length, extent, margin);
            &&& length <= extent - 2 * margin ==> shows(center, start, length, extent, margin)
            &&& length <= extent - 2 * margin && shows(camera, start, length, extent, margin)
                ==> center == camera
            &&& length > extent - 2 * margin ==> center == start + length / 2
        }),
{
    rounding::small_is_exact(camera);
    rounding::small_is_exact(start);
    rounding::small_is_exact(length);
    rounding::small_is_exact(extent);
    rounding::small_is_exact(margin);
    rounding::small_is_exact(extent - 2 * margin);
    rounding::small_is_exact(2 * camera - extent);
    rounding::small_is_exact(2 * camera - extent + 2 * margin);
    rounding::small_is_exact(2 * start - 2 * margin);
    rounding::small_is_exact(2 * start - 2 * margin + extent);
    rounding::small_is_exact(start + length);
    rounding::small_is_exact(2 * camera + extent);
    rounding::small_is_exact(2 * camera + extent - 2 * margin);
    rounding::small_is_exact(2 * start + 2 * length);
    rounding::small_is_exact(2 * start + 2 * length + 2 * margin);
    rounding::small_is_exact(2 * start + 2 * length + 2 * margin - extent);
}

/// A camera that keeps the focused window visible moves no farther than it must: every other
/// position that shows the window with its margins is at least as far from where it was.
pub proof fn following_moves_least(
    camera: int,
    start: int,
    length: int,
    extent: int,
    margin: int,
    other: int,
)
    requires
        margin >= 0,
        extent >= 0,
        extent % 2 == 0,
        length > 0,
        length <= extent - 2 * margin,
        -0x1_0000_0000_0000 < camera < 0x1_0000_0000_0000,
        -0x1_0000_0000_0000 < start < 0x1_0000_0000_0000,
        length < 0x1_0000_0000_0000,
        extent < 0x1_0000_0000_0000,
        margin < 0x1_0000_0000_0000,
        shows(other, start, length, extent, margin),
    ensures
        layout::distance(
            workspace::followed_axis(camera, start, length, extent, margin),
            camera,
        ) <= layout::distance(other, camera),
{
    following_shows(camera, start, length, extent, margin);
    rounding::small_is_exact(camera);
    rounding::small_is_exact(start);
    rounding::small_is_exact(length);
    rounding::small_is_exact(extent);
    rounding::small_is_exact(margin);
    rounding::small_is_exact(extent - 2 * margin);
    rounding::small_is_exact(2 * camera - extent);
    rounding::small_is_exact(2 * camera - extent + 2 * margin);
    rounding::small_is_exact(2 * start - 2 * margin);
    rounding::small_is_exact(2 * start - 2 * margin + extent);
    rounding::small_is_exact(start + length);
    rounding::small_is_exact(2 * camera + extent);
    rounding::small_is_exact(2 * camera + extent - 2 * margin);
    rounding::small_is_exact(2 * start + 2 * length);
    rounding::small_is_exact(2 * start + 2 * length + 2 * margin);
    rounding::small_is_exact(2 * start + 2 * length + 2 * margin - extent);
}

/// A camera that centers has the middle of the focused window in the middle, if the window is
/// tiled. A window that is not tiled never moves the camera when it has the focus.
pub proof fn cameras_follow_tiled_windows(
    ws: workspace::WorkspaceView,
    window: WindowId,
    viewport: Size,
)
    requires
        ws.focused_window == Some(window),
    ensures
        ws.mode_of(window) == Some(WindowMode::Tiled) && ws.camera.policy is Centered
            ==> ws.followed(viewport).camera.center == ws.tiled[window.0].geometry.middle(),
        ws.mode_of(window) != Some(WindowMode::Tiled) ==> ws.followed(viewport) == ws,
        ws.followed(viewport).camera.policy == ws.camera.policy,
{
}

} // verus!
