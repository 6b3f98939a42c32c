//! Where a window goes when its mode changes or when it is dropped.

use crate::geometry::{Point, Rect, Size};
use crate::layout;
use crate::layout::WindowTransaction;
use crate::layout_laws;
use crate::model::{TiledWindow, WindowId, WindowMode};
use crate::ranking;
use crate::rounding;
use crate::stability;
use crate::viewport;
use crate::workspace;
use vstd::math::abs;
use vstd::prelude::*;

verus! {

/// Whether a number is far below what a binary64 number can tell exactly.
pub open spec fn exact(v: i64) -> bool {
    -0x1_0000_0000_0000 < v < 0x1_0000_0000_0000
}

pub open spec fn exact_view(camera: Point, viewport: Size) -> bool {
    exact(camera.x) && exact(camera.y) && exact(viewport.width) && exact(viewport.height)
}

pub(crate) proof fn places_are_shifted(at: int, camera: int, extent: int)
    requires
        -0x1_0000_0000_0000 < at < 0x1_0000_0000_0000,
        -0x1_0000_0000_0000 < camera < 0x1_0000_0000_0000,
        -0x1_0000_0000_0000 < extent < 0x1_0000_0000_0000,
    ensures
        abs(2 * (layout::unseen_axis(at, camera, extent) - camera - at) + extent) <= 1,
        abs(2 * (layout::seen_axis(at, camera, extent) + camera - at) - extent) <= 1,
        -0x8_0000_0000_0000 < layout::unseen_axis(at, camera, extent) < 0x8_0000_0000_0000,
        -0x8_0000_0000_0000 < layout::seen_axis(at, camera, extent) < 0x8_0000_0000_0000,
{
    rounding::small_is_exact(at);
    rounding::small_is_exact(camera);
    rounding::small_is_exact(extent);
    let edge = 2 * camera - extent;
    rounding::small_is_exact(edge);
    rounding::small_is_exact(2 * at - edge);
    rounding::small_is_exact(edge + 2 * at);
}

/// A floating window that becomes tiled keeps its place on the screen: on the canvas it lies as far
/// from the left and the upper edge of what the camera shows as it lay in the viewport, but for a
/// half where the viewport has an odd extent. It keeps its size and gets the focus.
pub proof fn tiling_keeps_the_place_on_the_screen(
    solver: layout::SolverView,
    ws: workspace::WorkspaceView,
    id: WindowId,
    viewport_size: Size,
    answers: Seq<Option<Point>>,
)
    requires
        ws.tiled.dom().finite(),
        !ws.tiled.contains_key(id.0),
        ws.floating.contains_key(id.0),
        exact_view(ws.camera.center, viewport_size),
        exact(ws.floating[id.0].viewport.rect.origin.x),
        exact(ws.floating[id.0].viewport.rect.origin.y),
        solver.applied(
            ws,
            WindowTransaction::SetMode { id, mode: WindowMode::Tiled, viewport_size },
            answers,
        ) is Ok,
    ensures
        ({
            let after = solver.applied(
                ws,
                WindowTransaction::SetMode { id, mode: WindowMode::Tiled, viewport_size },
                answers,
            )->Ok_0.0;
            let seen = ws.floating[id.0].viewport.rect;
            let rect = after.tiled[id.0].geometry;
            let camera = ws.camera.center;
            &&& after.tiled.contains_key(id.0)
            &&& !after.floating.contains_key(id.0)
            &&& after.focused_window == Some(id)
            &&& rect.size == seen.size
            &&& abs(2 * (rect.origin.x - camera.x - seen.origin.x) + viewport_size.width) <= 1
            &&& abs(2 * (rect.origin.y - camera.y - seen.origin.y) + viewport_size.height) <= 1
            &&& viewport_size.width % 2 == 0 ==> rect.origin.x == camera.x - viewport_size.width / 2
                + seen.origin.x
            &&& viewport_size.height % 2 == 0 ==> rect.origin.y == camera.y - viewport_size.height
                / 2 + seen.origin.y
        }),
{
    let transaction = WindowTransaction::SetMode { id, mode: WindowMode::Tiled, viewport_size };
    let seen = ws.floating[id.0].viewport.rect;
    let camera = ws.camera.center;
    places_are_shifted(seen.origin.x as int, camera.x as int, viewport_size.width as int);
    places_are_shifted(seen.origin.y as int, camera.y as int, viewport_size.height as int);
    let prepared = solver.prepared(ws, transaction)->Ok_0;
    layout_laws::pushing_window_stays(solver, ws, transaction, answers, id);
    assert(prepared.workspace.tiled.dom() =~= ws.tiled.dom().insert(id.0));
    stability::pushing_keeps(
        solver.gap,
        solver.operation_limit,
        prepared.workspace.tiled,
        id,
        prepared.seed,
        answers,
        0,
    );
    let to = layout::to_world(seen, camera, viewport_size);
    assert(prepared.workspace.tiled[id.0].geometry == to);
}

/// A tiled window that becomes floating keeps its place on the screen, as far as it lies there: in
/// the viewport it lies as far from the left and the upper edge as it lay on the canvas from those of
/// what the camera shows, but for a half where the viewport has an odd extent. Where it would lie
/// beyond an edge it is moved in as far as it fits. It keeps its size, gets the focus, and the other
/// tiled windows stay.
pub proof fn floating_keeps_the_place_on_the_screen(
    solver: layout::SolverView,
    ws: workspace::WorkspaceView,
    id: WindowId,
    viewport_size: Size,
    answers: Seq<Option<Point>>,
)
    requires
        ws.tiled.contains_key(id.0),
        !ws.floating.contains_key(id.0),
        exact_view(ws.camera.center, viewport_size),
        exact(ws.tiled[id.0].geometry.origin.x),
        exact(ws.tiled[id.0].geometry.origin.y),
        solver.applied(
            ws,
            WindowTransaction::SetMode { id, mode: WindowMode::Floating, viewport_size },
            answers,
        ) is Ok,
    ensures
        ({
            let after = solver.applied(
                ws,
                WindowTransaction::SetMode { id, mode: WindowMode::Floating, viewport_size },
                answers,
            )->Ok_0.0;
            let on_canvas = ws.tiled[id.0].geometry;
            let rect = after.floating[id.0].viewport.rect;
            let camera = ws.camera.center;
            let (w, h) = (on_canvas.size.width, on_canvas.size.height);
            &&& after.floating.contains_key(id.0)
            &&& after.tiled == ws.tiled.remove(id.0)
            &&& after.focused_window == Some(id)
            &&& rect.size == on_canvas.size
            &&& 0 < rect.origin.x < viewport_size.width - w ==> abs(
                2 * (rect.origin.x + camera.x - on_canvas.origin.x) - viewport_size.width,
            ) <= 1
            &&& 0 < rect.origin.y < viewport_size.height - h ==> abs(
                2 * (rect.origin.y + camera.y - on_canvas.origin.y) - viewport_size.height,
            ) <= 1
            &&& 0 < w <= viewport_size.width ==> {
                &&& 0 <= rect.origin.x && rect.origin.x + w <= viewport_size.width
                &&& rect.origin.x == 0 && w < viewport_size.width ==> 2 * (on_canvas.origin.x
                    - camera.x) + viewport_size.width <= 1
                &&& rect.origin.x + w == viewport_size.width && w < viewport_size.width ==> 2 * (
                on_canvas.origin.x + w - camera.x) - viewport_size.width >= -1
            }
            &&& 0 < h <= viewport_size.height ==> {
                &&& 0 <= rect.origin.y && rect.origin.y + h <= viewport_size.height
                &&& rect.origin.y == 0 && h < viewport_size.height ==> 2 * (on_canvas.origin.y
                    - camera.y) + viewport_size.height <= 1
                &&& rect.origin.y + h == viewport_size.height && h < viewport_size.height ==> 2 * (
                on_canvas.origin.y + h - camera.y) - viewport_size.height >= -1
            }
        }),
{
    let on_canvas = ws.tiled[id.0].geometry;
    let camera = ws.camera.center;
    places_are_shifted(on_canvas.origin.x as int, camera.x as int, viewport_size.width as int);
    places_are_shifted(on_canvas.origin.y as int, camera.y as int, viewport_size.height as int);
    let seen = layout::to_viewport(on_canvas, camera, viewport_size);
    assert(seen.size == on_canvas.size);
}

/// What the viewport shows all of lies in it where the camera sees it.
proof fn seen_places_lie_within(on_canvas: Rect, camera: Point, viewport_size: Size)
    requires
        exact_view(camera, viewport_size),
        exact(on_canvas.origin.x),
        exact(on_canvas.origin.y),
        viewport_size.width % 2 == 0,
        viewport_size.height % 2 == 0,
        camera.x - viewport_size.width / 2 <= on_canvas.origin.x,
        on_canvas.origin.x + on_canvas.size.width <= camera.x + viewport_size.width / 2,
        camera.y - viewport_size.height / 2 <= on_canvas.origin.y,
        on_canvas.origin.y + on_canvas.size.height <= camera.y + viewport_size.height / 2,
        on_canvas.size.valid(),
    ensures
        ({
            let seen = layout::to_viewport(on_canvas, camera, viewport_size);
            &&& viewport::clamped_rect(seen, viewport_size) == seen
            &&& seen.size == on_canvas.size
            &&& seen.origin.x == on_canvas.origin.x - camera.x + viewport_size.width / 2
            &&& seen.origin.y == on_canvas.origin.y - camera.y + viewport_size.height / 2
        }),
{
    places_are_shifted(on_canvas.origin.x as int, camera.x as int, viewport_size.width as int);
    places_are_shifted(on_canvas.origin.y as int, camera.y as int, viewport_size.height as int);
}

/// What a tiled window leaves when it becomes floating, and where it is then.
proof fn floating_begins_where_seen(
    solver: layout::SolverView,
    ws: workspace::WorkspaceView,
    id: WindowId,
    viewport_size: Size,
    answers: Seq<Option<Point>>,
)
    requires
        ws.tiled.dom().finite(),
        ws.tiled.contains_key(id.0),
        !ws.floating.contains_key(id.0),
        solver.applied(
            ws,
            WindowTransaction::SetMode { id, mode: WindowMode::Floating, viewport_size },
            answers,
        ) is Ok,
    ensures
        ({
            let after = (solver.applied(
                ws,
                WindowTransaction::SetMode { id, mode: WindowMode::Floating, viewport_size },
                answers,
            )->Ok_0).0;
            &&& after.tiled == ws.tiled.remove(id.0)
            &&& after.tiled.dom().finite()
            &&& after.camera == ws.camera
            &&& after.floating.contains_key(id.0)
            &&& after.floating[id.0].viewport.rect == viewport::clamped_rect(
                layout::to_viewport(ws.tiled[id.0].geometry, ws.camera.center, viewport_size),
                viewport_size,
            )
        }),
{
    assert(ws.tiled.remove(id.0).dom() =~= ws.tiled.dom().remove(id.0));
}

/// A tiled window that becomes floating and tiled again, with the camera where it was, has the
/// rectangle on the canvas that it had, where the viewport shows all of it and has even extents.
#[verifier::rlimit(40)]
pub proof fn floating_windows_return_to_the_canvas(
    solver: layout::SolverView,
    ws: workspace::WorkspaceView,
    id: WindowId,
    viewport_size: Size,
    answers: Seq<Option<Point>>,
    more: Seq<Option<Point>>,
)
    requires
        ws.tiled.dom().finite(),
        ws.tiled.contains_key(id.0),
        !ws.floating.contains_key(id.0),
        exact_view(ws.camera.center, viewport_size),
        exact(ws.tiled[id.0].geometry.origin.x),
        exact(ws.tiled[id.0].geometry.origin.y),
        viewport_size.width % 2 == 0,
        viewport_size.height % 2 == 0,
        ({
            let rect = ws.tiled[id.0].geometry;
            let camera = ws.camera.center;
            &&& camera.x - viewport_size.width / 2 <= rect.origin.x && rect.origin.x
                + rect.size.width <= camera.x + viewport_size.width / 2
            &&& camera.y - viewport_size.height / 2 <= rect.origin.y && rect.origin.y
                + rect.size.height <= camera.y + viewport_size.height / 2
            &&& rect.size.valid()
        }),
        solver.applied(
            ws,
            WindowTransaction::SetMode { id, mode: WindowMode::Floating, viewport_size },
            answers,
        ) is Ok,
        solver.applied(
            solver.applied(
                ws,
                WindowTransaction::SetMode { id, mode: WindowMode::Floating, viewport_size },
                answers,
            )->Ok_0.0,
            WindowTransaction::SetMode { id, mode: WindowMode::Tiled, viewport_size },
            more,
        ) is Ok,
    ensures
        solver.applied(
            solver.applied(
                ws,
                WindowTransaction::SetMode { id, mode: WindowMode::Floating, viewport_size },
                answers,
            )->Ok_0.0,
            WindowTransaction::SetMode { id, mode: WindowMode::Tiled, viewport_size },
            more,
        )->Ok_0.0.tiled[id.0].geometry == ws.tiled[id.0].geometry,
{
    let floating = solver.applied(
        ws,
        WindowTransaction::SetMode { id, mode: WindowMode::Floating, viewport_size },
        answers,
    )->Ok_0.0;
    seen_places_lie_within(ws.tiled[id.0].geometry, ws.camera.center, viewport_size);
    floating_begins_where_seen(solver, ws, id, viewport_size, answers);
    tiling_keeps_the_place_on_the_screen(solver, floating, id, viewport_size, more);
}

/// A window gets every mode that is asked for, but for two: there is one fullscreen and one
/// maximized window at most, and who comes second is refused and told of the first. Only a window
/// that becomes tiled pushes others, and a window that has the mode already stays as it is.
pub proof fn modes_are_given(
    solver: layout::SolverView,
    ws: workspace::WorkspaceView,
    id: WindowId,
    mode: WindowMode,
    viewport_size: Size,
)
    ensures
        ({
            let transaction = WindowTransaction::SetMode { id, mode, viewport_size };
            let taken = match mode {
                WindowMode::Fullscreen => match ws.fullscreen {
                    Some(other) => Some(layout::LayoutFault::FullscreenOccupied(other.window)),
                    None => None,
                },
                WindowMode::Maximized => match ws.maximized {
                    Some(other) => Some(layout::LayoutFault::MaximizedOccupied(other.window)),
                    None => None,
                },
                _ => None,
            };
            match solver.prepared(ws, transaction) {
                Err(fault) => {
                    ||| ws.mode_of(id) is None && fault == layout::LayoutFault::UnknownWindow(id)
                    ||| ws.mode_of(id) is Some && ws.mode_of(id) != Some(mode) && Some(fault)
                        == taken
                },
                Ok(prepared) => {
                    &&& ws.mode_of(id) is Some
                    &&& ws.mode_of(id) == Some(mode) ==> prepared.workspace == ws
                        && prepared.source is None
                    &&& ws.mode_of(id) != Some(mode) ==> {
                        &&& taken is None
                        &&& prepared.workspace.focused_window == Some(id)
                        &&& prepared.source == if mode == WindowMode::Tiled {
                            Some(id)
                        } else {
                            None
                        }
                    }
                    &&& ws.mode_of(id) != Some(mode) && mode == WindowMode::Fullscreen
                        ==> prepared.workspace.is_fullscreen(id)
                    &&& ws.mode_of(id) != Some(mode) && mode == WindowMode::Maximized
                        ==> prepared.workspace.is_maximized(id)
                    &&& mode == WindowMode::Tiled ==> prepared.workspace.tiled.contains_key(id.0)
                    &&& ws.mode_of(id) != Some(mode) && mode == WindowMode::Floating
                        ==> prepared.workspace.floating.contains_key(id.0)
                },
            }
        }),
{
}

/// What an inserted window looks like: of the given size, with its centre at the anchor. An invalid
/// size and a window that is there already are refused, and nothing else. The window gets the
/// focus, and the workspace keeps the hint.
pub proof fn inserted_windows_are_centred(
    solver: layout::SolverView,
    ws: workspace::WorkspaceView,
    id: WindowId,
    size: Size,
    anchor: Point,
    transaction: WindowTransaction,
)
    requires
        transaction matches WindowTransaction::InsertTiled {
            id: given,
            size: extent,
            anchor: at,
            ..
        } && given == id && extent == size && at == anchor,
    ensures
        match solver.prepared(ws, transaction) {
            Err(fault) => if size.width > 0 && size.height > 0 {
                ws.mode_of(id) is Some && fault == layout::LayoutFault::DuplicateWindow(id)
            } else {
                fault == layout::LayoutFault::InvalidSize
            },
            Ok(prepared) => {
                let rect = prepared.workspace.tiled[id.0].geometry;
                &&& size.width > 0 && size.height > 0 && ws.mode_of(id) is None
                &&& prepared.workspace.tiled == ws.tiled.insert(
                    id.0,
                    TiledWindow { id, geometry: rect },
                )
                &&& prepared.workspace.focused_window == Some(id)
                &&& prepared.workspace.layout_direction_hint == transaction->InsertTiled_hint
                &&& prepared.seed == transaction->InsertTiled_seed_direction
                &&& prepared.source == Some(id)
                &&& rect.size == size
                &&& i64::MIN <= anchor.x - size.width ==> rect.origin.x == anchor.x - size.width / 2
                &&& i64::MIN <= anchor.y - size.height ==> rect.origin.y == anchor.y - size.height
                    / 2
            },
        },
{
}

/// Whether an edge of another window, on the horizontal or the vertical axis, draws a dropped
/// rectangle to the coordinate `value`: the rectangle passes the other window on the other axis,
/// would keep just the gap from it there, and has to go no farther than the snap distance.
pub open spec fn edge_draws(
    solver: layout::SolverView,
    tiled: Map<u64, TiledWindow>,
    id: u64,
    rect: Rect,
    horizontal: bool,
    other: u64,
    value: int,
) -> bool {
    let there = tiled[other].geometry;
    &&& tiled.contains_key(other)
    &&& other != id
    &&& i64::MIN <= value <= i64::MAX
    &&& if horizontal {
        &&& rect.origin.y < there.origin.y + there.size.height
        &&& there.origin.y < rect.origin.y + rect.size.height
        &&& value + rect.size.width + solver.gap == there.origin.x || value == there.origin.x
            + there.size.width + solver.gap
        &&& abs(value - rect.origin.x) <= solver.snap_distance
    } else {
        &&& rect.origin.x < there.origin.x + there.size.width
        &&& there.origin.x < rect.origin.x + rect.size.width
        &&& value + rect.size.height + solver.gap == there.origin.y || value == there.origin.y
            + there.size.height + solver.gap
        &&& abs(value - rect.origin.y) <= solver.snap_distance
    }
}

proof fn edges_are_what_is_snapped_to(
    solver: layout::SolverView,
    tiled: Map<u64, TiledWindow>,
    id: u64,
    rect: Rect,
    horizontal: bool,
    other: u64,
    value: int,
)
    requires
        solver.snap_distance >= 0,
    ensures
        edge_draws(solver, tiled, id, rect, horizontal, other, value) == solver.snaps_to(
            tiled,
            id,
            rect,
            horizontal,
            other,
            value,
        ),
{
}

/// Of what some of the windows offer to snap to one is the best, if there is anything.
proof fn some_edge_is_best(
    solver: layout::SolverView,
    tiled: Map<u64, TiledWindow>,
    id: u64,
    rect: Rect,
    horizontal: bool,
    ids: Seq<u64>,
    n: int,
    start: int,
) -> (best: Option<(u64, int)>)
    requires
        0 <= n <= ids.len(),
        start == layout::span(rect, horizontal).0,
    ensures
        match best {
            Some((o, v)) => solver.snaps_to(tiled, id, rect, horizontal, o, v),
            None => true,
        },
        forall|k: int, v: int|
            0 <= k < n && #[trigger] solver.snaps_to(tiled, id, rect, horizontal, ids[k], v)
                ==> match best {
                Some((b, w)) => !layout::precedes(start, ids[k], v, b, w),
                None => false,
            },
    decreases n,
{
    if n == 0 {
        None
    } else {
        let before = some_edge_is_best(solver, tiled, id, rect, horizontal, ids, n - 1, start);
        let o = ids[n - 1];
        let (s, l) = layout::span(tiled[o].geometry, horizontal);
        let length = layout::span(rect, horizontal).1;
        let (left, right) = (s - length - solver.gap, s + l + solver.gap);
        let first = if solver.snaps_to(tiled, id, rect, horizontal, o, left) && match before {
            Some((b, w)) => layout::precedes(start, o, left, b, w),
            None => true,
        } {
            Some((o, left))
        } else {
            before
        };
        let second = if solver.snaps_to(tiled, id, rect, horizontal, o, right) && match first {
            Some((b, w)) => layout::precedes(start, o, right, b, w),
            None => true,
        } {
            Some((o, right))
        } else {
            first
        };
        assert forall|k: int, v: int|
            0 <= k < n && #[trigger] solver.snaps_to(
                tiled,
                id,
                rect,
                horizontal,
                ids[k],
                v,
            ) implies match second {
            Some((b, w)) => !layout::precedes(start, ids[k], v, b, w),
            None => false,
        } by {
            if k == n - 1 {
                assert(v == left || v == right);
            }
        }
        second
    }
}

/// Where a dropped window ends on an axis.
proof fn axes_snap_to_the_nearest_edge(
    solver: layout::SolverView,
    tiled: Map<u64, TiledWindow>,
    id: u64,
    rect: Rect,
    horizontal: bool,
)
    requires
        tiled.dom().finite(),
        solver.snap_distance >= 0,
    ensures
        ({
            let start = if horizontal {
                rect.origin.x as int
            } else {
                rect.origin.y as int
            };
            let end = solver.snapped_axis(tiled, id, rect, horizontal);
            &&& i64::MIN <= end <= i64::MAX
            &&& end == start || exists|other: u64| #[trigger]
                edge_draws(solver, tiled, id, rect, horizontal, other, end)
            &&& forall|other: u64, value: int| #[trigger]
                edge_draws(solver, tiled, id, rect, horizontal, other, value) ==> {
                    &&& abs(end - start) <= abs(value - start)
                    &&& exists|drawn: u64| #[trigger]
                        edge_draws(solver, tiled, id, rect, horizontal, drawn, end) && (abs(
                            end - start,
                        ) == abs(value - start) ==> drawn <= other && (drawn == other ==> end
                            <= value))
                }
        }),
{
    let start = layout::span(rect, horizontal).0;
    let end = solver.snapped_axis(tiled, id, rect, horizontal);
    let ids = ranking::ascending(tiled.dom());
    ranking::ranking_ranks(tiled.dom(), |id: u64| 0);
    let best = some_edge_is_best(
        solver,
        tiled,
        id,
        rect,
        horizontal,
        ids,
        ids.len() as int,
        start,
    );
    assert forall|o: u64, v: int| #[trigger]
        solver.snaps_to(tiled, id, rect, horizontal, o, v) implies match best {
        Some((b, w)) => !layout::precedes(start, o, v, b, w),
        None => false,
    } by {
        assert(ids.to_set().contains(o));
        let k = choose|k: int| 0 <= k < ids.len() && ids[k] == o;
        assert(solver.snaps_to(tiled, id, rect, horizontal, ids[k], v));
    }
    match best {
        Some((b, w)) => {
            assert(solver.snaps_best(tiled, id, rect, horizontal, b, w));
            let (o, v) = choose|o: u64, v: int|
                solver.snaps_best(tiled, id, rect, horizontal, o, v);
            assert(solver.snaps_best(tiled, id, rect, horizontal, o, v));
            assert(end == v);
            edges_are_what_is_snapped_to(solver, tiled, id, rect, horizontal, o, v);
            assert(edge_draws(solver, tiled, id, rect, horizontal, o, end));
            assert forall|other: u64, value: int| #[trigger]
                edge_draws(solver, tiled, id, rect, horizontal, other, value) implies {
                &&& abs(end - start) <= abs(value - start)
                &&& exists|drawn: u64| #[trigger]
                    edge_draws(solver, tiled, id, rect, horizontal, drawn, end) && (abs(end - start)
                        == abs(value - start) ==> drawn <= other && (drawn == other ==> end
                        <= value))
            } by {
                edges_are_what_is_snapped_to(solver, tiled, id, rect, horizontal, other, value);
                assert(!layout::precedes(start, other, value, o, v));
                assert(edge_draws(solver, tiled, id, rect, horizontal, o, end));
            }
        },
        None => {
            assert forall|o: u64, v: int| !#[trigger]
                solver.snaps_best(tiled, id, rect, horizontal, o, v) by {
                if solver.snaps_best(tiled, id, rect, horizontal, o, v) {
                    assert(solver.snaps_to(tiled, id, rect, horizontal, o, v));
                }
            }
            assert forall|other: u64, value: int| !#[trigger]
                edge_draws(solver, tiled, id, rect, horizontal, other, value) by {
                edges_are_what_is_snapped_to(solver, tiled, id, rect, horizontal, other, value);
            }
        },
    }
}

/// A window that is dropped snaps to the nearest edge on each axis: it stays where it was dropped
/// unless an edge of another window draws it, and then it goes to one that no other is nearer than.
/// It keeps its size and gets the focus. A window that is not tiled cannot be dropped, and nothing
/// else is refused.
pub proof fn dropped_windows_snap_to_the_nearest_edge(
    solver: layout::SolverView,
    ws: workspace::WorkspaceView,
    id: WindowId,
    target: Point,
    transaction: WindowTransaction,
)
    requires
        ws.tiled.dom().finite(),
        solver.snap_distance >= 0,
        transaction matches WindowTransaction::MoveTiledFinished { id: given, target: at, .. }
            && given == id && at == target,
    ensures
        match solver.prepared(ws, transaction) {
            Err(fault) => !ws.tiled.contains_key(id.0) && fault
                == layout::LayoutFault::UnknownWindow(id),
            Ok(prepared) => {
                let dropped = Rect { origin: target, size: ws.tiled[id.0].geometry.size };
                let rect = prepared.workspace.tiled[id.0].geometry;
                &&& ws.tiled.contains_key(id.0)
                &&& prepared.workspace.tiled == ws.tiled.insert(
                    id.0,
                    TiledWindow { id: ws.tiled[id.0].id, geometry: rect },
                )
                &&& prepared.source == Some(id)
                &&& prepared.workspace.focused_window == Some(id)
                &&& prepared.workspace.layout_direction_hint == transaction->MoveTiledFinished_hint
                &&& prepared.seed == transaction->MoveTiledFinished_seed_direction
                &&& rect.size == ws.tiled[id.0].geometry.size
                &&& rect.origin.x == target.x || exists|other: u64| #[trigger]
                    edge_draws(solver, ws.tiled, id.0, dropped, true, other, rect.origin.x as int)
                &&& rect.origin.y == target.y || exists|other: u64| #[trigger]
                    edge_draws(solver, ws.tiled, id.0, dropped, false, other, rect.origin.y as int)
                &&& forall|other: u64, value: int| #[trigger]
                    edge_draws(solver, ws.tiled, id.0, dropped, true, other, value) ==> abs(
                        rect.origin.x - target.x,
                    ) <= abs(value - target.x) && (exists|drawn: u64| #[trigger]
                        edge_draws(
                            solver,
                            ws.tiled,
                            id.0,
                            dropped,
                            true,
                            drawn,
                            rect.origin.x as int,
                        ))
                &&& forall|other: u64, value: int| #[trigger]
                    edge_draws(solver, ws.tiled, id.0, dropped, false, other, value) ==> abs(
                        rect.origin.y - target.y,
                    ) <= abs(value - target.y) && (exists|drawn: u64| #[trigger]
                        edge_draws(
                            solver,
                            ws.tiled,
                            id.0,
                            dropped,
                            false,
                            drawn,
                            rect.origin.y as int,
                        ))
                &&& prepared.movements == seq![
                    layout::Movement {
                        window: id,
                        from: ws.tiled[id.0].geometry.origin,
                        to: rect.origin,
                    },
                ]
            },
        },
{
    if ws.tiled.contains_key(id.0) {
        let dropped = Rect { origin: target, size: ws.tiled[id.0].geometry.size };
        axes_snap_to_the_nearest_edge(solver, ws.tiled, id.0, dropped, true);
        axes_snap_to_the_nearest_edge(solver, ws.tiled, id.0, dropped, false);
    }
}

} // verus!
