//! What lies over what, and where.

use crate::compositor;
use crate::desktop;
use crate::focus_laws;
use crate::geometry::Size;
use crate::layout_laws;
use crate::mode_laws;
use crate::model::{WindowId, WindowMode};
use crate::scene;
use crate::stacking;
use crate::stacking::Layer;
use crate::workspace;
use vstd::prelude::*;

verus! {

/// Whether a mode lies over another: floating windows over tiled ones, the maximized one over both,
/// and the fullscreen one over all.
pub open spec fn lies_over(above: WindowMode, below: WindowMode) -> bool {
    match above {
        WindowMode::Tiled => false,
        WindowMode::Floating => below is Tiled,
        WindowMode::Maximized => below is Tiled || below is Floating,
        WindowMode::Fullscreen => !(below is Fullscreen),
    }
}

proof fn layers_hold_their_windows(
    ws: workspace::WorkspaceView,
    viewport: Size,
    windows: Seq<WindowId>,
    level: int,
)
    ensures
        ({
            let list = scene::drawn_in_layer(ws, viewport, windows, level);
            &&& forall|i: int|
                0 <= i < list.len() ==> {
                    let d = #[trigger] list[i];
                    &&& windows.contains(d.window)
                    &&& d == scene::drawn(ws, d.window, viewport)
                    &&& ws.mode_of(d.window) is Some
                    &&& scene::layer(ws.mode_of(d.window)->0) == level
                }
            &&& forall|k: int|
                0 <= k < windows.len() && ws.mode_of(#[trigger] windows[k]) is Some && scene::layer(
                    ws.mode_of(windows[k])->0,
                ) == level ==> list.contains(scene::drawn(ws, windows[k], viewport))
            &&& forall|i: int, j: int|
                0 <= i < j < list.len() ==> focus_laws::in_order(
                    windows,
                    (#[trigger] list[i]).window,
                    (#[trigger] list[j]).window,
                )
        }),
    decreases windows.len(),
{
    let list = scene::drawn_in_layer(ws, viewport, windows, level);
    if windows.len() > 0 {
        let front = windows.drop_last();
        let rest = scene::drawn_in_layer(ws, viewport, front, level);
        layers_hold_their_windows(ws, viewport, front, level);
        assert forall|i: int| 0 <= i < list.len() implies {
            let d = #[trigger] list[i];
            &&& windows.contains(d.window)
            &&& d == scene::drawn(ws, d.window, viewport)
            &&& ws.mode_of(d.window) is Some
            &&& scene::layer(ws.mode_of(d.window)->0) == level
        } by {
            if i < rest.len() {
                assert(list[i] == rest[i]);
                assert(front.contains(rest[i].window));
                let k = choose|k: int| 0 <= k < front.len() && front[k] == rest[i].window;
                assert(windows[k] == list[i].window);
            } else {
                assert(windows[windows.len() - 1] == list[i].window);
            }
        }
        assert forall|k: int|
            0 <= k < windows.len() && ws.mode_of(#[trigger] windows[k]) is Some && scene::layer(
                ws.mode_of(windows[k])->0,
            ) == level implies list.contains(scene::drawn(ws, windows[k], viewport)) by {
            let d = scene::drawn(ws, windows[k], viewport);
            if k < front.len() {
                assert(front[k] == windows[k]);
                assert(rest.contains(d));
                let m = choose|m: int| 0 <= m < rest.len() && rest[m] == d;
                assert(list[m] == d);
            } else {
                assert(list[list.len() - 1] == d);
            }
        }
        assert forall|i: int, j: int| 0 <= i < j < list.len() implies focus_laws::in_order(
            windows,
            (#[trigger] list[i]).window,
            (#[trigger] list[j]).window,
        ) by {
            assert(list[i] == rest[i]);
            if j < rest.len() {
                assert(list[j] == rest[j]);
                assert(focus_laws::in_order(front, rest[i].window, rest[j].window));
                let (a, b) = choose|a: int, b: int|
                    0 <= a < b < front.len() && #[trigger] front[a] == rest[i].window
                        && #[trigger] front[b] == rest[j].window;
                assert(windows[a] == list[i].window && windows[b] == list[j].window);
            } else {
                assert(front.contains(rest[i].window));
                let a = choose|a: int| 0 <= a < front.len() && front[a] == rest[i].window;
                assert(windows[a] == list[i].window && windows[windows.len() - 1]
                    == list[j].window);
            }
        }
    }
}

proof fn lower_layers_come_first(
    ws: workspace::WorkspaceView,
    viewport: Size,
    windows: Seq<WindowId>,
    levels: int,
)
    requires
        levels >= 0,
    ensures
        ({
            let list = scene::drawn_windows(ws, viewport, windows, levels);
            &&& forall|i: int|
                0 <= i < list.len() ==> {
                    let d = #[trigger] list[i];
                    &&& windows.contains(d.window)
                    &&& d == scene::drawn(ws, d.window, viewport)
                    &&& ws.mode_of(d.window) is Some
                    &&& scene::layer(ws.mode_of(d.window)->0) < levels
                }
            &&& forall|k: int|
                0 <= k < windows.len() && ws.mode_of(#[trigger] windows[k]) is Some && scene::layer(
                    ws.mode_of(windows[k])->0,
                ) < levels ==> list.contains(scene::drawn(ws, windows[k], viewport))
            &&& forall|i: int, j: int|
                0 <= i < j < list.len() ==> {
                    let (a, b) = ((#[trigger] list[i]).window, (#[trigger] list[j]).window);
                    let (low, high) = (
                        scene::layer(ws.mode_of(a)->0),
                        scene::layer(ws.mode_of(b)->0),
                    );
                    low < high || (low == high && focus_laws::in_order(windows, a, b))
                }
        }),
    decreases levels,
{
    let list = scene::drawn_windows(ws, viewport, windows, levels);
    if levels > 0 {
        let before = scene::drawn_windows(ws, viewport, windows, levels - 1);
        let top = scene::drawn_in_layer(ws, viewport, windows, levels - 1);
        lower_layers_come_first(ws, viewport, windows, levels - 1);
        layers_hold_their_windows(ws, viewport, windows, levels - 1);
        assert forall|i: int| 0 <= i < list.len() implies {
            let d = #[trigger] list[i];
            &&& windows.contains(d.window)
            &&& d == scene::drawn(ws, d.window, viewport)
            &&& ws.mode_of(d.window) is Some
            &&& scene::layer(ws.mode_of(d.window)->0) < levels
        } by {
            if i < before.len() {
                assert(list[i] == before[i]);
            } else {
                assert(list[i] == top[i - before.len()]);
            }
        }
        assert forall|k: int|
            0 <= k < windows.len() && ws.mode_of(#[trigger] windows[k]) is Some && scene::layer(
                ws.mode_of(windows[k])->0,
            ) < levels implies list.contains(scene::drawn(ws, windows[k], viewport)) by {
            let d = scene::drawn(ws, windows[k], viewport);
            if scene::layer(ws.mode_of(windows[k])->0) < levels - 1 {
                assert(before.contains(d));
                let m = choose|m: int| 0 <= m < before.len() && before[m] == d;
                assert(list[m] == d);
            } else {
                assert(top.contains(d));
                let m = choose|m: int| 0 <= m < top.len() && top[m] == d;
                assert(list[before.len() + m] == d);
            }
        }
        assert forall|i: int, j: int| 0 <= i < j < list.len() implies {
            let (a, b) = ((#[trigger] list[i]).window, (#[trigger] list[j]).window);
            let (low, high) = (scene::layer(ws.mode_of(a)->0), scene::layer(ws.mode_of(b)->0));
            low < high || (low == high && focus_laws::in_order(windows, a, b))
        } by {
            if j < before.len() {
                assert(list[i] == before[i] && list[j] == before[j]);
            } else {
                assert(list[j] == top[j - before.len()]);
                if i < before.len() {
                    assert(list[i] == before[i]);
                } else {
                    assert(list[i] == top[i - before.len()]);
                }
            }
        }
    }
}

/// The active output draws the mapped windows of the workspace that it shows, each of them and no
/// other, the lowest first: what lies over another is drawn after it, and windows of one mode are
/// drawn in the order in which they are listed. Tiled windows are drawn where
/// the camera shows them, floating ones where they are in the viewport, and those that fill the
/// output in its corner.
pub proof fn windows_are_drawn_in_order(
    state: compositor::AsteraView,
    ws: workspace::WorkspaceView,
    i: int,
    j: int,
)
    requires
        state.desktop.shown(state.active_output) == Some(ws),
    ensures
        ({
            let list = state.drawn();
            let viewport = state.desktop.outputs[state.active_output.0 as u64].output.logical_size;
            let camera = ws.camera.center;
            &&& 0 <= i < list.len() ==> {
                let id = list[i].window;
                &&& state.windows.contains(id) && ws.has(id)
                &&& ws.tiled.contains_key(id.0) && mode_laws::exact_view(camera, viewport)
                    && viewport.width % 2 == 0 && viewport.height % 2 == 0 && mode_laws::exact(
                    ws.tiled[id.0].geometry.origin.x,
                ) && mode_laws::exact(ws.tiled[id.0].geometry.origin.y) ==> {
                    let (x, y) = (
                        ws.tiled[id.0].geometry.origin.x - camera.x + viewport.width / 2,
                        ws.tiled[id.0].geometry.origin.y - camera.y + viewport.height / 2,
                    );
                    &&& i32::MIN <= x <= i32::MAX ==> list[i].x == x
                    &&& i32::MIN <= y <= i32::MAX ==> list[i].y == y
                }
                &&& !ws.tiled.contains_key(id.0) && ws.floating.contains_key(id.0) ==> {
                    let at = ws.floating[id.0].viewport.rect.origin;
                    &&& i32::MIN <= at.x <= i32::MAX ==> list[i].x == at.x
                    &&& i32::MIN <= at.y <= i32::MAX ==> list[i].y == at.y
                }
                &&& !ws.tiled.contains_key(id.0) && !ws.floating.contains_key(id.0) ==> list[i].x
                    == 0 && list[i].y == 0
            }
            &&& 0 <= i < list.len() && 0 <= j < list.len() && lies_over(
                ws.mode_of(list[j].window)->0,
                ws.mode_of(list[i].window)->0,
            ) ==> i < j
            &&& 0 <= i < j < list.len() && ws.mode_of(list[i].window) == ws.mode_of(list[j].window)
                ==> focus_laws::in_order(state.windows, list[i].window, list[j].window)
            &&& forall|k: int|
                0 <= k < state.windows.len() && ws.has(#[trigger] state.windows[k]) ==> exists|
                    m: int,
                |
                    0 <= m < list.len() && (#[trigger] list[m]).window == state.windows[k]
        }),
{
    let list = state.drawn();
    let viewport = state.desktop.outputs[state.active_output.0 as u64].output.logical_size;
    lower_layers_come_first(ws, viewport, state.windows, 4);
    if 0 <= i < list.len() {
        let id = list[i].window;
        if ws.tiled.contains_key(id.0) && mode_laws::exact_view(ws.camera.center, viewport)
            && viewport.width % 2 == 0 && viewport.height % 2 == 0 && mode_laws::exact(
            ws.tiled[id.0].geometry.origin.x,
        ) && mode_laws::exact(ws.tiled[id.0].geometry.origin.y) {
            let rect = ws.tiled[id.0].geometry;
            mode_laws::places_are_shifted(
                rect.origin.x as int,
                ws.camera.center.x as int,
                viewport.width as int,
            );
            mode_laws::places_are_shifted(
                rect.origin.y as int,
                ws.camera.center.y as int,
                viewport.height as int,
            );
        }
    }
    assert forall|k: int| 0 <= k < state.windows.len() && ws.has(
        #[trigger] state.windows[k],
    ) implies exists|m: int|
        0 <= m < list.len() && (#[trigger] list[m]).window == state.windows[k] by {
        let d = scene::drawn(ws, state.windows[k], viewport);
        assert(list.contains(d));
        let m = choose|m: int| 0 <= m < list.len() && list[m] == d;
        assert(list[m].window == state.windows[k]);
    }
}

/// The client of a maximized or fullscreen window is asked for the size of the output that the
/// window is on, and the client of any other for the size that the window has; it is told to be
/// fullscreen just when its window is. Nothing is asked of a window that is not mapped.
pub proof fn clients_are_asked_for_their_sizes(
    state: compositor::AsteraView,
    window: WindowId,
    mode: WindowMode,
)
    ensures
        match state.requested_state(window, mode) {
            None => !state.windows.contains(window) || state.desktop.owner(window) is Err
                || state.desktop.place(state.desktop.owner(window)->Ok_0) is None,
            Some(asked) => {
                let place = state.desktop.place(state.desktop.owner(window)->Ok_0)->0;
                &&& state.windows.contains(window)
                &&& asked.fullscreen <==> mode is Fullscreen
                &&& mode is Maximized || mode is Fullscreen ==> match place.0 {
                    Some(k) => {
                        let size = state.desktop.outputs[k].output.logical_size;
                        &&& asked.size is Some
                        &&& 0 < size.width <= i32::MAX ==> (asked.size->0).0 == size.width
                        &&& 0 < size.height <= i32::MAX ==> (asked.size->0).1 == size.height
                    },
                    None => asked.size is None,
                }
                &&& mode is Tiled || mode is Floating ==> match state.desktop.at(place).size_of(
                    window,
                ) {
                    Some(size) => {
                        &&& asked.size is Some
                        &&& 0 < size.width <= i32::MAX ==> (asked.size->0).0 == size.width
                        &&& 0 < size.height <= i32::MAX ==> (asked.size->0).1 == size.height
                    },
                    None => asked.size is None,
                }
            },
        },
{
}

/// The size of a window is that of its rectangle, or of the one that it goes back to.
pub proof fn windows_have_the_sizes_of_their_places(ws: workspace::WorkspaceView, id: WindowId)
    requires
        layout_laws::placed_once(ws, id),
    ensures
        ws.size_of(id) is Some <==> ws.has(id),
        ws.tiled.contains_key(id.0) ==> ws.size_of(id) == Some(ws.tiled[id.0].geometry.size),
        ws.floating.contains_key(id.0) ==> ws.size_of(id) == Some(
            ws.floating[id.0].viewport.rect.size,
        ),
        ws.is_maximized(id) ==> match ws.maximized->0.restore {
            crate::model::RestoreView::Tiled { world_rect } => ws.size_of(id) == Some(
                world_rect.size,
            ),
            crate::model::RestoreView::Floating { viewport } => ws.size_of(id) == Some(
                viewport.rect.size,
            ),
        },
{
}

proof fn all_filling_windows_are_asked(
    d: desktop::DesktopView,
    windows: Seq<WindowId>,
    all: Seq<workspace::WorkspaceView>,
    n: int,
    i: int,
    window: WindowId,
)
    requires
        0 <= i < n <= all.len(),
        windows.contains(window),
        all[i].is_maximized(window) || all[i].is_fullscreen(window),
        d.place(all[i].id) matches Some((Some(_), _)),
    ensures
        ({
            let size = d.outputs[(d.place(all[i].id)->0).0->0].output.logical_size;
            let list = scene::filling_among(d, windows, all, n);
            exists|m: int|
                0 <= m < list.len() && (#[trigger] list[m]).0 == window && (0 < size.width
                    <= i32::MAX ==> list[m].1.0 == size.width) && (0 < size.height <= i32::MAX
                    ==> list[m].1.1 == size.height)
        }),
    decreases n,
{
    let list = scene::filling_among(d, windows, all, n);
    let before = scene::filling_among(d, windows, all, n - 1);
    let size = d.outputs[(d.place(all[i].id)->0).0->0].output.logical_size;
    if i < n - 1 {
        all_filling_windows_are_asked(d, windows, all, n - 1, i, window);
        let m = choose|m: int|
            0 <= m < before.len() && (#[trigger] before[m]).0 == window && (0 < size.width
                <= i32::MAX ==> before[m].1.0 == size.width) && (0 < size.height <= i32::MAX
                ==> before[m].1.1 == size.height);
        assert(list[m] == before[m]);
    } else {
        reveal_with_fuel(scene::mapped_with, 3);
        let own = scene::filling_sizes(d, windows, all[i]);
        let shown = scene::filling(all[i]);
        let asked = scene::asked(size);
        if all[i].is_maximized(window) {
            assert(shown[0] == window);
            assert(own[0] == (window, asked));
            assert(list[before.len() as int] == own[0]);
        } else {
            assert(shown.last() == window);
            assert(own.last() == (window, asked));
            assert(list[before.len() + own.len() - 1] == own.last());
        }
    }
}

/// Every mapped window that is maximized or fullscreen on a workspace of an output is asked for the
/// size of that output.
pub proof fn filling_windows_are_asked_for_their_outputs(
    d: desktop::DesktopView,
    windows: Seq<WindowId>,
    i: int,
    window: WindowId,
)
    requires
        0 <= i < d.all().len(),
        windows.contains(window),
        d.all()[i].is_maximized(window) || d.all()[i].is_fullscreen(window),
        d.place(d.all()[i].id) matches Some((Some(_), _)),
    ensures
        ({
            let size = d.outputs[(d.place(d.all()[i].id)->0).0->0].output.logical_size;
            let list = scene::filling_among(d, windows, d.all(), d.all().len() as int);
            exists|m: int|
                0 <= m < list.len() && (#[trigger] list[m]).0 == window && (0 < size.width
                    <= i32::MAX ==> list[m].1.0 == size.width) && (0 < size.height <= i32::MAX
                    ==> list[m].1.1 == size.height)
        }),
{
    all_filling_windows_are_asked(d, windows, d.all(), d.all().len() as int, i, window);
}

proof fn roots_are_stacked(popups: Seq<usize>, n: int)
    requires
        0 <= n <= popups.len() <= usize::MAX,
    ensures
        ({
            let order = stacking::stacked_roots(popups, n);
            &&& forall|i: int|
                0 <= i < order.len() ==> match #[trigger] order[i] {
                    Layer::Root(r) => r < n,
                    Layer::Popup { root, popup } => root < n && popup < popups[root as int],
                    _ => false,
                }
            &&& forall|i: int, j: int|
                0 <= i < j < order.len() ==> match (#[trigger] order[i], #[trigger] order[j]) {
                    (Layer::Root(a), Layer::Root(b)) => a < b,
                    (Layer::Root(a), Layer::Popup { root, .. }) => a < root,
                    (Layer::Popup { root, .. }, Layer::Root(b)) => root <= b,
                    (Layer::Popup { root: a, popup: p }, Layer::Popup { root: b, popup: q }) => a
                        < b || (a == b && p < q),
                    _ => false,
                }
            &&& forall|r: int| 0 <= r < n ==> #[trigger] order.contains(Layer::Root(r as usize))
        }),
    decreases n,
{
    let order = stacking::stacked_roots(popups, n);
    if n > 0 {
        roots_are_stacked(popups, n - 1);
        let before = stacking::stacked_roots(popups, n - 1);
        let own = stacking::popups_of(n - 1, popups[n - 1] as int);
        assert forall|i: int| 0 <= i < order.len() implies match #[trigger] order[i] {
            Layer::Root(r) => r < n,
            Layer::Popup { root, popup } => root < n && popup < popups[root as int],
            _ => false,
        } by {
            if i < before.len() {
                assert(order[i] == before[i]);
            } else if i < before.len() + own.len() {
                assert(order[i] == own[i - before.len()]);
            }
        }
        assert forall|i: int, j: int| 0 <= i < j < order.len() implies match (
            #[trigger] order[i],
            #[trigger] order[j],
        ) {
            (Layer::Root(a), Layer::Root(b)) => a < b,
            (Layer::Root(a), Layer::Popup { root, .. }) => a < root,
            (Layer::Popup { root, .. }, Layer::Root(b)) => root <= b,
            (Layer::Popup { root: a, popup: p }, Layer::Popup { root: b, popup: q }) => a < b || (a
                == b && p < q),
            _ => false,
        } by {
            if j < before.len() {
                assert(order[i] == before[i] && order[j] == before[j]);
            } else {
                if j < before.len() + own.len() {
                    assert(order[j] == own[j - before.len()]);
                }
                if i < before.len() {
                    assert(order[i] == before[i]);
                } else {
                    assert(order[i] == own[i - before.len()]);
                }
            }
        }
        assert forall|r: int| 0 <= r < n implies #[trigger] order.contains(
            Layer::Root(r as usize),
        ) by {
            if r < n - 1 {
                assert(before.contains(Layer::Root(r as usize)));
                let k = choose|k: int| 0 <= k < before.len() && before[k] == Layer::Root(r as usize);
                assert(order[k] == Layer::Root(r as usize));
            } else {
                assert(order[order.len() - 1] == Layer::Root(r as usize));
            }
        }
    }
}

/// In a frame the pointer lies over everything, and what it drags over all but the pointer. Popups lie
/// over the surface that they belong to, and a surface and its popups over the surfaces behind it.
/// Every surface is there.
pub proof fn frames_are_stacked(popups: Seq<usize>, icon: bool, cursor: bool, i: int, j: int)
    requires
        popups.len() <= usize::MAX,
    ensures
        ({
            let order = stacking::stacked(popups, icon, cursor);
            &&& cursor ==> order.len() > 0 && order[0] == Layer::Cursor
            &&& icon ==> order.contains(Layer::DragIcon)
            &&& !cursor ==> !order.contains(Layer::Cursor)
            &&& !icon ==> !order.contains(Layer::DragIcon)
            &&& forall|r: int|
                0 <= r < popups.len() ==> #[trigger] order.contains(Layer::Root(r as usize))
            &&& 0 <= i < j < order.len() ==> match (order[i], order[j]) {
                (_, Layer::Cursor) => false,
                (front, Layer::DragIcon) => front == Layer::Cursor,
                (Layer::Root(a), Layer::Root(b)) => a < b,
                (Layer::Root(a), Layer::Popup { root, .. }) => a < root,
                (Layer::Popup { root, .. }, Layer::Root(b)) => root <= b,
                (Layer::Popup { root: a, .. }, Layer::Popup { root: b, .. }) => a <= b,
                _ => true,
            }
        }),
{
    let order = stacking::stacked(popups, icon, cursor);
    let roots = stacking::stacked_roots(popups, popups.len() as int);
    roots_are_stacked(popups, popups.len() as int);
    let n: int = (if cursor {
        1int
    } else {
        0int
    }) + (if icon {
        1int
    } else {
        0int
    });
    assert(order.len() == n + roots.len());
    assert forall|k: int| n <= k < order.len() implies #[trigger] order[k] == roots[k - n] by {}
    if icon {
        assert(order[n - 1] == Layer::DragIcon);
    }
    assert forall|r: int| 0 <= r < popups.len() implies #[trigger] order.contains(
        Layer::Root(r as usize),
    ) by {
        assert(roots.contains(Layer::Root(r as usize)));
        let k = choose|k: int| 0 <= k < roots.len() && roots[k] == Layer::Root(r as usize);
        assert(order[n + k] == Layer::Root(r as usize));
    }
    if !cursor && order.contains(Layer::Cursor) {
        let k = choose|k: int| 0 <= k < order.len() && order[k] == Layer::Cursor;
        if k >= n {
            assert(roots[k - n] == Layer::Cursor);
        }
    }
    if !icon && order.contains(Layer::DragIcon) {
        let k = choose|k: int| 0 <= k < order.len() && order[k] == Layer::DragIcon;
        if k >= n {
            assert(roots[k - n] == Layer::DragIcon);
        }
    }
    if 0 <= i < j < order.len() {
        if j >= n {
            assert(order[j] == roots[j - n]);
            if i >= n {
                assert(order[i] == roots[i - n]);
            }
        }
    }
}

} // verus!
