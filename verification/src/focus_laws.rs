//! Which window has the focus, what the camera shows of it, and when a workspace counts as empty.

use crate::geometry::{Point, Rect, Size};
use crate::layout;
use crate::layout::WindowTransaction;
use crate::layout_laws;
use crate::mode_laws;
use crate::model::{CameraPolicy, WindowId};
use crate::viewport::NormalizedPoint;
use crate::viewport_laws;
use crate::workspace;
use vstd::prelude::*;

verus! {

/// Whether a list has two windows in this order.
pub open spec fn in_order(list: Seq<WindowId>, x: WindowId, y: WindowId) -> bool {
    exists|a: int, b: int| 0 <= a < b < list.len() && #[trigger] list[a] == x && #[trigger] list[b] == y
}

/// Whether `short` lists what `long` lists, but for one id, in the same order.
spec fn lists_the_rest(short: Seq<WindowId>, long: Seq<WindowId>, id: WindowId) -> bool {
    &&& !short.contains(id)
    &&& forall|x: WindowId| x != id ==> (#[trigger] short.contains(x) <==> long.contains(x))
    &&& forall|i: int, j: int|
        0 <= i < j < short.len() ==> in_order(long, #[trigger] short[i], #[trigger] short[j])
    &&& long.no_duplicates() ==> short.no_duplicates()
}

proof fn leaving_out_keeps_the_rest(history: Seq<WindowId>, id: WindowId)
    ensures
        lists_the_rest(workspace::without(history, id), history, id),
    decreases history.len(),
{
    let r = workspace::without(history, id);
    if history.len() > 0 {
        let front = history.drop_last();
        let rest = workspace::without(front, id);
        leaving_out_keeps_the_rest(front, id);
        assert forall|x: WindowId| x != id implies (#[trigger] r.contains(x) <==> history.contains(
            x,
        )) by {
            if history.contains(x) {
                let k = choose|k: int| 0 <= k < history.len() && history[k] == x;
                if k < front.len() {
                    assert(front[k] == x);
                    assert(rest.contains(x));
                    let m = choose|m: int| 0 <= m < rest.len() && rest[m] == x;
                    assert(r[m] == x);
                } else {
                    assert(r[r.len() - 1] == x);
                }
            }
            if r.contains(x) {
                let k = choose|k: int| 0 <= k < r.len() && r[k] == x;
                if k < rest.len() {
                    assert(rest[k] == x);
                    assert(rest.contains(x));
                    assert(front.contains(x));
                    let m = choose|m: int| 0 <= m < front.len() && front[m] == x;
                    assert(history[m] == x);
                } else {
                    assert(history[history.len() - 1] == x);
                }
            }
        }
        assert forall|i: int, j: int| 0 <= i < j < r.len() implies in_order(
            history,
            #[trigger] r[i],
            #[trigger] r[j],
        ) by {
            if j < rest.len() {
                assert(rest[i] == r[i] && rest[j] == r[j]);
                assert(in_order(front, rest[i], rest[j]));
                let (a, b) = choose|a: int, b: int|
                    0 <= a < b < front.len() && #[trigger] front[a] == rest[i] && #[trigger] front[b]
                        == rest[j];
                assert(history[a] == r[i] && history[b] == r[j]);
            } else {
                assert(rest[i] == r[i]);
                assert(rest.contains(rest[i]));
                assert(front.contains(rest[i]));
                let a = choose|a: int| 0 <= a < front.len() && front[a] == rest[i];
                assert(history[a] == r[i] && history[history.len() - 1] == r[j]);
            }
        }
        assert(!r.contains(id)) by {
            if r.contains(id) {
                let k = choose|k: int| 0 <= k < r.len() && r[k] == id;
                if k < rest.len() {
                    assert(rest.contains(rest[k]));
                }
            }
        }
        if history.no_duplicates() {
            assert(front.no_duplicates());
            assert forall|i: int, j: int| 0 <= i < j < r.len() implies r[i] != r[j] by {
                if j >= rest.len() {
                    assert(rest.contains(rest[i]));
                    assert(front.contains(rest[i]));
                    let a = choose|a: int| 0 <= a < front.len() && front[a] == rest[i];
                    assert(history[a] != history[history.len() - 1]);
                }
            }
        }
    }
}

/// A window that gets the focus has it, and is the latest of the windows that had it; the others
/// keep their order. A window that the workspace does not have changes nothing. Nothing but the
/// focus changes.
pub proof fn the_focus_is_remembered(ws: workspace::WorkspaceView, id: WindowId)
    ensures
        ({
            let after = ws.focused(id);
            &&& !ws.has(id) ==> after == ws
            &&& ws.has(id) ==> {
                &&& after.focused_window == Some(id)
                &&& after.focus_history.len() > 0 && after.focus_history.last() == id
                &&& forall|x: WindowId|
                    x != id ==> (#[trigger] after.focus_history.contains(x)
                        <==> ws.focus_history.contains(x))
                &&& forall|i: int, j: int|
                    0 <= i < j < after.focus_history.len() - 1 ==> in_order(
                        ws.focus_history,
                        #[trigger] after.focus_history[i],
                        #[trigger] after.focus_history[j],
                    )
                &&& ws.focus_history.no_duplicates() ==> after.focus_history.no_duplicates()
            }
            &&& after.tiled == ws.tiled && after.floating == ws.floating
            &&& after.maximized == ws.maximized && after.fullscreen == ws.fullscreen
            &&& after.camera == ws.camera && after.name == ws.name && after.id == ws.id
        }),
{
    leaving_out_keeps_the_rest(ws.focus_history, id);
    let rest = workspace::without(ws.focus_history, id);
    let after = ws.focused(id);
    if ws.has(id) {
        assert forall|x: WindowId| x != id implies (#[trigger] after.focus_history.contains(x)
            <==> ws.focus_history.contains(x)) by {
            if rest.contains(x) {
                let k = choose|k: int| 0 <= k < rest.len() && rest[k] == x;
                assert(after.focus_history[k] == x);
            }
            if after.focus_history.contains(x) {
                let k = choose|k: int|
                    0 <= k < after.focus_history.len() && after.focus_history[k] == x;
                assert(rest[k] == x);
                assert(rest.contains(x));
            }
        }
        assert forall|i: int, j: int| 0 <= i < j < after.focus_history.len() - 1 implies in_order(
            ws.focus_history,
            #[trigger] after.focus_history[i],
            #[trigger] after.focus_history[j],
        ) by {
            assert(rest[i] == after.focus_history[i] && rest[j] == after.focus_history[j]);
        }
        if ws.focus_history.no_duplicates() {
            assert forall|i: int, j: int| 0 <= i < j < after.focus_history.len() implies
                after.focus_history[i] != after.focus_history[j] by {
                if j == rest.len() {
                    assert(rest.contains(rest[i]));
                }
            }
        }
    }
}

proof fn latest_is_latest(ws: workspace::WorkspaceView, history: Seq<WindowId>)
    ensures
        match ws.latest(history) {
            Some(x) => exists|k: int|
                0 <= k < history.len() && #[trigger] history[k] == x && ws.has(x) && forall|j: int|
                    k < j < history.len() ==> !ws.has(#[trigger] history[j]),
            None => forall|k: int| 0 <= k < history.len() ==> !ws.has(#[trigger] history[k]),
        },
    decreases history.len(),
{
    if history.len() > 0 && !ws.has(history.last()) {
        let front = history.drop_last();
        latest_is_latest(ws, front);
        match ws.latest(front) {
            Some(x) => {
                let k = choose|k: int|
                    0 <= k < front.len() && #[trigger] front[k] == x && ws.has(x) && forall|j: int|
                        k < j < front.len() ==> !ws.has(#[trigger] front[j]);
                assert(history[k] == x);
                assert forall|j: int| k < j < history.len() implies !ws.has(
                    #[trigger] history[j],
                ) by {
                    if j < front.len() {
                        assert(front[j] == history[j]);
                    }
                }
            },
            None => {
                assert forall|k: int| 0 <= k < history.len() implies !ws.has(
                    #[trigger] history[k],
                ) by {
                    if k < front.len() {
                        assert(front[k] == history[k]);
                    }
                }
            },
        }
    } else if history.len() > 0 {
        assert(history[history.len() - 1] == history.last());
    }
}

/// A window that leaves is forgotten, and where it had the focus, the focus goes back to the latest
/// window that had it and is still there, if there is any. Where another window had the focus, it
/// keeps it. All other windows stay as they are. A window that is not there cannot leave, and
/// nothing else is refused.
pub proof fn the_focus_goes_back(
    solver: layout::SolverView,
    ws: workspace::WorkspaceView,
    id: WindowId,
    other: WindowId,
)
    requires
        layout_laws::placed_once(ws, id),
        other != id,
    ensures
        match solver.prepared(ws, WindowTransaction::Remove { id }) {
            Err(fault) => !ws.has(id) && fault == layout::LayoutFault::UnknownWindow(id),
            Ok(prepared) => {
                let after = prepared.workspace;
                &&& ws.has(id)
                &&& !after.has(id)
                &&& after.mode_of(other) == ws.mode_of(other)
                &&& after.tiled[other.0] == ws.tiled[other.0]
                &&& after.floating[other.0] == ws.floating[other.0]
                &&& prepared.source is None
                &&& !after.focus_history.contains(id)
                &&& after.focus_history.contains(other) <==> ws.focus_history.contains(other)
                &&& ws.focused_window != Some(id) ==> after.focused_window == ws.focused_window
                &&& ws.focused_window == Some(id) ==> match after.focused_window {
                    Some(x) => x != id && after.has(x) && exists|k: int|
                        0 <= k < after.focus_history.len() && #[trigger] after.focus_history[k] == x
                            && forall|j: int|
                            k < j < after.focus_history.len() ==> !after.has(
                                #[trigger] after.focus_history[j],
                            ),
                    None => forall|k: int|
                        0 <= k < after.focus_history.len() ==> !after.has(
                            #[trigger] after.focus_history[k],
                        ),
                }
            },
        },
{
    let lifted = ws.lifted(id);
    let history = workspace::without(ws.focus_history, id);
    leaving_out_keeps_the_rest(ws.focus_history, id);
    latest_is_latest(lifted, history);
    if ws.has(id) {
        let after = solver.prepared(ws, WindowTransaction::Remove { id })->Ok_0.workspace;
        assert(after == lifted.unfocused(id));
        assert(forall|x: WindowId| after.has(x) == lifted.has(x));
        if lifted.latest(history) is Some {
            let x = lifted.latest(history)->0;
            let k = choose|k: int|
                0 <= k < history.len() && #[trigger] history[k] == x && lifted.has(x) && forall|
                    j: int,
                |
                    k < j < history.len() ==> !lifted.has(#[trigger] history[j]);
            assert(history[k] == x);
            assert(history.contains(x));
            assert forall|j: int| k < j < history.len() implies !after.has(
                #[trigger] history[j],
            ) by {
                assert(!lifted.has(history[j]));
            }
        } else {
            assert forall|k: int| 0 <= k < history.len() implies !after.has(
                #[trigger] history[k],
            ) by {
                assert(!lifted.has(history[k]));
            }
        }
    }
}

/// A workspace counts as occupied just when it has a name or a window.
pub proof fn occupied_workspaces_have_something(ws: workspace::WorkspaceView)
    ensures
        ws.occupied() <==> ws.name is Some || exists|id: WindowId| #[trigger] ws.has(id),
{
    if ws.occupied() && ws.name is None {
        if ws.tiled.dom() != Set::<u64>::empty() {
            let id = choose|id: u64| ws.tiled.dom().contains(id);
            if !ws.tiled.dom().contains(id) {
                assert(ws.tiled.dom() =~= Set::<u64>::empty());
            }
            assert(ws.has(WindowId(id)));
        } else if ws.floating.dom() != Set::<u64>::empty() {
            let id = choose|id: u64| ws.floating.dom().contains(id);
            if !ws.floating.dom().contains(id) {
                assert(ws.floating.dom() =~= Set::<u64>::empty());
            }
            assert(ws.has(WindowId(id)));
        } else if ws.maximized is Some {
            assert(ws.has(ws.maximized->0.window));
        } else {
            assert(ws.has(ws.fullscreen->0.window));
        }
    }
    if exists|id: WindowId| #[trigger] ws.has(id) {
        let id = choose|id: WindowId| #[trigger] ws.has(id);
        if ws.tiled.contains_key(id.0) {
            assert(ws.tiled.dom().contains(id.0));
        }
        if ws.floating.contains_key(id.0) {
            assert(ws.floating.dom().contains(id.0));
        }
    }
}

/// A camera that keeps the focused window visible shows all of it with its margins, where the
/// viewport has room for them and even extents, and it moves on an axis only where it has to. Where
/// there is no room the middle of the window is in the middle. Nothing but the camera's centre
/// changes.
pub proof fn cameras_keep_the_focus_visible(
    ws: workspace::WorkspaceView,
    window: WindowId,
    margin: i64,
    viewport: Size,
)
    requires
        ws.focused_window == Some(window),
        ws.tiled.contains_key(window.0),
        ws.camera.policy == (CameraPolicy::KeepVisible { margin }),
        0 <= margin < 0x1_0000_0000_0000,
        mode_laws::exact_view(ws.camera.center, viewport),
        viewport.valid(),
        viewport.width % 2 == 0,
        viewport.height % 2 == 0,
        mode_laws::exact(ws.tiled[window.0].geometry.origin.x),
        mode_laws::exact(ws.tiled[window.0].geometry.origin.y),
        ws.tiled[window.0].geometry.size.valid(),
        mode_laws::exact(ws.tiled[window.0].geometry.size.width),
        mode_laws::exact(ws.tiled[window.0].geometry.size.height),
    ensures
        ({
            let rect = ws.tiled[window.0].geometry;
            let (old_center, center) = (ws.camera.center, ws.followed(viewport).camera.center);
            let (w, h) = (viewport.width / 2, viewport.height / 2);
            &&& rect.size.width + 2 * margin <= viewport.width ==> {
                &&& center.x - w + margin <= rect.origin.x && rect.origin.x + rect.size.width
                    <= center.x + w - margin
                &&& old_center.x - w + margin <= rect.origin.x && rect.origin.x + rect.size.width
                    <= old_center.x + w - margin ==> center.x == old_center.x
                &&& center.x < old_center.x ==> center.x - w + margin == rect.origin.x
                &&& center.x > old_center.x ==> rect.origin.x + rect.size.width == center.x + w
                    - margin
            }
            &&& rect.size.width + 2 * margin > viewport.width ==> center.x == rect.origin.x
                + rect.size.width / 2
            &&& rect.size.height + 2 * margin <= viewport.height ==> {
                &&& center.y - h + margin <= rect.origin.y && rect.origin.y + rect.size.height
                    <= center.y + h - margin
                &&& old_center.y - h + margin <= rect.origin.y && rect.origin.y + rect.size.height
                    <= old_center.y + h - margin ==> center.y == old_center.y
                &&& center.y < old_center.y ==> center.y - h + margin == rect.origin.y
                &&& center.y > old_center.y ==> rect.origin.y + rect.size.height == center.y + h
                    - margin
            }
            &&& rect.size.height + 2 * margin > viewport.height ==> center.y == rect.origin.y
                + rect.size.height / 2
            &&& ws.followed(viewport) == (workspace::WorkspaceView {
                camera: crate::model::CameraState { center, ..ws.camera },
                ..ws
            })
        }),
{
    let rect = ws.tiled[window.0].geometry;
    let old_center = ws.camera.center;
    let center = ws.followed(viewport).camera.center;
    axis_is_followed(
        old_center.x as int,
        rect.origin.x as int,
        rect.size.width as int,
        viewport.width as int,
        margin as int,
    );
    axis_is_followed(
        old_center.y as int,
        rect.origin.y as int,
        rect.size.height as int,
        viewport.height as int,
        margin as int,
    );
}

proof fn axis_is_followed(camera: int, start: int, length: int, extent: int, margin: int)
    requires
        margin >= 0,
        extent > 0,
        extent % 2 == 0,
        length > 0,
        -0x1_0000_0000_0000 < camera < 0x1_0000_0000_0000,
        -0x1_0000_0000_0000 < start < 0x1_0000_0000_0000,
        length < 0x1_0000_0000_0000,
        extent < 0x1_0000_0000_0000,
        margin < 0x1_0000_0000_0000,
    ensures
        ({
            let center = workspace::followed_axis(camera, start, length, extent, margin);
            let w = extent / 2;
            &&& i64::MIN <= center <= i64::MAX
            &&& length + 2 * margin <= extent ==> {
                &&& center - w + margin <= start && start + length <= center + w - margin
                &&& camera - w + margin <= start && start + length <= camera + w - margin ==> center
                    == camera
                &&& center < camera ==> center - w + margin == start
                &&& center > camera ==> start + length == center + w - margin
            }
            &&& length + 2 * margin > extent ==> center == start + length / 2
        }),
{
    layout_laws::following_shows(camera, start, length, extent, margin);
    let center = workspace::followed_axis(camera, start, length, extent, margin);
    if length + 2 * margin <= extent {
        let least = if start - margin + extent / 2 < camera {
            start - margin + extent / 2
        } else {
            start + length + margin - extent / 2
        };
        layout_laws::following_moves_least(camera, start, length, extent, margin, least);
    }
}

/// A floating window that is moved goes where it is put, as far as the viewport has room: where it
/// would lie beyond an edge it is moved in as far as it fits. It gets the focus, its place is
/// remembered in proportion, and nothing else changes. A window that is not floating is refused.
pub proof fn floating_windows_stay_in_the_viewport(
    solver: layout::SolverView,
    ws: workspace::WorkspaceView,
    id: WindowId,
    target: Rect,
    viewport_size: Size,
    answers: Seq<Option<Point>>,
)
    requires
        ws.tiled.dom().finite(),
        ws.stable(solver.gap as int),
    ensures
        match solver.applied(
            ws,
            WindowTransaction::MoveFloating { id, target, viewport_size },
            answers,
        ) {
            Err(fault) => !ws.floating.contains_key(id.0) && fault
                == layout::LayoutFault::UnknownWindow(id),
            Ok((after, delta)) => {
                let rect = after.floating[id.0].viewport.rect;
                &&& ws.floating.contains_key(id.0)
                &&& rect.size == target.size
                &&& 0 <= target.origin.x && target.origin.x + target.size.width
                    <= viewport_size.width ==> rect.origin.x == target.origin.x
                &&& 0 <= target.origin.y && target.origin.y + target.size.height
                    <= viewport_size.height ==> rect.origin.y == target.origin.y
                &&& target.origin.x < 0 ==> rect.origin.x == 0
                &&& target.origin.y < 0 ==> rect.origin.y == 0
                &&& target.origin.x >= 0 && target.size.width <= viewport_size.width
                    && target.origin.x + target.size.width > viewport_size.width ==> rect.origin.x
                    + rect.size.width == viewport_size.width
                &&& target.origin.y >= 0 && target.size.height <= viewport_size.height
                    && target.origin.y + target.size.height > viewport_size.height ==> rect.origin.y
                    + rect.size.height == viewport_size.height
                &&& after.floating[id.0].viewport.normalized_center == NormalizedPoint::of_rect(
                    rect,
                    viewport_size,
                )
                &&& after.focused_window == Some(id)
                &&& after.tiled == ws.tiled && after.camera == ws.camera
                &&& after.floating.remove(id.0) == ws.floating.remove(id.0)
                &&& delta.movements == seq![
                    layout::Movement {
                        window: id,
                        from: ws.floating[id.0].viewport.rect.origin,
                        to: rect.origin,
                    },
                ]
            },
        },
{
    viewport_laws::clamping_moves_least(target, viewport_size);
    let transaction = WindowTransaction::MoveFloating { id, target, viewport_size };
    if ws.floating.contains_key(id.0) {
        let prepared = solver.prepared(ws, transaction)->Ok_0;
        assert(prepared.workspace.floating.remove(id.0) =~= ws.floating.remove(id.0));
        reveal_with_fuel(layout::arranged, 2);
        assert(prepared.movements.drop_last() =~= Seq::empty());
        assert(layout::arranged(prepared.movements) =~= prepared.movements);
    }
}

} // verus!
