//! What becomes of windows that are sent to other workspaces, and of workspaces that are shown or
//! named.

use crate::desktop;
use crate::geometry::{Direction, Point};
use crate::layout::WindowTransaction;
use crate::layout_laws;
use crate::model;
use crate::model::{OutputId, WindowId, WindowMode, WorkspaceId};
use crate::ranking;
use crate::workspace;
use vstd::prelude::*;

verus! {

proof fn places_among_are_found(d: desktop::DesktopView, keys: Seq<u64>, n: int, id: WorkspaceId)
    requires
        0 <= n <= keys.len(),
    ensures
        d.placed_among(keys, n, id) is None ==> forall|m: int, j: int|
            0 <= m < n && 0 <= j < d.outputs[keys[m]].workspaces.len() ==> (
            #[trigger] d.outputs[keys[m]].workspaces[j]).id != id,
    decreases n,
{
    if n > 0 {
        places_among_are_found(d, keys, n - 1, id);
        desktop::first_with_id_place(d.outputs[keys[n - 1]].workspaces, id);
    }
}

/// A workspace is found by its id wherever it is, on an output or detached, and only there.
pub proof fn workspaces_are_found_by_id(d: desktop::DesktopView, id: WorkspaceId)
    requires
        d.outputs.dom().finite(),
    ensures
        match d.place(id) {
            Some(place) => d.at(place).id == id && match place.0 {
                Some(k) => d.outputs.contains_key(k) && 0 <= place.1 < d.outputs[k].workspaces.len()
                    && d.at(place) == d.outputs[k].workspaces[place.1],
                None => 0 <= place.1 < d.detached.len() && d.at(place) == d.detached[place.1],
            },
            None => {
                &&& forall|k: u64, i: int|
                    d.outputs.contains_key(k) && 0 <= i < d.outputs[k].workspaces.len() ==> (
                    #[trigger] d.outputs[k].workspaces[i]).id != id
                &&& forall|i: int| 0 <= i < d.detached.len() ==> (#[trigger] d.detached[i]).id != id
            },
        },
{
    d.place_is_known(id);
    let keys = d.keys();
    ranking::ranking_ranks(d.outputs.dom(), |id: u64| 0);
    places_among_are_found(d, keys, keys.len() as int, id);
    desktop::first_with_id_place(d.detached, id);
    if d.place(id) is None {
        assert forall|k: u64, i: int|
            d.outputs.contains_key(k) && 0 <= i < d.outputs[k].workspaces.len() implies (
        #[trigger] d.outputs[k].workspaces[i]).id != id by {
            assert(keys.to_set().contains(k));
            let m = choose|m: int| 0 <= m < keys.len() && keys[m] == k;
            assert(d.outputs[keys[m]].workspaces[i].id != id);
        }
    }
}

proof fn owners_among_have_windows(
    all: Seq<workspace::WorkspaceView>,
    n: int,
    window: WindowId,
)
    requires
        0 <= n <= all.len(),
    ensures
        match desktop::owner_among(all, n, window) {
            Ok(Some(id)) => exists|i: int|
                0 <= i < n && (#[trigger] all[i]).id == id && all[i].has(window) && forall|j: int|
                    0 <= j < n && (#[trigger] all[j]).has(window) ==> j == i,
            Ok(None) => forall|j: int| 0 <= j < n ==> !(#[trigger] all[j]).has(window),
            Err(_) => exists|i: int, j: int|
                0 <= i < j < n && (#[trigger] all[i]).has(window) && (#[trigger] all[j]).has(window),
        },
    decreases n,
{
    if n > 0 {
        owners_among_have_windows(all, n - 1, window);
        match desktop::owner_among(all, n - 1, window) {
            Ok(Some(id)) => {
                let i = choose|i: int|
                    0 <= i < n - 1 && (#[trigger] all[i]).id == id && all[i].has(window)
                        && forall|j: int|
                        0 <= j < n - 1 && (#[trigger] all[j]).has(window) ==> j == i;
                assert(all[i].id == id && all[i].has(window));
                if all[n - 1].has(window) {
                    assert(all[i].has(window) && all[n - 1].has(window));
                }
            },
            Ok(None) => {
                assert(all[n - 1].id == all[n - 1].id);
            },
            Err(_) => {
                let (i, j) = choose|i: int, j: int|
                    0 <= i < j < n - 1 && (#[trigger] all[i]).has(window) && (
                    #[trigger] all[j]).has(window);
                assert(all[i].has(window) && all[j].has(window));
            },
        }
    }
}

/// A window is found in the one workspace that has it; a window that none has is not known, and one
/// that two have is told of.
pub proof fn windows_are_found_where_they_are(d: desktop::DesktopView, window: WindowId)
    ensures
        match d.owner(window) {
            Ok(id) => exists|i: int|
                0 <= i < d.all().len() && (#[trigger] d.all()[i]).id == id && d.all()[i].has(window)
                    && forall|j: int|
                    0 <= j < d.all().len() && (#[trigger] d.all()[j]).has(window) ==> j == i,
            Err(fault) => (fault == desktop::DesktopFault::UnknownWindow(window) && forall|j: int|
                0 <= j < d.all().len() ==> !(#[trigger] d.all()[j]).has(window)) || (fault is
                DuplicateWindow && exists|i: int, j: int|
                0 <= i < j < d.all().len() && (#[trigger] d.all()[i]).has(window) && (
                #[trigger] d.all()[j]).has(window)),
        },
{
    owners_among_have_windows(d.all(), d.all().len() as int, window);
    faults_among_are_duplicates(d.all(), d.all().len() as int, window);
}

proof fn faults_among_are_duplicates(
    all: Seq<workspace::WorkspaceView>,
    n: int,
    window: WindowId,
)
    ensures
        desktop::owner_among(all, n, window) matches Err(fault) ==> fault is DuplicateWindow,
    decreases n,
{
    if n > 0 {
        faults_among_are_duplicates(all, n - 1, window);
    }
}

/// A tiled window that is sent to another workspace leaves the one that has it, and is put there
/// with its size around the middle of the window with the focus, or around the origin of the canvas
/// where no tiled window has it. It has the focus there, and none in the workspace that it left.
pub proof fn sent_tiled_windows_join_the_focus(
    d: desktop::DesktopView,
    window: WindowId,
    from: (Option<u64>, int),
    to: (Option<u64>, int),
    hint: Direction,
    answers: Seq<Option<Point>>,
)
    requires
        d.at(from).tiled.contains_key(window.0),
        d.at(from).tiled.dom().finite(),
        d.at(to).tiled.dom().finite(),
        layout_laws::placed_once(d.at(from), window),
        d.handed_over(window, from, to, hint, answers) is Ok,
    ensures
        ({
            let (source, target) = (d.at(from), d.at(to));
            let (left, joined) = d.handed_over(window, from, to, hint, answers)->Ok_0;
            let size = source.tiled[window.0].geometry.size;
            let rect = joined.tiled[window.0].geometry;
            let middle = match target.focused_window {
                Some(focused) => if target.tiled.contains_key(focused.0) {
                    target.tiled[focused.0].geometry.middle()
                } else {
                    Point { x: 0, y: 0 }
                },
                None => Point { x: 0, y: 0 },
            };
            &&& !left.has(window)
            &&& left.tiled == source.tiled.remove(window.0)
            &&& left.floating == source.floating
            &&& left.focused_window != Some(window)
            &&& joined.tiled.contains_key(window.0)
            &&& joined.focused_window == Some(window)
            &&& joined.layout_direction_hint == hint
            &&& joined.floating == target.floating
            &&& rect.size == size
            &&& i64::MIN <= middle.x - size.width ==> rect.origin.x == middle.x - size.width / 2
            &&& i64::MIN <= middle.y - size.height ==> rect.origin.y == middle.y - size.height / 2
        }),
{
    let (source, target) = (d.at(from), d.at(to));
    let size = source.tiled[window.0].geometry.size;
    let remove = WindowTransaction::Remove { id: window };
    let insert = WindowTransaction::InsertTiled {
        id: window,
        size,
        anchor: target.focus_point(),
        seed_direction: target.layout_direction_hint,
        hint,
    };
    let (left, joined) = d.handed_over(window, from, to, hint, answers)->Ok_0;
    layout_laws::pushing_window_stays(d.solver, target, insert, answers, window);
    layout_laws::only_tiled_windows_are_pushed(d.solver, target, insert, answers);
    let prepared = d.solver.prepared(target, insert)->Ok_0;
    assert(prepared.workspace.tiled.dom() =~= target.tiled.dom().insert(window.0));
    crate::stability::pushing_keeps(
        d.solver.gap,
        d.solver.operation_limit,
        prepared.workspace.tiled,
        window,
        prepared.seed,
        answers,
        0,
    );
    crate::focus_laws::the_focus_goes_back(d.solver, source, window, WindowId(
        if window.0 == 0 {
            1
        } else {
            0
        },
    ));
    assert(left.tiled == source.lifted(window).tiled);
    assert(size.valid());
}

/// A floating window that is sent to another workspace is floating there, with its whole placement
/// taken over to the output of that workspace, if it is on one. It has the focus there.
pub proof fn sent_floating_windows_stay_floating(
    d: desktop::DesktopView,
    window: WindowId,
    from: (Option<u64>, int),
    to: (Option<u64>, int),
    hint: Direction,
    answers: Seq<Option<Point>>,
)
    requires
        d.at(from).mode_of(window) == Some(WindowMode::Floating),
        layout_laws::placed_once(d.at(from), window),
    ensures
        d.handed_over(window, from, to, hint, answers) is Ok,
        ({
            let (source, target) = (d.at(from), d.at(to));
            let (left, joined) = d.handed_over(window, from, to, hint, answers)->Ok_0;
            let (was, is) = (source.floating[window.0].viewport, joined.floating[window.0].viewport);
            &&& !left.has(window)
            &&& left.floating == source.floating.remove(window.0)
            &&& left.tiled == source.tiled
            &&& left.focused_window != Some(window)
            &&& joined.floating.contains_key(window.0)
            &&& joined.floating[window.0].window == window
            &&& joined.focused_window == Some(window)
            &&& joined.tiled == target.tiled
            &&& to.0 is None ==> is == was
            &&& to.0 matches Some(t) ==> {
                let there = d.outputs[t].output;
                is == was.migrated(
                    match from.0 {
                        Some(k) => Some(
                            (d.outputs[k].output.stable_key, d.outputs[k].output.logical_size),
                        ),
                        None => None,
                    },
                    there.stable_key,
                    there.logical_size,
                )
            }
        }),
{
    let source = d.at(from);
    crate::focus_laws::the_focus_goes_back(d.solver, source, window, WindowId(
        if window.0 == 0 {
            1
        } else {
            0
        },
    ));
}

/// A maximized or fullscreen window that is sent to another workspace keeps its mode there and has
/// the focus. Where that workspace has such a window already it is refused and told of it. A tiled
/// place that the window goes back to stays the same.
pub proof fn sent_windows_keep_their_mode(
    d: desktop::DesktopView,
    window: WindowId,
    from: (Option<u64>, int),
    to: (Option<u64>, int),
    hint: Direction,
    answers: Seq<Option<Point>>,
)
    requires
        !d.at(from).tiled.contains_key(window.0),
        !d.at(from).floating.contains_key(window.0),
    ensures
        ({
            let (source, target) = (d.at(from), d.at(to));
            match d.handed_over(window, from, to, hint, answers) {
                Err(fault) => {
                    ||| !source.has(window) && fault == desktop::DesktopFault::UnknownWindow(window)
                    ||| source.is_maximized(window) && target.maximized is Some && fault
                        == desktop::DesktopFault::Layout(
                        crate::layout::LayoutFault::MaximizedOccupied(target.maximized->0.window),
                    )
                    ||| source.is_fullscreen(window) && target.fullscreen is Some && fault
                        == desktop::DesktopFault::Layout(
                        crate::layout::LayoutFault::FullscreenOccupied(target.fullscreen->0.window),
                    )
                },
                Ok((left, joined)) => {
                    &&& source.has(window)
                    &&& joined.focused_window == Some(window)
                    &&& joined.tiled == target.tiled && joined.floating == target.floating
                    &&& source.is_maximized(window) ==> {
                        &&& target.maximized is None
                        &&& left.maximized is None
                        &&& joined.is_maximized(window)
                        &&& source.maximized->0.restore is Tiled
                            ==> joined.maximized->0.restore == source.maximized->0.restore
                        &&& source.maximized->0.restore is Floating
                            ==> joined.maximized->0.restore is Floating
                    }
                    &&& !source.is_maximized(window) ==> {
                        &&& target.fullscreen is None
                        &&& left.fullscreen is None
                        &&& joined.is_fullscreen(window)
                        &&& source.fullscreen->0.restore is Tiled
                            ==> joined.fullscreen->0.restore == source.fullscreen->0.restore
                        &&& source.fullscreen->0.restore is Floating
                            ==> joined.fullscreen->0.restore is Floating
                        &&& source.fullscreen->0.restore is Maximized
                            ==> joined.fullscreen->0.restore is Maximized
                    }
                },
            }
        }),
{
}

/// A floating place that a maximized or fullscreen window goes back to is taken over to the output
/// of the workspace that it is sent to, as that of a floating window would be.
pub proof fn sent_windows_take_their_places_along(
    d: desktop::DesktopView,
    window: WindowId,
    from: (Option<u64>, int),
    to: (Option<u64>, int),
    hint: Direction,
    answers: Seq<Option<Point>>,
    k: u64,
    t: u64,
)
    requires
        !d.at(from).tiled.contains_key(window.0),
        !d.at(from).floating.contains_key(window.0),
        from.0 == Some(k),
        to.0 == Some(t),
        d.handed_over(window, from, to, hint, answers) is Ok,
    ensures
        ({
            let source = d.at(from);
            let joined = (d.handed_over(window, from, to, hint, answers)->Ok_0).1;
            let here = d.outputs[k].output;
            let there = d.outputs[t].output;
            let old_place = Some((here.stable_key, here.logical_size));
            &&& source.is_maximized(window) ==> (source.maximized->0.restore matches
                model::RestoreView::Floating { viewport } ==> joined.maximized->0.restore
                == (model::RestoreView::Floating {
                viewport: viewport.migrated(old_place, there.stable_key, there.logical_size),
            }))
            &&& !source.is_maximized(window) ==> (source.fullscreen->0.restore matches
                model::FullscreenRestoreView::Floating { viewport }
                ==> joined.fullscreen->0.restore == (model::FullscreenRestoreView::Floating {
                viewport: viewport.migrated(old_place, there.stable_key, there.logical_size),
            }))
            &&& !source.is_maximized(window) ==> (source.fullscreen->0.restore matches
                model::FullscreenRestoreView::Maximized {
                restore: model::RestoreView::Floating { viewport },
            } ==> joined.fullscreen->0.restore == (model::FullscreenRestoreView::Maximized {
                restore: model::RestoreView::Floating {
                    viewport: viewport.migrated(old_place, there.stable_key, there.logical_size),
                },
            }))
            &&& !source.is_maximized(window) ==> (source.fullscreen->0.restore matches
                model::FullscreenRestoreView::Maximized {
                restore: model::RestoreView::Tiled { world_rect },
            } ==> joined.fullscreen->0.restore == source.fullscreen->0.restore)
        }),
{
}

/// What is at a place of an output once the workspaces at two places have been replaced.
proof fn two_are_replaced(
    d: desktop::DesktopView,
    from: (Option<u64>, int),
    to: (Option<u64>, int),
    left: workspace::WorkspaceView,
    joined: workspace::WorkspaceView,
    k: u64,
    i: int,
)
    requires
        from != to,
        from.0 matches Some(f) ==> d.outputs.contains_key(f) && 0 <= from.1
            < d.outputs[f].workspaces.len(),
        to.0 matches Some(t) ==> d.outputs.contains_key(t) && 0 <= to.1
            < d.outputs[t].workspaces.len(),
        d.outputs.contains_key(k),
        0 <= i < d.outputs[k].workspaces.len(),
    ensures
        ({
            let after = d.with_at(from, left).with_at(to, joined).adopted(to);
            let here = (Some(k), i);
            &&& after.outputs.contains_key(k)
            &&& after.outputs[k].output == d.outputs[k].output
            &&& after.outputs[k].active == d.outputs[k].active
            &&& after.outputs[k].workspaces.len() == d.outputs[k].workspaces.len()
            &&& here != to && here != from ==> after.outputs[k].workspaces[i]
                == d.outputs[k].workspaces[i]
            &&& here == from ==> after.outputs[k].workspaces[i] == left
            &&& here == to ==> after.outputs[k].workspaces[i] == if joined.name is None {
                workspace::WorkspaceView {
                    original_output: Some(d.outputs[k].output.stable_key),
                    ..joined
                }
            } else {
                joined
            }
            &&& after.primary_output == d.primary_output
            &&& after.last_active == d.last_active
        }),
{
    let one = d.with_at(from, left);
    assert(one.outputs.contains_key(k));
    assert(one.outputs[k].workspaces.len() == d.outputs[k].workspaces.len());
    let two = one.with_at(to, joined);
    assert(two.outputs.contains_key(k));
    assert(two.outputs[k].workspaces.len() == d.outputs[k].workspaces.len());
}

/// A window that is sent leaves every workspace but the two as it is. The output of the workspace
/// that it joins shows that workspace, where this was asked for; otherwise all outputs show what
/// they showed. A workspace without a name that it joins belongs to its output from then on. To send
/// a window to the workspace that has it does no more than to show that workspace, where asked for.
pub proof fn sending_leaves_the_rest(
    d: desktop::DesktopView,
    window: WindowId,
    target: WorkspaceId,
    activate: bool,
    hint: Direction,
    answers: Seq<Option<Point>>,
    k: u64,
    i: int,
)
    requires
        d.outputs.dom().finite(),
        d.sent(window, target, activate, hint, answers) is Ok,
        d.outputs.contains_key(k),
        0 <= i < d.outputs[k].workspaces.len() < usize::MAX,
    ensures
        ({
            let after = d.sent(window, target, activate, hint, answers)->Ok_0;
            let source = d.owner(window)->Ok_0;
            let to = d.place(target)->0;
            let from = d.place(source)->0;
            let here = (Some(k), i);
            &&& d.owner(window) is Ok && d.place(target) is Some
            &&& after.outputs.contains_key(k)
            &&& after.outputs[k].output == d.outputs[k].output
            &&& after.outputs[k].workspaces.len() == d.outputs[k].workspaces.len()
            &&& after.outputs[k].workspaces[i].id == d.outputs[k].workspaces[i].id || here == to
                || here == from
            &&& here != to && here != from ==> after.outputs[k].workspaces[i]
                == d.outputs[k].workspaces[i]
            &&& activate && to.0 == Some(k) ==> after.outputs[k].active == to.1
            &&& !(activate && to.0 == Some(k)) ==> after.outputs[k].active == d.outputs[k].active
            &&& source == target ==> after.outputs[k].workspaces[i] == d.outputs[k].workspaces[i]
            &&& source != target && here == to ==> {
                let (left, joined) = d.handed_over(window, from, to, hint, answers)->Ok_0;
                &&& after.outputs[k].workspaces[i].tiled == joined.tiled
                &&& after.outputs[k].workspaces[i].floating == joined.floating
                &&& after.outputs[k].workspaces[i].focused_window == joined.focused_window
                &&& joined.name is None ==> after.outputs[k].workspaces[i].original_output == Some(
                    d.outputs[k].output.stable_key,
                )
                &&& joined.name is Some ==> after.outputs[k].workspaces[i] == joined
            }
            &&& source != target && here == from && here != to ==> after.outputs[k].workspaces[i]
                == d.handed_over(window, from, to, hint, answers)->Ok_0.0
            &&& after.primary_output == d.primary_output
            &&& after.last_active == d.last_active
        }),
{
    let source = d.owner(window)->Ok_0;
    d.place_is_known(target);
    d.place_is_known(source);
    let to = d.place(target)->0;
    if source != target {
        let from = d.place(source)->0;
        let (left, joined) = d.handed_over(window, from, to, hint, answers)->Ok_0;
        assert(from != to);
        two_are_replaced(d, from, to, left, joined, k, i);
        let after = d.with_at(from, left).with_at(to, joined).adopted(to);
        assert(d.sent(window, target, activate, hint, answers)->Ok_0 == if activate {
            after.showing(to)
        } else {
            after
        });
    }
}

/// An output that is told to shows the workspace, and nothing else changes. It is refused just when
/// the workspace is not on that output.
pub proof fn focused_workspaces_are_shown(
    d: desktop::DesktopView,
    output: OutputId,
    workspace: WorkspaceId,
    k: u64,
)
    requires
        d.outputs.dom().finite(),
    ensures
        match d.refocused(output, workspace) {
            Ok(after) => {
                let set = after.outputs[output.0 as u64];
                &&& d.outputs.contains_key(output.0 as u64)
                &&& (d.place(workspace)->0).0 == Some(output.0 as u64)
                &&& set.workspaces == d.outputs[output.0 as u64].workspaces
                &&& set.output == d.outputs[output.0 as u64].output
                &&& set.workspaces[(d.place(workspace)->0).1].id == workspace
                &&& (d.place(workspace)->0).1 <= usize::MAX ==> set.active == (d.place(workspace)->0).1
                &&& k != output.0 as u64 ==> after.outputs[k] == d.outputs[k]
                &&& after.outputs.dom() == d.outputs.dom()
                &&& after.detached == d.detached
                &&& after.primary_output == d.primary_output
            },
            Err(fault) => {
                &&& fault == desktop::DesktopFault::UnknownWorkspace(workspace)
                &&& match d.place(workspace) {
                    Some((Some(on), _)) => on != output.0 as u64,
                    _ => true,
                }
            },
        },
{
    d.place_is_known(workspace);
    if d.refocused(output, workspace) is Ok {
        assert(d.refocused(output, workspace)->Ok_0.outputs.dom() =~= d.outputs.dom());
    }
}

/// A workspace that is named has the name, or none, and nothing else changes. A name that another
/// workspace has, and a workspace that does not exist, are refused, and nothing else.
pub proof fn named_workspaces_have_the_name(
    d: desktop::DesktopView,
    workspace: WorkspaceId,
    name: Option<Seq<char>>,
)
    requires
        d.outputs.dom().finite(),
    ensures
        match d.renamed(workspace, name) {
            Ok(after) => {
                let place = d.place(workspace)->0;
                &&& d.place(workspace) is Some
                &&& name matches Some(text) ==> forall|i: int|
                    0 <= i < d.all().len() && (#[trigger] d.all()[i]).id != workspace
                        ==> d.all()[i].name != Some(text)
                &&& after.at(place).name == name
                &&& after.at(place).id == workspace
                &&& after.at(place).tiled == d.at(place).tiled
                &&& after.at(place).floating == d.at(place).floating
                &&& after.at(place).focused_window == d.at(place).focused_window
                &&& after.at(place).original_output == d.at(place).original_output
                &&& after.outputs.dom() == d.outputs.dom()
                &&& after.primary_output == d.primary_output
                &&& forall|k: u64|
                    place.0 != Some(k) ==> #[trigger] after.outputs[k] == d.outputs[k]
                &&& place.0 matches Some(k) ==> {
                    &&& after.outputs[k].active == d.outputs[k].active
                    &&& after.outputs[k].output == d.outputs[k].output
                    &&& after.detached == d.detached
                    &&& forall|i: int|
                        0 <= i < d.outputs[k].workspaces.len() && i != place.1
                            ==> #[trigger] after.outputs[k].workspaces[i]
                            == d.outputs[k].workspaces[i]
                }
            },
            Err(fault) => {
                ||| fault == desktop::DesktopFault::UnknownWorkspace(workspace) && d.place(workspace)
                    is None
                ||| name is Some && fault == desktop::DesktopFault::DuplicateWorkspaceName(name->0)
                    && exists|i: int|
                    0 <= i < d.all().len() && (#[trigger] d.all()[i]).id != workspace
                        && d.all()[i].name == name
            },
        },
{
    d.place_is_known(workspace);
    if let Ok(after) = d.renamed(workspace, name) {
        assert(after.outputs.dom() =~= d.outputs.dom());
    }
}

/// A window that gets the focus has it in its workspace, and the output of that workspace shows it.
pub proof fn focused_windows_are_shown(d: desktop::DesktopView, window: WindowId)
    requires
        d.outputs.dom().finite(),
        d.focused_window(window) is Ok,
    ensures
        ({
            let (after, id) = d.focused_window(window)->Ok_0;
            let place = d.place(id)->0;
            &&& d.owner(window) == Ok::<WorkspaceId, desktop::DesktopFault>(id)
            &&& place.0 matches Some(k) ==> place.1 < usize::MAX ==> {
                &&& after.outputs.contains_key(k)
                &&& after.outputs[k].active < after.outputs[k].workspaces.len()
                &&& after.outputs[k].workspaces[after.outputs[k].active as int].id == id
                &&& d.at(place).has(window) ==> after.outputs[k].workspaces[
                    after.outputs[k].active as int
                ].focused_window == Some(window)
                &&& after.outputs[k].workspaces[after.outputs[k].active as int].tiled == d.at(
                    place,
                ).tiled
            }
        }),
{
    let id = d.owner(window)->Ok_0;
    d.place_is_known(id);
    let place = d.place(id)->0;
    if let Some(k) = place.0 {
        let ws = d.at(place).focused(window);
        let seen = ws.followed((d.viewport_at(place)->0).1);
        let shown = d.with_at(place, seen).showing(place);
        assert(shown.outputs.dom() =~= d.outputs.dom());
        if place.1 < usize::MAX {
            let fresh = crate::homecoming::normalized_output(shown, k);
            crate::homecoming::normalization_keeps_shown(shown.outputs[k], fresh);
        }
    }
}

} // verus!
