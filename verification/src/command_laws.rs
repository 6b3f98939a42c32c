//! What commands do to the desktop, and what clients are shown of it.

use crate::compositor;
use crate::desktop;
use crate::geometry;
use crate::geometry::{Direction, Point};
use crate::layout::WindowTransaction;
use crate::model;
use crate::model::{OutputId, WindowId, WorkspaceId};
use crate::outputs;
use crate::ranking;
use crate::sending_laws;
use crate::snapshot;
use crate::wire::v1;
use crate::workspace;
use vstd::prelude::*;

verus! {

proof fn keys_among_are_found(d: desktop::DesktopView, keys: Seq<u64>, n: int, key: Seq<char>)
    requires
        0 <= n <= keys.len(),
    ensures
        match compositor::keyed_among(d, keys, n, key) {
            Some(k) => exists|i: int|
                0 <= i < n && #[trigger] keys[i] == k && d.outputs[k].output.stable_key == key,
            None => forall|i: int|
                0 <= i < n ==> d.outputs[#[trigger] keys[i]].output.stable_key != key,
        },
    decreases n,
{
    if n > 0 {
        keys_among_are_found(d, keys, n - 1, key);
        match compositor::keyed_among(d, keys, n - 1, key) {
            Some(k) => {
                let i = choose|i: int|
                    0 <= i < n - 1 && #[trigger] keys[i] == k && d.outputs[k].output.stable_key == key;
                assert(keys[i] == k);
            },
            None => {
                assert(keys[n - 1] == keys[n - 1]);
            },
        }
    }
}

/// An output is meant by its id, by its stable key, or as the active one; each selector finds the
/// output that it says, and is refused just when there is none.
pub proof fn selectors_mean_outputs(
    state: compositor::AsteraView,
    id: v1::OutputId,
    key: Seq<char>,
)
    requires
        state.desktop.outputs.dom().finite(),
        forall|k: u64| #[trigger] state.desktop.outputs.contains_key(k) ==> k <= u32::MAX,
    ensures
        match state.resolved_output(v1::OutputSelectorView::Id(id)) {
            Ok(output) => output.0 == id.0 && state.desktop.outputs.contains_key(id.0 as u64),
            Err(fault) => !state.desktop.outputs.contains_key(id.0 as u64) && fault
                == compositor::CommandFault::UnknownOutput(OutputId(id.0)),
        },
        match state.resolved_output(v1::OutputSelectorView::Active) {
            Ok(output) => output == state.active_output && state.desktop.outputs.contains_key(
                output.0 as u64,
            ),
            Err(fault) => !state.desktop.outputs.contains_key(state.active_output.0 as u64),
        },
        match state.resolved_output(v1::OutputSelectorView::Key(key)) {
            Ok(output) => state.desktop.outputs.contains_key(output.0 as u64)
                && state.desktop.outputs[output.0 as u64].output.stable_key == key,
            Err(fault) => fault == compositor::CommandFault::UnknownOutputKey(key) && forall|k: u64|
             #[trigger]
                state.desktop.outputs.contains_key(k)
                    ==> state.desktop.outputs[k].output.stable_key != key,
        },
{
    let d = state.desktop;
    let keys = d.keys();
    ranking::ranking_ranks(d.outputs.dom(), |id: u64| 0);
    keys_among_are_found(d, keys, keys.len() as int, key);
    match compositor::keyed_among(d, keys, keys.len() as int, key) {
        Some(k) => {
            let i = choose|i: int|
                0 <= i < keys.len() && #[trigger] keys[i] == k && d.outputs[k].output.stable_key
                    == key;
            assert(keys.to_set().contains(keys[i]));
        },
        None => {
            assert forall|k: u64| #[trigger] d.outputs.contains_key(k) implies
                d.outputs[k].output.stable_key != key by {
                assert(keys.to_set().contains(k));
                let i = choose|i: int| 0 <= i < keys.len() && keys[i] == k;
                assert(d.outputs[keys[i]].output.stable_key != key);
            }
        },
    }
}

proof fn names_among_are_found(all: Seq<workspace::WorkspaceView>, n: int, name: Seq<char>)
    requires
        0 <= n <= all.len(),
    ensures
        match compositor::named_among(all, n, name) {
            Some(id) => exists|i: int|
                0 <= i < n && (#[trigger] all[i]).id == id && all[i].name == Some(name),
            None => forall|i: int| 0 <= i < n ==> (#[trigger] all[i]).name != Some(name),
        },
    decreases n,
{
    if n > 0 {
        names_among_are_found(all, n - 1, name);
        match compositor::named_among(all, n - 1, name) {
            Some(id) => {
                let i = choose|i: int|
                    0 <= i < n - 1 && (#[trigger] all[i]).id == id && all[i].name == Some(name);
                assert(all[i].id == id);
            },
            None => {
                assert(all[n - 1].id == all[n - 1].id);
            },
        }
    }
}

/// A workspace is meant by its id, by its name, or by its place on an output, where the first one
/// has the index one. Each selector finds the workspace that it says, and is refused just when there
/// is none.
pub proof fn selectors_mean_workspaces(
    state: compositor::AsteraView,
    id: v1::WorkspaceId,
    name: Seq<char>,
    output: v1::OutputSelectorView,
    index: u32,
)
    requires
        state.desktop.outputs.dom().finite(),
    ensures
        match state.resolved_workspace(v1::WorkspaceSelectorView::Id(id)) {
            Ok(found) => found.0 == id.0 && state.desktop.place(found) is Some,
            Err(fault) => state.desktop.place(WorkspaceId(id.0)) is None && fault
                == compositor::CommandFault::UnknownWorkspace(WorkspaceId(id.0)),
        },
        match state.resolved_workspace(v1::WorkspaceSelectorView::Name(name)) {
            Ok(found) => exists|i: int|
                0 <= i < state.desktop.all().len() && (#[trigger] state.desktop.all()[i]).id == found
                    && state.desktop.all()[i].name == Some(name),
            Err(fault) => fault == compositor::CommandFault::UnknownWorkspaceName(name) && forall|
                i: int,
            |
                0 <= i < state.desktop.all().len() ==> (#[trigger] state.desktop.all()[i]).name
                    != Some(name),
        },
        state.resolved_output(output) is Ok && state.desktop.outputs.contains_key(
            (state.resolved_output(output)->Ok_0).0 as u64,
        ) ==> {
            let on = state.resolved_output(output)->Ok_0;
            let list = state.desktop.outputs[on.0 as u64].workspaces;
            match state.resolved_workspace(
                v1::WorkspaceSelectorView::LocalIndex { output, index },
            ) {
                Ok(found) => index >= 1 && index <= list.len() && list[index - 1].id == found,
                Err(fault) => (index == 0 || index > list.len()) && fault
                    == (compositor::CommandFault::UnknownWorkspaceIndex { output: on, index }),
            }
        },
        state.resolved_output(output) matches Err(fault) ==> state.resolved_workspace(
            v1::WorkspaceSelectorView::LocalIndex { output, index },
        ) == Err::<WorkspaceId, compositor::CommandFault>(fault),
{
    names_among_are_found(state.desktop.all(), state.desktop.all().len() as int, name);
}

/// A camera that is moved goes as far as was asked for on each axis, as long as the canvas reaches;
/// its policy stays. A policy that is set leaves the camera where it is. No other workspace changes,
/// and of this one nothing but the camera.
pub proof fn cameras_are_moved(
    state: compositor::AsteraView,
    id: v1::WorkspaceId,
    dx: i64,
    dy: i64,
    policy: v1::CameraPolicy,
    guidance: compositor::GuidanceView,
    place: (Option<u64>, int),
)
    requires
        state.desktop.outputs.dom().finite(),
        state.desktop.place(WorkspaceId(id.0)) == Some(place),
    ensures
        ({
            let before = state.desktop.at(place);
            let moved = state.executed(
                v1::CommandView::PanCamera { workspace: id, dx, dy },
                guidance,
            )->Ok_0;
            let set = state.executed(
                v1::CommandView::SetCameraPolicy { workspace: id, policy },
                guidance,
            )->Ok_0;
            let (now, then) = (moved.desktop.at(place), set.desktop.at(place));
            &&& state.executed(v1::CommandView::PanCamera { workspace: id, dx, dy }, guidance) is Ok
            &&& state.executed(
                v1::CommandView::SetCameraPolicy { workspace: id, policy },
                guidance,
            ) is Ok
            &&& i64::MIN <= before.camera.center.x + dx <= i64::MAX ==> now.camera.center.x
                == before.camera.center.x + dx
            &&& i64::MIN <= before.camera.center.y + dy <= i64::MAX ==> now.camera.center.y
                == before.camera.center.y + dy
            &&& now.camera.policy == before.camera.policy
            &&& now == (workspace::WorkspaceView { camera: now.camera, ..before })
            &&& then.camera.center == before.camera.center
            &&& policy is Centered ==> then.camera.policy == model::CameraPolicy::Centered
            &&& policy matches v1::CameraPolicy::KeepVisible { margin } ==> then.camera.policy == (
            model::CameraPolicy::KeepVisible { margin })
            &&& then == (workspace::WorkspaceView { camera: then.camera, ..before })
            &&& moved.active_output == state.active_output
            &&& forall|k: u64|
                place.0 != Some(k) ==> #[trigger] moved.desktop.outputs[k]
                    == state.desktop.outputs[k]
            &&& place.0 matches Some(k) ==> forall|i: int|
                0 <= i < state.desktop.outputs[k].workspaces.len() && i != place.1
                    ==> #[trigger] moved.desktop.outputs[k].workspaces[i]
                    == state.desktop.outputs[k].workspaces[i]
        }),
{
    state.desktop.place_is_known(WorkspaceId(id.0));
}

/// A command on windows and workspaces does just what the transaction on the desktop does that says
/// the same, and the active output stays.
pub proof fn commands_are_transactions(
    state: compositor::AsteraView,
    guidance: compositor::GuidanceView,
    window: v1::WindowId,
    workspace: v1::WorkspaceId,
    target: v1::WorkspaceSelectorView,
    output: v1::OutputSelectorView,
    index: Option<u32>,
    activate: bool,
    name: Option<Seq<char>>,
)
    ensures
        state.executed(
            v1::CommandView::MoveWindow { window, target, activate },
            guidance,
        ) matches Ok(after) ==> {
            &&& state.resolved_workspace(target) is Ok
            &&& after.active_output == state.active_output && after.windows == state.windows
            &&& state.desktop.applied(
                desktop::TransactionView::SendWindow {
                    window: WindowId(window.0),
                    target: state.resolved_workspace(target)->Ok_0,
                    activate,
                    hint: guidance.hint,
                },
                guidance.answers,
            ) matches Ok((done, _)) && done == after.desktop
        },
        state.executed(
            v1::CommandView::MoveWorkspace {
                workspace,
                target_output: output,
                target_index: index,
                activate,
            },
            guidance,
        ) matches Ok(after) ==> {
            &&& state.resolved_output(output) is Ok
            &&& after.active_output == state.active_output && after.windows == state.windows
            &&& state.desktop.applied(
                desktop::TransactionView::Move {
                    workspace: WorkspaceId(workspace.0),
                    target_output: state.resolved_output(output)->Ok_0,
                    target_index: match index {
                        Some(i) => Some(i as usize),
                        None => None,
                    },
                    activate,
                },
                guidance.answers,
            ) matches Ok((done, _)) && done == after.desktop
        },
        state.executed(v1::CommandView::SetWorkspaceName { workspace, name }, guidance) matches Ok(
            after,
        ) ==> {
            &&& after.active_output == state.active_output && after.windows == state.windows
            &&& state.desktop.applied(
                desktop::TransactionView::SetName { workspace: WorkspaceId(workspace.0), name },
                guidance.answers,
            ) matches Ok((done, _)) && done == after.desktop
        },
{
    reveal(compositor::AsteraView::transacted);
}

/// A workspace or a window that gets the focus takes the active output along: the output that the
/// workspace is on is the active one then. A window is looked for where it is, a workspace that is
/// on no output is refused, and so is what is not there.
pub proof fn the_active_output_follows_the_focus(
    state: compositor::AsteraView,
    guidance: compositor::GuidanceView,
    window: v1::WindowId,
    workspace: v1::WorkspaceId,
)
    requires
        state.desktop.outputs.dom().finite(),
        forall|k: u64| #[trigger] state.desktop.outputs.contains_key(k) ==> k <= u32::MAX,
    ensures
        ({
            let id = WorkspaceId(workspace.0);
            match state.executed(
                v1::CommandView::FocusWorkspace {
                    workspace: v1::WorkspaceSelectorView::Id(workspace),
                },
                guidance,
            ) {
                Ok(after) => {
                    &&& state.desktop.place(id) matches Some((Some(k), i)) && k
                        == after.active_output.0 as u64
                    &&& state.desktop.applied(
                        desktop::TransactionView::Focus {
                            output: after.active_output,
                            workspace: id,
                        },
                        Seq::empty(),
                    ) matches Ok((done, _)) && done == after.desktop
                },
                Err(fault) => {
                    &&& state.desktop.place(id) is None ==> fault
                        == compositor::CommandFault::UnknownWorkspace(id)
                    &&& state.desktop.place(id) matches Some((None, _)) ==> fault
                        == compositor::CommandFault::Detached(id)
                },
            }
        }),
        state.executed(v1::CommandView::FocusWindow(window), guidance) matches Ok(after) ==> {
            &&& state.desktop.focused_window(WindowId(window.0)) matches Ok((done, id)) && done
                == after.desktop && state.desktop.owner(WindowId(window.0)) == Ok::<
                WorkspaceId,
                desktop::DesktopFault,
            >(id)
            &&& after.desktop.place(state.desktop.owner(WindowId(window.0))->Ok_0) matches Some(
                (Some(k), _),
            ) ==> after.active_output == OutputId(k as u32)
        },
{
    reveal(compositor::AsteraView::workspace_focused);
    reveal(compositor::AsteraView::window_focused);
    state.desktop.place_is_known(WorkspaceId(workspace.0));
}

/// A window that changes its mode does so in the viewport of the output that it is on. An output is
/// configured with just what the command says, where the backend can see to that, and not at all
/// where it cannot.
pub proof fn modes_and_outputs_are_set_as_asked(
    state: compositor::AsteraView,
    guidance: compositor::GuidanceView,
    window: v1::WindowId,
    mode: v1::WindowMode,
    output: v1::OutputSelectorView,
    physical_size: v1::Size,
    logical_size: v1::Size,
    native_scale: v1::Scale120,
    transform: v1::OutputTransform,
)
    ensures
        state.executed(v1::CommandView::SetWindowMode { window, mode }, guidance) matches Ok(after)
            ==> {
            let ws = state.desktop.owner(WindowId(window.0))->Ok_0;
            &&& state.desktop.owner(WindowId(window.0)) is Ok
            &&& after.active_output == state.active_output
            &&& exists|viewport_size: geometry::Size, new_mode: model::WindowMode|
                {
                    &&& #[trigger] state.desktop.applied_window(
                        ws,
                        WindowTransaction::SetMode {
                            id: WindowId(window.0),
                            mode: new_mode,
                            viewport_size,
                        },
                        guidance.answers,
                    ) == Ok::<desktop::DesktopView, desktop::DesktopFault>(after.desktop)
                    &&& (mode is Tiled) == (new_mode is Tiled)
                    &&& (mode is Floating) == (new_mode is Floating)
                    &&& (mode is Maximized) == (new_mode is Maximized)
                    &&& (mode is Fullscreen) == (new_mode is Fullscreen)
                    &&& state.desktop.place(ws) matches Some((Some(k), _)) ==> viewport_size
                        == state.desktop.outputs[k].output.logical_size
                }
        },
        ({
            let command = v1::CommandView::ConfigureOutput {
                output,
                physical_size,
                logical_size,
                native_scale,
                transform,
            };
            &&& !state.output_configuration_supported ==> state.executed(command, guidance) == Err::<
                compositor::AsteraView,
                compositor::CommandFault,
            >(compositor::CommandFault::Unconfigurable)
            &&& state.executed(command, guidance) matches Ok(after) ==> {
                &&& state.output_configuration_supported
                &&& state.resolved_output(output) is Ok
                &&& exists|turned: outputs::OutputTransform|
                    {
                        &&& #[trigger] state.desktop.configured(
                            state.resolved_output(output)->Ok_0,
                            geometry::Size {
                                width: physical_size.width,
                                height: physical_size.height,
                            },
                            geometry::Size {
                                width: logical_size.width,
                                height: logical_size.height,
                            },
                            outputs::Scale120(native_scale.0),
                            turned,
                        ) == Ok::<desktop::DesktopView, desktop::DesktopFault>(after.desktop)
                        &&& (transform is Normal) == (turned is Normal)
                        &&& (transform is Rotate90) == (turned is Rotate90)
                        &&& (transform is Rotate180) == (turned is Rotate180)
                        &&& (transform is Rotate270) == (turned is Rotate270)
                        &&& (transform is Flipped) == (turned is Flipped)
                    }
            }
        }),
{
    reveal(compositor::AsteraView::mode_set);
    reveal(compositor::AsteraView::output_configured);
}

/// A window that a client maps gets the next id, which is then used up, and the usual size of 800 by
/// 600. It goes to the workspace that the active output shows, around the middle of the window with
/// the focus, or around the origin of the canvas where no tiled window has it.
pub proof fn mapped_windows_join_the_focus(
    state: compositor::AsteraView,
    hint: Direction,
    answers: Seq<Option<Point>>,
    ws: workspace::WorkspaceView,
)
    requires
        state.desktop.shown(state.active_output) == Some(ws),
        state.next_window_id < u64::MAX,
        state.mapped(hint, answers).1 is None,
    ensures
        ({
            let after = state.mapped(hint, answers).0;
            let middle = match ws.focused_window {
                Some(focused) => if ws.tiled.contains_key(focused.0) {
                    ws.tiled[focused.0].geometry.middle()
                } else {
                    Point { x: 0, y: 0 }
                },
                None => Point { x: 0, y: 0 },
            };
            &&& after.next_window_id == state.next_window_id + 1
            &&& after.windows == state.windows.push(WindowId(state.next_window_id))
            &&& after.active_output == state.active_output
            &&& state.desktop.applied_window(
                ws.id,
                WindowTransaction::InsertTiled {
                    id: WindowId(state.next_window_id),
                    size: geometry::Size { width: 800, height: 600 },
                    anchor: middle,
                    seed_direction: ws.layout_direction_hint,
                    hint,
                },
                answers,
            ) == Ok::<desktop::DesktopView, desktop::DesktopFault>(after.desktop)
        }),
{
}

/// The size of the active output is changed as asked for, with all else about it the same; a size
/// that is not valid changes nothing.
pub proof fn outputs_are_resized(state: compositor::AsteraView, size: geometry::Size)
    requires
        state.desktop.outputs.contains_key(state.active_output.0 as u64),
    ensures
        ({
            let after = state.resized(size);
            let (was, now) = (
                state.desktop.outputs[state.active_output.0 as u64].output,
                after.desktop.outputs[state.active_output.0 as u64].output,
            );
            &&& now.logical_size == size || after == state
            &&& now.physical_size == was.physical_size
            &&& now.native_scale == was.native_scale
            &&& now.transform == was.transform
            &&& now.stable_key == was.stable_key
            &&& after.active_output == state.active_output
            &&& size.width <= 0 || size.height <= 0 ==> after == state || was.logical_size == size
        }),
{
}

proof fn the_living_are_listed(windows: Seq<WindowId>, dead: Seq<WindowId>)
    ensures
        forall|id: WindowId| #[trigger]
            compositor::living(windows, dead).contains(id) <==> windows.contains(id)
                && !dead.contains(id),
    decreases windows.len(),
{
    let all = compositor::living(windows, dead);
    if windows.len() > 0 {
        let front = windows.drop_last();
        the_living_are_listed(front, dead);
        let rest = compositor::living(front, dead);
        assert forall|id: WindowId| #[trigger]
            all.contains(id) <==> windows.contains(id) && !dead.contains(id) by {
            if windows.contains(id) && !dead.contains(id) {
                let k = choose|k: int| 0 <= k < windows.len() && windows[k] == id;
                if k < front.len() {
                    assert(front[k] == id);
                    assert(rest.contains(id));
                    let m = choose|m: int| 0 <= m < rest.len() && rest[m] == id;
                    assert(all[m] == id);
                } else {
                    assert(all[all.len() - 1] == id);
                }
            }
            if all.contains(id) {
                let k = choose|k: int| 0 <= k < all.len() && all[k] == id;
                if k < rest.len() {
                    assert(rest[k] == id);
                    assert(rest.contains(id));
                    assert(front.contains(id));
                    let m = choose|m: int| 0 <= m < front.len() && front[m] == id;
                    assert(windows[m] == id);
                } else {
                    assert(windows[windows.len() - 1] == id);
                }
            }
        }
    } else {
        assert(all =~= windows);
    }
}

/// The windows that are left are those that were there and are not dead.
pub proof fn the_living_stay(windows: Seq<WindowId>, dead: Seq<WindowId>, id: WindowId)
    ensures
        compositor::living(windows, dead).contains(id) <==> windows.contains(id) && !dead.contains(
            id,
        ),
{
    the_living_are_listed(windows, dead);
}

/// A mode, a policy and a transform go over the wire under their own names.
pub proof fn wire_values_keep_their_names(
    mode: model::WindowMode,
    policy: model::CameraPolicy,
    transform: outputs::OutputTransform,
)
    ensures
        (mode is Tiled) == (snapshot::wire_mode(mode) is Tiled),
        (mode is Floating) == (snapshot::wire_mode(mode) is Floating),
        (mode is Maximized) == (snapshot::wire_mode(mode) is Maximized),
        (mode is Fullscreen) == (snapshot::wire_mode(mode) is Fullscreen),
        (policy is Centered) == (snapshot::wire_policy(policy) is Centered),
        policy matches model::CameraPolicy::KeepVisible { margin } ==> snapshot::wire_policy(policy)
            == (v1::CameraPolicy::KeepVisible { margin }),
        (transform is Normal) == (snapshot::wire_transform(transform) is Normal),
        (transform is Rotate90) == (snapshot::wire_transform(transform) is Rotate90),
        (transform is Rotate180) == (snapshot::wire_transform(transform) is Rotate180),
        (transform is Rotate270) == (snapshot::wire_transform(transform) is Rotate270),
        (transform is Flipped) == (snapshot::wire_transform(transform) is Flipped),
{
}

/// What a client is shown of an output is what the output is: its id and key, what it shows and
/// which workspaces it has in which order, its sizes and its scale.
pub proof fn snapshots_tell_of_outputs(d: desktop::DesktopView, i: int)
    requires
        0 <= i < d.keys().len(),
    ensures
        snapshot::snapshot(d).outputs.len() == d.keys().len(),
        ({
            let told = snapshot::snapshot(d).outputs[i];
            let set = d.outputs[d.keys()[i]];
            &&& told.id.0 == set.output.id.0
            &&& told.stable_key == set.output.stable_key
            &&& told.active_workspace.0 == set.workspaces[set.active as int].id.0
            &&& told.workspaces.len() == set.workspaces.len()
            &&& forall|j: int|
                0 <= j < set.workspaces.len() ==> (#[trigger] told.workspaces[j]).0
                    == set.workspaces[j].id.0
            &&& told.physical_size.width == set.output.physical_size.width
            &&& told.physical_size.height == set.output.physical_size.height
            &&& told.logical_size.width == set.output.logical_size.width
            &&& told.logical_size.height == set.output.logical_size.height
            &&& told.native_scale.0 == set.output.native_scale.0
            &&& told.viewport.origin == (v1::Point { x: 0, y: 0 })
            &&& told.viewport.size == told.logical_size
            &&& told.usable_area == told.viewport
        }),
        snapshot::snapshot(d).primary_output is Some <==> d.primary_output is Some,
        d.primary_output matches Some(primary) ==> snapshot::snapshot(d).primary_output == Some(
            v1::OutputId(primary.0),
        ),
{
}

/// What a client is shown of a workspace is what the workspace is: its name and origin, the output
/// that it is on and its place there, counted from one, its window with the focus, its camera, and
/// how many windows it has.
pub proof fn snapshots_tell_of_workspaces(d: desktop::DesktopView, i: int)
    requires
        d.outputs.dom().finite(),
        0 <= i < d.all().len(),
    ensures
        snapshot::snapshot(d).workspaces.len() == d.all().len(),
        snapshot::snapshot(d).cameras.len() == d.all().len(),
        ({
            let told = snapshot::snapshot(d).workspaces[i];
            let camera = snapshot::snapshot(d).cameras[i];
            let ws = d.all()[i];
            &&& told.id.0 == ws.id.0
            &&& told.name == ws.name
            &&& told.original_output == ws.original_output
            &&& told.active_window is Some <==> ws.focused_window is Some
            &&& ws.focused_window matches Some(focused) ==> told.active_window == Some(
                v1::WindowId(focused.0),
            )
            &&& ws.tiled.dom().len() <= u64::MAX ==> told.tiled_count == ws.tiled.dom().len()
            &&& ws.floating.dom().len() <= u64::MAX ==> told.floating_count
                == ws.floating.dom().len()
            &&& told.fullscreen is Some <==> ws.fullscreen is Some
            &&& ws.fullscreen matches Some(full) ==> told.fullscreen == Some(
                v1::WindowId(full.window.0),
            )
            &&& match told.output {
                Some(output) => exists|k: u64, j: int|
                    d.outputs.contains_key(k) && 0 <= j < d.outputs[k].workspaces.len() && output.0
                        == k as u32 && (#[trigger] d.outputs[k].workspaces[j]).id == ws.id && (j
                        < u32::MAX ==> told.local_index == Some((j + 1) as u32)),
                None => told.local_index is None && (d.place(ws.id) matches Some((on, _)) ==> on
                    is None),
            }
            &&& camera.workspace.0 == ws.id.0
            &&& camera.center.x == ws.camera.center.x
            &&& camera.center.y == ws.camera.center.y
        }),
{
    let ws = d.all()[i];
    d.place_is_known(ws.id);
    if let Some((Some(k), j)) = d.place(ws.id) {
        assert(d.outputs[k].workspaces[j].id == ws.id);
    }
}

/// What a client is shown of a window is what the window is: its workspace, its mode, and the
/// rectangle that it has, on the canvas where it is tiled and in the viewport where it is floating,
/// or the one that it goes back to.
pub proof fn snapshots_tell_of_windows(ws: workspace::WorkspaceView, id: u64)
    requires
        ws.tiled.dom().finite(),
        ws.floating.dom().finite(),
    ensures
        ({
            let told = snapshot::windows(ws);
            &&& ws.tiled.contains_key(id) ==> exists|i: int|
                0 <= i < told.len() && {
                    let rect = ws.tiled[id].geometry;
                    &&& (#[trigger] told[i]).id.0 == ws.tiled[id].id.0
                    &&& told[i].workspace.0 == ws.id.0
                    &&& told[i].mode is Tiled
                    &&& told[i].placement == (v1::WindowPlacement::Tiled {
                        world_geometry: v1::Rect {
                            origin: v1::Point { x: rect.origin.x, y: rect.origin.y },
                            size: v1::Size { width: rect.size.width, height: rect.size.height },
                        },
                    })
                }
            &&& ws.floating.contains_key(id) ==> exists|i: int|
                0 <= i < told.len() && {
                    let rect = ws.floating[id].viewport.rect;
                    &&& (#[trigger] told[i]).id.0 == ws.floating[id].window.0
                    &&& told[i].workspace.0 == ws.id.0
                    &&& told[i].mode is Floating
                    &&& told[i].placement == (v1::WindowPlacement::Floating {
                        viewport_geometry: v1::Rect {
                            origin: v1::Point { x: rect.origin.x, y: rect.origin.y },
                            size: v1::Size { width: rect.size.width, height: rect.size.height },
                        },
                    })
                }
            &&& ws.maximized matches Some(m) ==> exists|i: int|
                0 <= i < told.len() && (#[trigger] told[i]).id.0 == m.window.0 && told[i].mode is
                    Maximized && told[i].placement is Maximized
            &&& ws.fullscreen matches Some(f) ==> exists|i: int|
                0 <= i < told.len() && (#[trigger] told[i]).id.0 == f.window.0 && told[i].mode is
                    Fullscreen && told[i].placement is Fullscreen
        }),
{
    let told = snapshot::windows(ws);
    let (t, f, m) = (
        snapshot::tiled_windows(ws),
        snapshot::floating_windows(ws),
        snapshot::maximized_window(ws),
    );
    ranking::ranking_ranks(ws.tiled.dom(), |id: u64| 0);
    ranking::ranking_ranks(ws.floating.dom(), |id: u64| 0);
    if ws.tiled.contains_key(id) {
        let keys = ranking::ascending(ws.tiled.dom());
        assert(keys.to_set().contains(id));
        let i = choose|i: int| 0 <= i < keys.len() && keys[i] == id;
        assert(told[i] == t[i]);
        assert(told[i].id.0 == ws.tiled[id].id.0);
    }
    if ws.floating.contains_key(id) {
        let keys = ranking::ascending(ws.floating.dom());
        assert(keys.to_set().contains(id));
        let i = choose|i: int| 0 <= i < keys.len() && keys[i] == id;
        assert(told[t.len() + i] == f[i]);
        assert(told[t.len() + i].id.0 == ws.floating[id].window.0);
    }
    if ws.maximized is Some {
        assert(told[(t.len() + f.len()) as int].id.0 == ws.maximized->0.window.0);
    }
    if ws.fullscreen is Some {
        assert(told[(t.len() + f.len() + m.len()) as int].id.0 == ws.fullscreen->0.window.0);
    }
}

/// Whether a command is refused with a code.
pub open spec fn refused(
    outcome: Result<compositor::AsteraView, compositor::CommandFault>,
    code: v1::ErrorCode,
) -> bool {
    outcome is Err && outcome->Err_0.code() == code
}

/// A command that names what is not there is told that it was not found; a name that another
/// workspace has is a conflict, and so is what the backend cannot see to; an output without an
/// area or a scale is no valid request.
pub proof fn refusals_say_what_is_wrong(
    state: compositor::AsteraView,
    guidance: compositor::GuidanceView,
    window: v1::WindowId,
    id: v1::OutputId,
    workspace: v1::WorkspaceId,
    name: Seq<char>,
    width: i64,
    height: i64,
    scale: u32,
)
    ensures
        (forall|j: int|
            0 <= j < state.desktop.all().len() ==> !(#[trigger] state.desktop.all()[j]).has(
                WindowId(window.0),
            )) ==> refused(
            state.executed(v1::CommandView::CloseWindow(window), guidance),
            v1::ErrorCode::NotFound,
        ),
        !state.desktop.outputs.contains_key(id.0 as u64) ==> refused(
            state.executed(
                v1::CommandView::FocusOutput(v1::OutputSelectorView::Id(id)),
                guidance,
            ),
            v1::ErrorCode::NotFound,
        ),
        state.desktop.place(WorkspaceId(workspace.0)) is None ==> refused(
            state.executed(
                v1::CommandView::FocusWorkspace {
                    workspace: v1::WorkspaceSelectorView::Id(workspace),
                },
                guidance,
            ),
            v1::ErrorCode::NotFound,
        ),
        (exists|j: int|
            0 <= j < state.desktop.all().len() && (#[trigger] state.desktop.all()[j]).id.0
                != workspace.0 && state.desktop.all()[j].name == Some(name)) ==> refused(
            state.executed(
                v1::CommandView::SetWorkspaceName { workspace, name: Some(name) },
                guidance,
            ),
            v1::ErrorCode::Conflict,
        ),
        !state.output_configuration_supported ==> refused(
            state.output_configured(
                v1::OutputSelectorView::Id(id),
                geometry::Size { width, height },
                geometry::Size { width, height },
                outputs::Scale120(scale),
                outputs::OutputTransform::Normal,
            ),
            v1::ErrorCode::Conflict,
        ),
        state.output_configuration_supported && state.desktop.outputs.contains_key(id.0 as u64) && (
        width <= 0 || height <= 0 || scale == 0) ==> refused(
            state.output_configured(
                v1::OutputSelectorView::Id(id),
                geometry::Size { width, height },
                geometry::Size { width, height },
                outputs::Scale120(scale),
                outputs::OutputTransform::Normal,
            ),
            v1::ErrorCode::InvalidRequest,
        ),
{
    reveal(compositor::AsteraView::transacted);
    reveal(compositor::AsteraView::workspace_focused);
    reveal(compositor::AsteraView::output_configured);
    crate::sending_laws::windows_are_found_where_they_are(state.desktop, WindowId(window.0));
}

/// Who asks for the state is told the state, as it is after all that was asked for before; for
/// any other command that was done it is said that it was.
pub proof fn answers_fit_the_commands(
    command: v1::CommandView,
    after: compositor::AsteraView,
    sequence: u64,
)
    ensures
        command is GetState ==> compositor::reply(command, after, sequence)
            == (v1::SuccessView::State { sequence, snapshot: after.shown_state() }),
        !(command is GetState) ==> compositor::reply(command, after, sequence)
            == (v1::SuccessView::Handled { sequence }),
        after.shown_state().active_output == Some(v1::OutputId(after.active_output.0)),
{
}

} // verus!
