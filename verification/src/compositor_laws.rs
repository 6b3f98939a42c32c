//! What commands keep.

use crate::assurance;
use crate::client;
use crate::compositor;
use crate::desktop;
use crate::geometry;
use crate::layout;
use crate::layout::WindowTransaction;
use crate::model;
use crate::model::WorkspaceId;
use crate::outputs;
use crate::ranking;
use crate::snapshot;
use crate::steadiness;
use crate::survival;
use crate::wire::v1;
use crate::workspace;
use vstd::prelude::*;

verus! {

/// Two workspaces that differ in their cameras and generations alone.
spec fn alike(a: workspace::WorkspaceView, b: workspace::WorkspaceView) -> bool {
    b == (workspace::WorkspaceView { camera: b.camera, generation: b.generation, ..a })
}

spec fn lists_alike(a: Seq<workspace::WorkspaceView>, b: Seq<workspace::WorkspaceView>) -> bool {
    &&& a.len() == b.len()
    &&& forall|i: int| 0 <= i < a.len() ==> alike(#[trigger] a[i], b[i])
}

/// Two desktops that differ in the cameras and the generations of their workspaces, and in what
/// validity does not rest on.
spec fn desktops_alike(a: desktop::DesktopView, b: desktop::DesktopView) -> bool {
    &&& a.outputs.dom() == b.outputs.dom()
    &&& forall|k: u64| #[trigger]
        a.outputs.contains_key(k) ==> a.outputs[k].output == b.outputs[k].output
            && a.outputs[k].active == b.outputs[k].active && lists_alike(
            a.outputs[k].workspaces,
            b.outputs[k].workspaces,
        )
    &&& lists_alike(a.detached, b.detached)
    &&& a.primary_output == b.primary_output
}

proof fn gathered_alike(a: desktop::DesktopView, b: desktop::DesktopView, keys: Seq<u64>, n: int)
    requires
        desktops_alike(a, b),
        0 <= n <= keys.len(),
        forall|i: int| 0 <= i < keys.len() ==> a.outputs.contains_key(#[trigger] keys[i]),
    ensures
        lists_alike(a.gathered(keys, n), b.gathered(keys, n)),
    decreases n,
{
    if n > 0 {
        gathered_alike(a, b, keys, n - 1);
        assert(a.outputs.contains_key(keys[n - 1]));
    }
}

proof fn claims_alike(a: Seq<workspace::WorkspaceView>, b: Seq<workspace::WorkspaceView>, n: int)
    requires
        lists_alike(a, b),
        0 <= n <= a.len(),
    ensures
        desktop::claimed(a, n) == desktop::claimed(b, n),
    decreases n,
{
    if n > 0 {
        claims_alike(a, b, n - 1);
        let (x, y) = (a[n - 1], b[n - 1]);
        assert(alike(x, y));
        assert(forall|id: model::WindowId| x.has(id) == y.has(id));
        assert(desktop::coherent(x) == desktop::coherent(y));
        assert(forall|j: int|
            0 <= j < n ==> (#[trigger] a[j]).id == b[j].id && a[j].name == b[j].name);
        assert((exists|j: int| 0 <= j < n - 1 && (#[trigger] a[j]).id == x.id) == (exists|j: int|
            0 <= j < n - 1 && (#[trigger] b[j]).id == y.id)) by {
            if exists|j: int| 0 <= j < n - 1 && (#[trigger] a[j]).id == x.id {
                let j = choose|j: int| 0 <= j < n - 1 && (#[trigger] a[j]).id == x.id;
                assert(b[j].id == y.id);
            }
            if exists|j: int| 0 <= j < n - 1 && (#[trigger] b[j]).id == y.id {
                let j = choose|j: int| 0 <= j < n - 1 && (#[trigger] b[j]).id == y.id;
                assert(a[j].id == x.id);
            }
        }
        assert((exists|j: int| 0 <= j < n - 1 && (#[trigger] a[j]).name == x.name) == (exists|
            j: int,
        |
            0 <= j < n - 1 && (#[trigger] b[j]).name == y.name)) by {
            if exists|j: int| 0 <= j < n - 1 && (#[trigger] a[j]).name == x.name {
                let j = choose|j: int| 0 <= j < n - 1 && (#[trigger] a[j]).name == x.name;
                assert(b[j].name == y.name);
            }
            if exists|j: int| 0 <= j < n - 1 && (#[trigger] b[j]).name == y.name {
                let j = choose|j: int| 0 <= j < n - 1 && (#[trigger] b[j]).name == y.name;
                assert(a[j].name == x.name);
            }
        }
        assert(desktop::identity_fault(a, n - 1) == desktop::identity_fault(b, n - 1));
        assert(desktop::windows_of(x) == desktop::windows_of(y));
    }
}

proof fn output_faults_alike(
    a: desktop::DesktopView,
    b: desktop::DesktopView,
    keys: Seq<u64>,
    n: int,
)
    requires
        desktops_alike(a, b),
        0 <= n <= keys.len(),
        forall|i: int| 0 <= i < keys.len() ==> a.outputs.contains_key(#[trigger] keys[i]),
    ensures
        a.outputs_fault(keys, n) == b.outputs_fault(keys, n),
    decreases n,
{
    if n > 0 {
        output_faults_alike(a, b, keys, n - 1);
        let k = keys[n - 1];
        assert(a.outputs.contains_key(k));
        let (x, y) = (a.outputs[k], b.outputs[k]);
        assert forall|j: int| 0 <= j < n implies (#[trigger] a.outputs[keys[j]]).output
            == b.outputs[keys[j]].output by {
            assert(a.outputs.contains_key(keys[j]));
        }
        assert((exists|j: int|
            0 <= j < n - 1 && (#[trigger] a.outputs[keys[j]]).output.stable_key
                == x.output.stable_key) == (exists|j: int|
            0 <= j < n - 1 && (#[trigger] b.outputs[keys[j]]).output.stable_key
                == y.output.stable_key)) by {
            if exists|j: int|
                0 <= j < n - 1 && (#[trigger] a.outputs[keys[j]]).output.stable_key
                    == x.output.stable_key {
                let j = choose|j: int|
                    0 <= j < n - 1 && (#[trigger] a.outputs[keys[j]]).output.stable_key
                        == x.output.stable_key;
                assert(b.outputs[keys[j]].output.stable_key == y.output.stable_key);
            }
            if exists|j: int|
                0 <= j < n - 1 && (#[trigger] b.outputs[keys[j]]).output.stable_key
                    == y.output.stable_key {
                let j = choose|j: int|
                    0 <= j < n - 1 && (#[trigger] b.outputs[keys[j]]).output.stable_key
                        == y.output.stable_key;
                assert(a.outputs[keys[j]].output.stable_key == x.output.stable_key);
            }
        }
        if x.workspaces.len() > 0 {
            assert(alike(x.workspaces[x.workspaces.len() - 1], y.workspaces[x.workspaces.len() - 1]));
        }
        assert(outputs::SetView::needs_placeholder(x.workspaces)
            == outputs::SetView::needs_placeholder(y.workspaces));
        assert(a.output_fault(keys, n - 1) == b.output_fault(keys, n - 1));
    }
}

proof fn cameras_keep_validity(a: desktop::DesktopView, b: desktop::DesktopView)
    requires
        desktops_alike(a, b),
        a.outputs.dom().finite(),
        a.valid(),
    ensures
        b.valid(),
{
    let keys = a.keys();
    ranking::ranking_ranks(a.outputs.dom(), |id: u64| 0);
    assert forall|i: int| 0 <= i < keys.len() implies a.outputs.contains_key(#[trigger] keys[i]) by {
        assert(keys.to_set().contains(keys[i]));
    }
    gathered_alike(a, b, keys, keys.len() as int);
    output_faults_alike(a, b, keys, keys.len() as int);
    assert(lists_alike(a.all(), b.all()));
    claims_alike(a.all(), b.all(), a.all().len() as int);
}

proof fn camera_changes_are_alike(
    state: compositor::AsteraView,
    id: WorkspaceId,
    camera: model::CameraState,
)
    requires
        state.desktop.outputs.dom().finite(),
        state.desktop.valid(),
        state.camera_of(id) is Some,
    ensures
        state.with_camera(id, camera).desktop.valid(),
{
    let (a, b) = (state.desktop, state.with_camera(id, camera).desktop);
    a.place_is_known(id);
    assert(a.outputs.dom() =~= b.outputs.dom());
    cameras_keep_validity(a, b);
}

/// A command that is done leaves a valid desktop where it found one.
pub proof fn commands_keep_the_desktop_valid(
    state: compositor::AsteraView,
    command: v1::CommandView,
    guidance: compositor::GuidanceView,
)
    requires
        state.desktop.outputs.dom().finite(),
        state.desktop.valid(),
    ensures
        state.executed(command, guidance) matches Ok(after) ==> after.desktop.valid(),
{
    reveal(compositor::AsteraView::transacted);
    reveal(compositor::AsteraView::window_focused);
    reveal(compositor::AsteraView::workspace_focused);
    reveal(compositor::AsteraView::direction_focused);
    reveal(compositor::AsteraView::mode_set);
    reveal(compositor::AsteraView::output_configured);
    match command {
        v1::CommandView::SetCameraPolicy { workspace, policy } => {
            let id = WorkspaceId(workspace.0);
            if let Some(camera) = state.camera_of(id) {
                camera_changes_are_alike(
                    state,
                    id,
                    model::CameraState { policy: compositor::core_policy(policy), ..camera },
                );
            }
        },
        v1::CommandView::PanCamera { workspace, dx, dy } => {
            let id = WorkspaceId(workspace.0);
            if let Some(camera) = state.camera_of(id) {
                camera_changes_are_alike(
                    state,
                    id,
                    model::CameraState {
                        center: compositor::panned(camera.center, dx, dy),
                        ..camera
                    },
                );
            }
        },
        _ => {},
    }
}

/// A command that is done leaves a settled desktop where it found one, as long as there are ids
/// for new workspaces: outputs can be connected and disconnected after any commands.
pub proof fn commands_keep_the_desktop_settled(
    state: compositor::AsteraView,
    command: v1::CommandView,
    guidance: compositor::GuidanceView,
)
    requires
        assurance::settled(state.desktop),
        state.desktop.next_workspace_id + state.desktop.outputs.dom().len() <= u32::MAX,
    ensures
        state.executed(command, guidance) matches Ok(after) ==> assurance::settled(after.desktop),
{
    let d = state.desktop;
    commands_keep_the_desktop_valid(state, command, guidance);
    match command {
        v1::CommandView::FocusWindow(window) => {
            reveal(compositor::AsteraView::window_focused);
            steadiness::focusing_keeps_settled(
                d,
                model::WindowId(window.0),
                WorkspaceId(0),
                guidance.hint,
                guidance.scores,
            );
        },
        v1::CommandView::FocusDirection(_) => {
            reveal(compositor::AsteraView::direction_focused);
            if let Some(ws) = d.shown(state.active_output) {
                steadiness::focusing_keeps_settled(
                    d,
                    model::WindowId(0),
                    ws.id,
                    guidance.hint,
                    guidance.scores,
                );
            }
        },
        v1::CommandView::ConfigureOutput {
            output,
            physical_size,
            logical_size,
            native_scale,
            transform,
        } => {
            reveal(compositor::AsteraView::output_configured);
            if let Ok(id) = state.resolved_output(output) {
                steadiness::configuring_keeps_settled(
                    d,
                    id,
                    compositor::core_size(physical_size),
                    compositor::core_size(logical_size),
                    outputs::Scale120(native_scale.0),
                    compositor::core_transform(transform),
                );
            }
        },
        v1::CommandView::FocusWorkspace { workspace } => {
            reveal(compositor::AsteraView::workspace_focused);
            if let Ok(id) = state.resolved_workspace(workspace) {
                if let Some((Some(k), _)) = d.place(id) {
                    steadiness::transactions_keep_settled(
                        d,
                        desktop::TransactionView::Focus {
                            output: model::OutputId(k as u32),
                            workspace: id,
                        },
                        Seq::empty(),
                    );
                }
            }
        },
        v1::CommandView::MoveWorkspace { workspace, target_output, target_index, activate } => {
            reveal(compositor::AsteraView::transacted);
            if let Ok(target) = state.resolved_output(target_output) {
                steadiness::transactions_keep_settled(
                    d,
                    desktop::TransactionView::Move {
                        workspace: WorkspaceId(workspace.0),
                        target_output: target,
                        target_index: match target_index {
                            Some(index) => Some(index as usize),
                            None => None,
                        },
                        activate,
                    },
                    guidance.answers,
                );
            }
        },
        v1::CommandView::SetWorkspaceName { workspace, name } => {
            reveal(compositor::AsteraView::transacted);
            steadiness::transactions_keep_settled(
                d,
                desktop::TransactionView::SetName { workspace: WorkspaceId(workspace.0), name },
                guidance.answers,
            );
        },
        v1::CommandView::MoveWindow { window, target, activate } => {
            reveal(compositor::AsteraView::transacted);
            if let Ok(id) = state.resolved_workspace(target) {
                steadiness::transactions_keep_settled(
                    d,
                    desktop::TransactionView::SendWindow {
                        window: model::WindowId(window.0),
                        target: id,
                        activate,
                        hint: guidance.hint,
                    },
                    guidance.answers,
                );
            }
        },
        v1::CommandView::SetWindowMode { window, mode } => {
            reveal(compositor::AsteraView::mode_set);
            let id = model::WindowId(window.0);
            if let Ok(ws) = d.owner(id) {
                steadiness::window_transactions_keep_settled(
                    d,
                    ws,
                    WindowTransaction::SetMode {
                        id,
                        mode: compositor::core_mode(mode),
                        viewport_size: state.viewport_for(ws),
                    },
                    guidance.answers,
                );
            }
        },
        v1::CommandView::SetCameraPolicy { workspace, policy } => {
            let id = WorkspaceId(workspace.0);
            if let Some(camera) = state.camera_of(id) {
                steadiness::cameras_keep_settled(
                    d,
                    id,
                    model::CameraState { policy: compositor::core_policy(policy), ..camera },
                );
            }
        },
        v1::CommandView::PanCamera { workspace, dx, dy } => {
            let id = WorkspaceId(workspace.0);
            if let Some(camera) = state.camera_of(id) {
                steadiness::cameras_keep_settled(
                    d,
                    id,
                    model::CameraState {
                        center: compositor::panned(camera.center, dx, dy),
                        ..camera
                    },
                );
            }
        },
        _ => {},
    }
}

/// A window that a client maps leaves a settled desktop where it found one.
pub proof fn mapping_keeps_the_desktop_settled(
    state: compositor::AsteraView,
    hint: geometry::Direction,
    answers: Seq<Option<geometry::Point>>,
)
    requires
        assurance::settled(state.desktop),
        state.desktop.next_workspace_id + state.desktop.outputs.dom().len() <= u32::MAX,
    ensures
        assurance::settled(state.mapped(hint, answers).0.desktop),
{
    let ws = state.desktop.shown(state.active_output)->0;
    steadiness::window_transactions_keep_settled(
        state.desktop,
        ws.id,
        state.insertion(ws, hint),
        answers,
    );
}

/// Asking for the state, and asking a window to close, change nothing.
pub proof fn queries_change_nothing(
    state: compositor::AsteraView,
    window: v1::WindowId,
    guidance: compositor::GuidanceView,
)
    ensures
        state.executed(v1::CommandView::GetState, guidance) == Ok::<
            compositor::AsteraView,
            compositor::CommandFault,
        >(state),
        state.executed(v1::CommandView::CloseWindow(window), guidance) matches Ok(after) ==> after
            == state,
{
}

/// What a client is shown after a successful focus of an output names that output as active.
pub proof fn focused_outputs_are_shown(
    state: compositor::AsteraView,
    output: v1::OutputSelectorView,
    guidance: compositor::GuidanceView,
)
    ensures
        match state.executed(v1::CommandView::FocusOutput(output), guidance) {
            Ok(after) => after.desktop == state.desktop && after.shown_state().active_output
                == Some(v1::OutputId(after.active_output.0)),
            Err(fault) => fault.code() == v1::ErrorCode::NotFound,
        },
{
}

/// What goes over the wire and back is what it was.
pub proof fn wire_values_round_trip(
    mode: model::WindowMode,
    policy: model::CameraPolicy,
    transform: outputs::OutputTransform,
    size: geometry::Size,
)
    ensures
        compositor::core_mode(snapshot::wire_mode(mode)) == mode,
        compositor::core_policy(snapshot::wire_policy(policy)) == policy,
        compositor::core_transform(snapshot::wire_transform(transform)) == transform,
        compositor::core_size(snapshot::wire_size(size)) == size,
{
}

proof fn names_agree(
    desktop: desktop::DesktopView,
    list: Seq<v1::WorkspaceSnapshotView>,
    from: int,
    name: Seq<char>,
)
    requires
        0 <= from <= desktop.all().len(),
        list == snapshot::snapshot(desktop).workspaces.skip(from),
        compositor::named_among(desktop.all(), from, name) is None,
    ensures
        match compositor::named_among(desktop.all(), desktop.all().len() as int, name) {
            Some(id) => client::workspace_named(list, name) == Some(v1::WorkspaceId(id.0)),
            None => client::workspace_named(list, name) is None,
        },
    decreases list.len(),
{
    let all = desktop.all();
    if from < all.len() {
        assert(list[0] == snapshot::workspace(desktop, all[from]));
        assert(list.skip(1) =~= snapshot::snapshot(desktop).workspaces.skip(from + 1));
        if all[from].name == Some(name) {
            named_among_stays(all, from + 1, all.len() as int, name);
        } else {
            names_agree(desktop, list.skip(1), from + 1, name);
        }
    }
}

proof fn named_among_stays(all: Seq<workspace::WorkspaceView>, n: int, m: int, name: Seq<char>)
    requires
        0 <= n <= m,
        compositor::named_among(all, n, name) is Some,
    ensures
        compositor::named_among(all, m, name) == compositor::named_among(all, n, name),
    decreases m,
{
    if n < m {
        named_among_stays(all, n, m - 1, name);
    }
}

/// A client that looks a name up in a snapshot finds the workspace that the server would.
pub proof fn clients_and_server_agree_on_names(state: compositor::AsteraView, name: Seq<char>)
    ensures
        match state.resolved_workspace(v1::WorkspaceSelectorView::Name(name)) {
            Ok(id) => state.shown_state().workspace_of(v1::WorkspaceSelectorView::Name(name)) == Ok::<
                v1::WorkspaceId,
                Seq<char>,
            >(v1::WorkspaceId(id.0)),
            Err(_) => state.shown_state().workspace_of(v1::WorkspaceSelectorView::Name(name)) == Err::<
                v1::WorkspaceId,
                Seq<char>,
            >("unknown workspace"@),
        },
{
    let list = snapshot::snapshot(state.desktop).workspaces;
    assert(list.skip(0) =~= list);
    names_agree(state.desktop, list, 0, name);
}

proof fn unplaced(d: desktop::DesktopView, keys: Seq<u64>, n: int, id: WorkspaceId)
    requires
        0 <= n <= keys.len(),
        d.placed_among(keys, n, id) is None,
    ensures
        forall|j: int| 0 <= j < d.gathered(keys, n).len() ==> (#[trigger] d.gathered(keys, n)[j]).id != id,
    decreases n,
{
    if n > 0 {
        unplaced(d, keys, n - 1, id);
        desktop::first_with_id_place(d.outputs[keys[n - 1]].workspaces, id);
    }
}

proof fn listed_workspaces_are_placed(d: desktop::DesktopView, i: int)
    requires
        0 <= i < d.all().len(),
    ensures
        d.place(d.all()[i].id) is Some,
{
    let (keys, id) = (d.keys(), d.all()[i].id);
    if d.place(id) is None {
        unplaced(d, keys, keys.len() as int, id);
        desktop::first_with_id_place(d.detached, id);
        assert(d.all()[i].id != id);
    }
}

/// Where there is no window, laying everything out again asks for no position and changes nothing
/// but cameras and generations.
proof fn windowless_desktops_reflow(
    d: desktop::DesktopView,
    n: int,
    policy: model::CameraPolicy,
)
    requires
        d.outputs.dom().finite(),
        forall|window: model::WindowId| !#[trigger] survival::has_window(d, window),
        0 <= n <= d.all().len(),
    ensures
        d.reflowed(d.all(), n, policy, Seq::empty()) matches Ok((after, used)) && used == 0
            && desktops_alike(d, after),
    decreases n,
{
    if n > 0 {
        windowless_desktops_reflow(d, n - 1, policy);
        let before = (d.reflowed(d.all(), n - 1, policy, Seq::empty())->Ok_0).0;
        let id = d.all()[n - 1].id;
        let keys = d.keys();
        ranking::ranking_ranks(d.outputs.dom(), |id: u64| 0);
        assert forall|i: int| 0 <= i < keys.len() implies d.outputs.contains_key(#[trigger] keys[i]) by {
            assert(keys.to_set().contains(keys[i]));
        }
        gathered_alike(d, before, keys, keys.len() as int);
        assert(before.keys() == keys);
        assert(lists_alike(d.all(), before.all()));
        assert(alike(d.all()[n - 1], before.all()[n - 1]));
        listed_workspaces_are_placed(before, n - 1);
        before.place_is_known(id);
        let place = before.place(id)->0;
        let old_ws = before.at(place);
        let was = d.at(place);
        assert(alike(was, old_ws)) by {
            if let Some(k) = place.0 {
                assert(d.outputs.contains_key(k));
            }
        }
        assert(old_ws.tiled.dom() =~= Set::<u64>::empty()) by {
            assert forall|w: u64| !old_ws.tiled.dom().contains(w) by {
                let window = model::WindowId(w);
                assert(!survival::has_window(d, window));
                if was.tiled.contains_key(w) {
                    assert(was.has(window));
                    match place.0 {
                        Some(k) => {
                            assert(d.outputs.contains_key(k));
                            assert(d.outputs[k].workspaces[place.1].has(window));
                            assert(survival::holds(d.outputs[k].workspaces, window));
                        },
                        None => {
                            assert(d.detached[place.1].has(window));
                            assert(survival::holds(d.detached, window));
                        },
                    }
                }
            }
        }
        ranking::ranking_ranks(old_ws.tiled.dom(), |id: u64| 0);
        let order = ranking::ascending(old_ws.tiled.dom());
        assert(order.len() == 0) by {
            if order.len() > 0 {
                assert(order.to_set().contains(order[0]));
            }
        }
        let after = (d.reflowed(d.all(), n, policy, Seq::empty())->Ok_0).0;
        assert(after.outputs.dom() =~= d.outputs.dom());
        assert(desktops_alike(d, after));
    }
}

proof fn gathered_from_outputs(
    a: desktop::DesktopView,
    b: desktop::DesktopView,
    keys: Seq<u64>,
    n: int,
)
    requires
        a.outputs == b.outputs,
    ensures
        a.gathered(keys, n) == b.gathered(keys, n),
    decreases n,
{
    if n > 0 {
        gathered_from_outputs(a, b, keys, n - 1);
    }
}

/// A new state can be made, whatever the gap and the camera policy, and its desktop is settled.
pub proof fn starting_succeeds(gap: i64, policy: model::CameraPolicy)
    ensures
        compositor::initial_desktop(gap, policy) is Ok,
        assurance::settled(compositor::initial_desktop(gap, policy)->Ok_0),
{
    let fresh = desktop::DesktopView::fresh(gap);
    let output = outputs::OutputView {
        id: model::OutputId(0),
        stable_key: "nested-output"@,
        physical_size: geometry::Size { width: 1280, height: 720 },
        logical_size: geometry::Size { width: 1280, height: 720 },
        native_scale: outputs::Scale120(120),
        transform: outputs::OutputTransform::Normal,
    };
    assurance::fresh_desktops_are_settled(gap);
    assurance::connecting_succeeds(fresh, output);
    let connected = fresh.connected(output)->Ok_0;
    assert forall|window: model::WindowId| !#[trigger] survival::has_window(connected, window) by {
        survival::windows_survive_connection(fresh, output, window);
    }
    let d = desktop::DesktopView { solver: layout::SolverView::with_gap(gap), ..connected };
    assert forall|window: model::WindowId| !#[trigger] survival::has_window(d, window) by {
        assert(!survival::has_window(connected, window));
    }
    let n = connected.all().len() as int;
    gathered_from_outputs(connected, d, d.keys(), d.keys().len() as int);
    windowless_desktops_reflow(d, n, policy);
    let after = (d.reflowed(d.all(), n, policy, Seq::empty())->Ok_0).0;
    assert(desktops_alike(connected, after));
    cameras_keep_validity(connected, after);
    steadiness::reconfiguring_keeps_settled(connected, gap, policy, Seq::empty());
}

} // verus!
