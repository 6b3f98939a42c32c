use astera::compositor::{Astera, Guidance};
use astera::directional_focus::FocusScore;
use astera::geometry::{Direction, Point, Rect};
use astera::layout::Push;
use astera::model::{CameraPolicy, OutputId, WindowId, WindowMode, WorkspaceId};
use astera::scene::{saturating_i32, RequestedState};
use astera::wire::v1;
use astera::wire::v1::{
    Command, ErrorCode, OutputSelector, Response, Success, WindowPlacement, WorkspaceSelector,
};

/// Moves a pushed window to the right until it is clear of all obstacles.
fn answer(push: &Push) -> Option<Point> {
    let mut rect = push.rect;
    while push.obstacles.iter().any(|obstacle| rect.conflicts(*obstacle, push.gap)) {
        rect = rect.translated(rect.origin.x + 1, rect.origin.y);
    }
    Some(rect.origin)
}

fn guidance() -> Guidance {
    Guidance {
        hint: Direction::right(),
        scores: Vec::new(),
        answers: Vec::new(),
    }
}

fn execute(state: &mut Astera, command: Command) -> Response {
    let mut guidance = guidance();
    loop {
        match state.execute_command(command.clone(), &guidance, 7) {
            Ok(response) => return response,
            Err(push) => guidance.answers.push(answer(&push)),
        }
    }
}

fn map(state: &mut Astera) -> WindowId {
    let mut answers = Vec::new();
    loop {
        match state.new_toplevel(Direction::right(), &answers) {
            Ok(window) => return window,
            Err(astera::desktop::DesktopError::Layout(
                astera::layout::LayoutError::NeedsPosition(push),
            )) => answers.push(answer(&push)),
            Err(error) => panic!("{error:?}"),
        }
    }
}

fn start() -> Astera {
    Astera::new(8, CameraPolicy::KeepVisible { margin: 32 }).unwrap()
}

fn handled() -> Response {
    Response::Success(Success::Handled { sequence: 7 })
}

fn refused(code: ErrorCode, message: &str) -> Response {
    Response::Error(v1::Error { code, message: message.to_string(), sequence: 7 })
}

#[test]
fn windows_are_mapped_shown_and_removed() {
    let mut state = start();
    assert_eq!(map(&mut state), WindowId(1));
    assert_eq!(map(&mut state), WindowId(2));
    let snapshot = state.public_snapshot();
    assert_eq!(snapshot.active_output, Some(v1::OutputId(0)));
    assert_eq!(snapshot.focused_window, Some(v1::WindowId(2)));
    assert_eq!(snapshot.windows.len(), 2);
    assert_eq!(snapshot.workspaces[0].tiled_count, 2);
    assert_eq!(snapshot.workspaces[0].local_index, Some(1));
    assert_eq!(snapshot.outputs[0].usable_area, v1::Rect::new(0, 0, 1280, 720));
    assert_eq!(snapshot.outputs[0].stable_key, "nested-output");
    assert_eq!(state.mapped_windows().len(), 2);
    state.remove_dead_windows(&vec![WindowId(1)]);
    assert_eq!(state.windows, vec![WindowId(2)]);
    assert_eq!(state.public_snapshot().windows.len(), 1);
}

#[test]
fn every_mode_is_in_the_snapshot() {
    let mut state = start();
    let window = v1::WindowId(map(&mut state).0);
    for mode in [
        v1::WindowMode::Floating,
        v1::WindowMode::Maximized,
        v1::WindowMode::Fullscreen,
        v1::WindowMode::Tiled,
    ] {
        assert_eq!(execute(&mut state, Command::SetWindowMode { window, mode }), handled());
        let snapshot = state.public_snapshot();
        assert_eq!(snapshot.windows.len(), 1);
        assert_eq!(snapshot.windows[0].id, window);
        assert_eq!(snapshot.windows[0].mode, mode);
    }
    let snapshot = state.public_snapshot();
    let WindowPlacement::Tiled { world_geometry } = snapshot.windows[0].placement else {
        panic!("the window is tiled")
    };
    assert_eq!(world_geometry.size, v1::Size::new(800, 600));
}

#[test]
fn what_is_not_there_is_not_found() {
    let mut state = start();
    for (command, message) in [
        (Command::FocusWindow(v1::WindowId(9)), "window WindowId(9) does not exist"),
        (Command::CloseWindow(v1::WindowId(9)), "window WindowId(9) does not exist"),
        (
            Command::FocusOutput(OutputSelector::Id(v1::OutputId(5))),
            "unknown output OutputId(5)",
        ),
        (
            Command::FocusOutput(OutputSelector::Key("DP-9".to_string())),
            "unknown output \"DP-9\"",
        ),
        (
            Command::FocusWorkspace { workspace: WorkspaceSelector::Name("x".to_string()) },
            "unknown workspace \"x\"",
        ),
        (
            Command::FocusWorkspace {
                workspace: WorkspaceSelector::LocalIndex {
                    output: OutputSelector::Active,
                    index: 9,
                },
            },
            "unknown workspace 9 of OutputId(0)",
        ),
        (
            Command::SetCameraPolicy {
                workspace: v1::WorkspaceId(77),
                policy: v1::CameraPolicy::Centered,
            },
            "unknown workspace WorkspaceId(77)",
        ),
        (
            Command::SetWorkspaceName { workspace: v1::WorkspaceId(77), name: None },
            "workspace WorkspaceId(77) does not exist",
        ),
    ] {
        assert_eq!(execute(&mut state, command), refused(ErrorCode::NotFound, message));
    }
    assert_eq!(
        execute(
            &mut state,
            Command::ConfigureOutput {
                output: OutputSelector::Active,
                physical_size: v1::Size::new(0, 1),
                logical_size: v1::Size::new(1, 1),
                native_scale: v1::Scale120(120),
                transform: v1::OutputTransform::Normal,
            },
        ),
        refused(
            ErrorCode::InvalidRequest,
            "output physical and logical sizes must be positive"
        )
    );
    state.set_output_configuration_supported(false);
    assert_eq!(
        execute(
            &mut state,
            Command::ConfigureOutput {
                output: OutputSelector::Active,
                physical_size: v1::Size::new(640, 480),
                logical_size: v1::Size::new(640, 480),
                native_scale: v1::Scale120(120),
                transform: v1::OutputTransform::Normal,
            },
        ),
        refused(ErrorCode::Conflict, "the backend cannot configure outputs")
    );
}

#[test]
fn commands_that_cannot_be_done_now_are_conflicts() {
    let mut state = start();
    let (first, second) = (map(&mut state), map(&mut state));
    let mode = v1::WindowMode::Fullscreen;
    let first = Command::SetWindowMode { window: v1::WindowId(first.0), mode };
    assert_eq!(execute(&mut state, first), handled());
    assert_eq!(
        execute(&mut state, Command::SetWindowMode { window: v1::WindowId(second.0), mode }),
        refused(
            ErrorCode::Conflict,
            "workspace already has fullscreen window WindowId(1)"
        )
    );
    state.active_output = OutputId(9);
    assert_eq!(
        execute(&mut state, Command::FocusDirection(v1::Direction { x_bits: 0, y_bits: 0 })),
        refused(ErrorCode::Conflict, "active output has no workspace")
    );
}

#[test]
fn commands_change_the_state() {
    let mut state = start();
    let window = map(&mut state);
    let home = state.desktop.find_window(window).unwrap();
    let workspace = v1::WorkspaceId(home.0);
    assert_eq!(
        execute(
            &mut state,
            Command::SetWorkspaceName { workspace, name: Some("code".to_string()) }
        ),
        handled()
    );
    assert_eq!(
        execute(&mut state, Command::PanCamera { workspace, dx: 5, dy: i64::MIN }),
        handled()
    );
    let camera = state.desktop.workspace(home).unwrap().camera;
    assert_eq!(camera.center.y, i64::MIN);
    let target = WorkspaceSelector::LocalIndex { output: OutputSelector::Active, index: 2 };
    assert_eq!(
        execute(
            &mut state,
            Command::MoveWindow { window: v1::WindowId(window.0), target, activate: true },
        ),
        handled()
    );
    let away = state.desktop.find_window(window).unwrap();
    assert_ne!(away, home);
    assert_eq!(state.desktop.active_workspace_id(OutputId(0)), Some(away));
    assert_eq!(
        execute(
            &mut state,
            Command::FocusWorkspace { workspace: WorkspaceSelector::Name("code".to_string()) }
        ),
        handled()
    );
    assert_eq!(state.desktop.active_workspace_id(OutputId(0)), Some(home));
    assert_eq!(execute(&mut state, Command::FocusWindow(v1::WindowId(window.0))), handled());
    assert_eq!(state.desktop.active_workspace_id(OutputId(0)), Some(away));
    let Response::Success(Success::State { sequence, snapshot }) =
        execute(&mut state, Command::GetState)
    else {
        panic!("the state is asked for")
    };
    assert_eq!(sequence, 7);
    assert_eq!(snapshot, state.public_snapshot());
}

#[test]
fn the_focus_moves_to_the_best_candidate() {
    let mut state = start();
    let (first, second) = (map(&mut state), map(&mut state));
    let id = state.desktop.find_window(first).unwrap();
    assert_eq!(state.desktop.workspace(id).unwrap().focused_window, Some(second));
    assert_eq!(state.desktop.focus_candidates(id).unwrap().len(), 1);
    let guidance = Guidance {
        hint: Direction::right(),
        scores: vec![Some(FocusScore { angle_bits: 0, distance_bits: 1 })],
        answers: Vec::new(),
    };
    let command = Command::FocusDirection(v1::Direction { x_bits: 0, y_bits: 0 });
    assert_eq!(state.execute_command(command, &guidance, 7), Ok(handled()));
    assert_eq!(state.desktop.workspace(id).unwrap().focused_window, Some(first));
}

#[test]
fn clients_are_asked_for_sizes() {
    let mut state = start();
    let window = map(&mut state);
    assert_eq!(
        state.requested_state(window, WindowMode::Tiled),
        Some(RequestedState { size: Some((800, 600)), fullscreen: false })
    );
    assert_eq!(
        state.requested_state(window, WindowMode::Fullscreen),
        Some(RequestedState { size: Some((1280, 720)), fullscreen: true })
    );
    assert_eq!(
        state.requested_state(window, WindowMode::Maximized),
        Some(RequestedState { size: Some((1280, 720)), fullscreen: false })
    );
    assert_eq!(state.requested_state(WindowId(9), WindowMode::Tiled), None);
    assert!(state.filling_sizes().is_empty());
    let mode = v1::WindowMode::Maximized;
    execute(&mut state, Command::SetWindowMode { window: v1::WindowId(window.0), mode });
    assert_eq!(state.filling_sizes(), vec![(window, (1280, 720))]);
    let mode = v1::WindowMode::Fullscreen;
    execute(&mut state, Command::SetWindowMode { window: v1::WindowId(window.0), mode });
    assert_eq!(state.filling_sizes(), vec![(window, (1280, 720))]);
    state.update_output_size(640, 480);
    assert_eq!(state.filling_sizes(), vec![(window, (640, 480))]);
    state.update_output_size(0, 480);
    assert_eq!(state.filling_sizes(), vec![(window, (640, 480))]);
    assert_eq!(saturating_i32(i64::MAX), i32::MAX);
    assert_eq!(saturating_i32(i64::MIN), i32::MIN);
    assert_eq!(saturating_i32(-5), -5);
}

#[test]
fn tiled_windows_are_drawn_as_the_camera_sees_them() {
    let mut state = start();
    let window = map(&mut state);
    let id: WorkspaceId = state.desktop.find_window(window).unwrap();
    let ws = state.desktop.workspace(id).unwrap();
    let rect: Rect = ws.tiled.get(window.0).unwrap().geometry;
    let drawn = state.mapped_windows()[0];
    assert_eq!(i64::from(drawn.x), rect.origin.x - ws.camera.center.x + 640);
    assert_eq!(i64::from(drawn.y), rect.origin.y - ws.camera.center.y + 360);
}
