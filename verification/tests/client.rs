use astera::client::{
    active_workspace, camera_command, direction_value, expect_handled, expect_state, negotiate,
    parse_output, parse_workspace, resolve_output_id, resolve_window, resolve_workspace_id,
    success_line, window_command, workspace_command, CameraCommand, DirectionArg, EventFollower,
    Failure, WindowCommand, WorkspaceCommand,
};
use astera::overview::{format_overview, push_scale};
use astera::wire::v1::{
    Command, ConfigSnapshot, DesktopSnapshot, Error, ErrorCode, OutputId, OutputSelector,
    OutputSnapshot, OutputTransform, Rect, Response, Scale120, Size, Success, WindowId, WindowMode,
    WorkspaceId, WorkspaceSelector, WorkspaceSnapshot,
};

fn snapshot() -> DesktopSnapshot {
    DesktopSnapshot {
        active_output: Some(OutputId(2)),
        primary_output: Some(OutputId(2)),
        focused_window: Some(WindowId(9)),
        outputs: vec![OutputSnapshot {
            id: OutputId(2),
            stable_key: "DP-1".to_owned(),
            active_workspace: WorkspaceId(3),
            workspaces: vec![WorkspaceId(3), WorkspaceId(4)],
            physical_size: Size::new(3840, 2160),
            logical_size: Size::new(2560, 1440),
            native_scale: Scale120(180),
            transform: OutputTransform::Normal,
            viewport: Rect::new(0, 0, 2560, 1440),
            usable_area: Rect::new(0, 0, 2560, 1440),
        }],
        layers: vec![],
        workspaces: vec![
            WorkspaceSnapshot {
                id: WorkspaceId(3),
                name: Some("code".into()),
                original_output: Some("DP-1".into()),
                output: Some(OutputId(2)),
                local_index: Some(1),
                active_window: Some(WindowId(9)),
                tiled_count: 2,
                floating_count: 1,
                fullscreen: None,
            },
            WorkspaceSnapshot {
                id: WorkspaceId(4),
                name: None,
                original_output: Some("DP-1".into()),
                output: None,
                local_index: None,
                active_window: None,
                tiled_count: 1,
                floating_count: 0,
                fullscreen: None,
            },
        ],
        cameras: vec![],
        windows: vec![],
        config: ConfigSnapshot::default(),
    }
}

#[test]
fn friendly_workspace_selectors_are_unambiguous() {
    assert!(matches!(
        parse_workspace("3", None).unwrap(),
        WorkspaceSelector::LocalIndex { index: 3, .. }
    ));
    assert!(matches!(
        parse_workspace("code", None).unwrap(),
        WorkspaceSelector::Name(_)
    ));
    assert!(matches!(
        parse_workspace("id:7", None).unwrap(),
        WorkspaceSelector::Id(WorkspaceId(7))
    ));
    assert!(parse_workspace("code", Some("DP-1")).is_err());
}

#[test]
fn overview_and_snapshot_resolution_cover_background_workspaces() {
    let snapshot = snapshot();
    let overview = format_overview(&snapshot);
    assert!(overview.contains("DP-1 *: workspace 3"));
    assert!(overview.contains("4: background"));
    assert_eq!(
        resolve_workspace_id(&snapshot, "code", None).unwrap(),
        WorkspaceId(3)
    );
    assert_eq!(
        resolve_workspace_id(&snapshot, "1", Some("DP-1")).unwrap(),
        WorkspaceId(3)
    );
}

#[test]
fn the_whole_overview() {
    assert_eq!(
        format_overview(&snapshot()),
        "Outputs\n  DP-1 *: workspace 3, 2 total, 2560x1440 logical, 1.50x, Normal\nWorkspaces\n  \
         3 (code): output 2 index 1, focus Some(9), tiled 2, floating 1, fullscreen None\n  4: \
         background, focus None, tiled 1, floating 0, fullscreen None\n"
    );
}

#[test]
fn scales_are_written_like_floating_point_numbers() {
    for scale in (0..5_000).chain([u32::MAX - 1, u32::MAX]) {
        let mut text = String::new();
        push_scale(&mut text, scale);
        assert_eq!(text, format!("{:.2}", f64::from(scale) / 120.0));
    }
}

#[test]
fn event_streams_have_no_gaps() {
    let mut events = EventFollower::start(8);
    assert_eq!(events.accept(9), Ok(()));

    let mut events = EventFollower::start(8);
    let error = events.accept(10).unwrap_err();
    assert!(error.contains("expected 9, received 10"));

    let mut events = EventFollower::start(8);
    assert_eq!(events.accept(9), Ok(()));
    let error = events.accept(11).unwrap_err();
    assert!(error.contains("expected 10, received 11"));
    assert_eq!(events.accept(10), Ok(()));
}

#[test]
fn the_last_sequence_is_followed_by_none() {
    let mut events = EventFollower::start(u64::MAX - 1);
    assert_eq!(events.accept(u64::MAX), Ok(()));
    assert_eq!(events.accept(0), Err("event stream sequence overflow".to_string()));
}

#[test]
fn selectors_that_make_no_sense_are_refused() {
    for (value, output, words) in [
        ("id:7", Some("DP-1"), "id workspace selector cannot use --output"),
        ("id:x", None, "invalid workspace ID"),
        ("0", None, "workspace index is one-based"),
        ("1", Some(""), "output selector cannot be empty"),
        ("code", Some("DP-1"), "named workspace selector cannot use --output"),
        ("", None, "workspace selector cannot be empty"),
    ] {
        assert_eq!(parse_workspace(value, output), Err(words.to_string()));
    }
    assert_eq!(parse_output(None), Ok(OutputSelector::Active));
    assert_eq!(parse_output(Some("active")), Ok(OutputSelector::Active));
    assert_eq!(parse_output(Some("12")), Ok(OutputSelector::Id(OutputId(12))));
    assert_eq!(
        parse_output(Some("4294967296")),
        Ok(OutputSelector::Key("4294967296".to_string()))
    );
}

#[test]
fn selectors_are_resolved_in_a_snapshot() {
    let snapshot = snapshot();
    assert_eq!(resolve_output_id(&snapshot, &OutputSelector::Active), Ok(OutputId(2)));
    assert_eq!(
        resolve_output_id(&snapshot, &OutputSelector::Key("DP-1".to_string())),
        Ok(OutputId(2))
    );
    assert_eq!(
        resolve_output_id(&snapshot, &OutputSelector::Id(OutputId(7))),
        Err("unknown output".to_string())
    );
    assert_eq!(resolve_workspace_id(&snapshot, "id:4", None), Ok(WorkspaceId(4)));
    assert_eq!(
        resolve_workspace_id(&snapshot, "2", None),
        Err("unknown workspace".to_string())
    );
    assert_eq!(active_workspace(&snapshot), Some(WorkspaceId(3)));
    assert_eq!(active_workspace(&DesktopSnapshot::default()), None);
}

#[test]
fn arguments_become_commands() {
    let snapshot = snapshot();
    assert_eq!(
        workspace_command(
            WorkspaceCommand::Rename {
                workspace: "code".to_string(),
                name: "mail".to_string(),
                output: None,
            },
            &snapshot,
        ),
        Ok(Command::SetWorkspaceName {
            workspace: WorkspaceId(3),
            name: Some("mail".to_string()),
        })
    );
    assert_eq!(
        workspace_command(
            WorkspaceCommand::Move {
                workspace: "id:4".to_string(),
                output: "DP-1".to_string(),
                index: Some(1),
                activate: true,
            },
            &snapshot,
        ),
        Ok(Command::MoveWorkspace {
            workspace: WorkspaceId(4),
            target_output: OutputSelector::Key("DP-1".to_string()),
            target_index: Some(1),
            activate: true,
        })
    );
    assert_eq!(
        window_command(
            WindowCommand::Mode { mode: WindowMode::Floating, window: None },
            &snapshot,
        ),
        Ok(Command::SetWindowMode { window: WindowId(9), mode: WindowMode::Floating })
    );
    assert_eq!(
        window_command(WindowCommand::Focus { direction: DirectionArg::Left }, &snapshot),
        Ok(Command::FocusDirection(direction_value(DirectionArg::Left)))
    );
    assert_eq!(
        direction_value(DirectionArg::Left).x_bits,
        (-1.0_f64).to_bits()
    );
    assert_eq!(
        camera_command(
            CameraCommand::Pan { dx: 5, dy: -6, workspace: None, output: None },
            &snapshot,
        ),
        Ok(Command::PanCamera { workspace: WorkspaceId(3), dx: 5, dy: -6 })
    );
    assert_eq!(
        resolve_window(None, &DesktopSnapshot::default()),
        Err(Failure::Usage("there is no focused window".to_string()))
    );
    assert_eq!(
        camera_command(
            CameraCommand::Pan { dx: 0, dy: 0, workspace: None, output: None },
            &DesktopSnapshot::default(),
        ),
        Err(Failure::Usage("active output has no workspace".to_string()))
    );
}

#[test]
fn versions_are_negotiated() {
    assert_eq!(negotiate(1, 1), Ok(1));
    assert_eq!(negotiate(0, 9), Ok(1));
    assert_eq!(
        negotiate(2, 9),
        Err("no common IPC version (server 2..=9, client 1..=1)".to_string())
    );
}

#[test]
fn answers_are_told_apart() {
    assert_eq!(
        expect_handled(Response::Success(Success::Handled { sequence: 42 })),
        Ok(42)
    );
    assert_eq!(success_line(42), "ok (sequence 42)\n");
    let failure = expect_state(Response::Error(Error {
        code: ErrorCode::NotFound,
        message: "missing".to_string(),
        sequence: 42,
    }))
    .unwrap_err();
    assert_eq!(failure.exit_code(), 4);
    assert_eq!(failure.message(), "NotFound: missing (sequence 42)");
    let failure = expect_state(Response::Success(Success::Handled { sequence: 1 })).unwrap_err();
    assert_eq!(failure.exit_code(), 3);
    assert_eq!(failure.message(), "unexpected IPC response");
    assert_eq!(Failure::Usage(String::new()).exit_code(), 2);
    assert_eq!(Failure::Stream(String::new()).exit_code(), 5);
}
