use astera::desktop::{Desktop, DesktopError, DesktopEvent, WorkspaceTransaction};
use astera::directional_focus::FocusScore;
use astera::geometry::{Direction, Point, Rect, Size};
use astera::layout::{LayoutError, Push, WindowTransaction};
use astera::model::{
    CameraPolicy, FloatingPlacement, OutputId, TiledWindow, WindowId, WindowMode, WorkspaceId,
};
use astera::outputs::{Output, OutputTransform, Scale120};
use astera::viewport::ViewportPlacement;
use astera::workspace::Workspace;

/// The unit vector that points in a direction; to the right where there is none.
fn direction(x: f64, y: f64) -> Direction {
    let length = x.hypot(y);
    let (x, y) = if !length.is_finite() || length <= f64::EPSILON {
        (1.0, 0.0)
    } else {
        (x / length, y / length)
    };
    Direction { x_bits: x.to_bits(), y_bits: y.to_bits() }
}

/// The first place along the ray of a push at which its window is clear of all obstacles.
fn first_clear_position(push: &Push) -> Option<Point> {
    let direction = if push.source_center == push.center {
        direction(f64::from_bits(push.fallback.x_bits), f64::from_bits(push.fallback.y_bits))
    } else {
        direction(
            (i128::from(push.center.x) - i128::from(push.source_center.x)) as f64,
            (i128::from(push.center.y) - i128::from(push.source_center.y)) as f64,
        )
    };
    let (dx, dy) = (f64::from_bits(direction.x_bits), f64::from_bits(direction.y_bits));
    let clear = |candidate: Rect| {
        push.obstacles.iter().all(|obstacle| !candidate.conflicts(*obstacle, push.gap))
    };
    let rect = push.rect;
    if clear(rect) {
        return Some(rect.origin);
    }
    let at = |distance: f64| {
        rect.translated(
            rect.origin.x + (dx * distance).round() as i64,
            rect.origin.y + (dy * distance).round() as i64,
        )
    };
    let mut high = (rect.size.width.max(rect.size.height) + push.gap + 1) as f64;
    for _ in 0..62 {
        if clear(at(high)) {
            let mut low = 0.0;
            for _ in 0..64 {
                let middle = (low + high) / 2.0;
                if clear(at(middle)) {
                    high = middle;
                } else {
                    low = middle;
                }
            }
            let mut candidate = at(high.ceil() + 1.0);
            while !clear(candidate) {
                high += 1.0;
                candidate = at(high);
            }
            return Some(candidate.origin);
        }
        high *= 2.0;
    }
    None
}

/// Calls an operation with the positions that it asks for until it needs no more.
fn answering<T>(
    mut operation: impl FnMut(&[Option<Point>]) -> Result<T, DesktopError>,
) -> Result<T, DesktopError> {
    let mut answers = Vec::new();
    loop {
        match operation(&answers) {
            Err(DesktopError::Layout(LayoutError::NeedsPosition(push))) => {
                answers.push(first_clear_position(&push));
            }
            result => return result,
        }
    }
}

fn copy(transaction: &WorkspaceTransaction) -> WorkspaceTransaction {
    match transaction {
        WorkspaceTransaction::Focus { output, workspace } => WorkspaceTransaction::Focus {
            output: *output,
            workspace: *workspace,
        },
        WorkspaceTransaction::Move { workspace, target_output, target_index, activate } => {
            WorkspaceTransaction::Move {
                workspace: *workspace,
                target_output: *target_output,
                target_index: *target_index,
                activate: *activate,
            }
        }
        WorkspaceTransaction::SetName { workspace, name } => WorkspaceTransaction::SetName {
            workspace: *workspace,
            name: name.clone(),
        },
        WorkspaceTransaction::SendWindow { window, target, activate, hint } => {
            WorkspaceTransaction::SendWindow {
                window: *window,
                target: *target,
                activate: *activate,
                hint: *hint,
            }
        }
    }
}

fn apply(
    desktop: &mut Desktop,
    transaction: WorkspaceTransaction,
) -> Result<DesktopEvent, DesktopError> {
    answering(|answers| desktop.apply(copy(&transaction), answers))
}

fn apply_window(
    desktop: &mut Desktop,
    workspace: WorkspaceId,
    transaction: WindowTransaction,
) -> Result<(), DesktopError> {
    answering(|answers| desktop.apply_window(workspace, transaction, answers))
}

fn reconfigure_layout(
    desktop: &mut Desktop,
    gap: i64,
    policy: CameraPolicy,
) -> Result<(), DesktopError> {
    answering(|answers| desktop.reconfigure_layout(gap, policy, answers))
}

fn focus_direction(
    desktop: &mut Desktop,
    workspace: WorkspaceId,
    towards: Direction,
) -> Result<Option<WindowId>, DesktopError> {
    let towards = direction(f64::from_bits(towards.x_bits), f64::from_bits(towards.y_bits));
    let (x, y) = (f64::from_bits(towards.x_bits), f64::from_bits(towards.y_bits));
    let scores: Vec<Option<FocusScore>> = desktop
        .focus_candidates(workspace)?
        .iter()
        .map(|candidate| {
            let (dx, dy) = (candidate.dx as f64, candidate.dy as f64);
            if dx * x + dy * y > f64::EPSILON {
                let distance = dx.hypot(dy);
                let angle = (dx * y - dy * x).abs() / distance;
                Some(FocusScore {
                    angle_bits: angle.to_bits(),
                    distance_bits: distance.to_bits(),
                })
            } else {
                None
            }
        })
        .collect();
    desktop.focus_direction(workspace, towards, &scores)
}

fn output(id: u32, key: &str) -> Output {
    Output::new(OutputId(id), key.to_string(), Size::new(1920, 1080))
}

#[test]
fn every_output_has_one_trailing_placeholder() {
    let mut desktop = Desktop::new(8);
    desktop.connect_output(output(1, "A")).unwrap();
    let set = &desktop.outputs.get(1).unwrap();
    assert_eq!(set.workspaces.len(), 1);
    assert!(!set.workspaces[0].has_windows_or_name());
}

#[test]
fn naming_placeholder_creates_another_placeholder() {
    let mut desktop = Desktop::new(8);
    desktop.connect_output(output(1, "A")).unwrap();
    let id = desktop.outputs.get(1).unwrap().workspaces[0].id;
    apply(&mut desktop, WorkspaceTransaction::SetName {
            workspace: id,
            name: Some("chat".into()),
        })
        .unwrap();
    let set = &desktop.outputs.get(1).unwrap();
    assert_eq!(set.workspaces.len(), 2);
    assert_eq!(set.workspaces[0].name.as_deref(), Some("chat"));
    assert!(!set.workspaces[1].has_windows_or_name());
}

#[test]
fn disconnected_workspaces_move_to_primary_and_restore() {
    let mut desktop = Desktop::new(8);
    desktop.connect_output(output(1, "A")).unwrap();
    desktop.connect_output(output(2, "B")).unwrap();
    let workspace = desktop.outputs.get(2).unwrap().workspaces[0].id;
    apply(&mut desktop, WorkspaceTransaction::SetName {
            workspace,
            name: Some("code".into()),
        })
        .unwrap();
    desktop.disconnect_output(OutputId(2)).unwrap();
    assert_eq!(
        desktop.workspace_location(workspace).unwrap().output,
        Some(OutputId(1))
    );
    desktop.connect_output(output(2, "B")).unwrap();
    assert_eq!(
        desktop.workspace_location(workspace).unwrap().output,
        Some(OutputId(2))
    );
}

#[test]
fn duplicate_names_roll_back() {
    let mut desktop = Desktop::new(8);
    desktop.connect_output(output(1, "A")).unwrap();
    let first = desktop.outputs.get(1).unwrap().workspaces[0].id;
    apply(&mut desktop, WorkspaceTransaction::SetName {
            workspace: first,
            name: Some("one".into()),
        })
        .unwrap();
    let second = desktop.outputs.get(1).unwrap().workspaces[1].id;
    let before = desktop.clone();
    assert_eq!(
        apply(&mut desktop, WorkspaceTransaction::SetName {
            workspace: second,
            name: Some("one".into()),
        }),
        Err(DesktopError::DuplicateWorkspaceName("one".into()))
    );
    assert_eq!(
        desktop.outputs.get(1).unwrap().workspaces.len(),
        before.outputs.get(1).unwrap().workspaces.len()
    );
}

#[test]
fn floating_placement_restores_per_output_geometry() {
    let mut desktop = Desktop::new(8);
    desktop.connect_output(output(1, "A")).unwrap();
    desktop
        .connect_output(Output::new(OutputId(2), "B".to_string(), Size::new(1280, 720)))
        .unwrap();
    let workspace = desktop.active_workspace_id(OutputId(1)).unwrap();
    let window = WindowId(10);
    apply_window(&mut desktop, workspace,
            WindowTransaction::InsertTiled {
                id: window,
                size: Size::new(400, 300),
                anchor: Point::origin(),
                seed_direction: Direction::right(),
                hint: Direction::right(),
            },
        )
        .unwrap();
    apply_window(&mut desktop, workspace,
            WindowTransaction::SetMode {
                id: window,
                mode: WindowMode::Floating,
                viewport_size: Size::new(1920, 1080),
            },
        )
        .unwrap();
    apply_window(&mut desktop, workspace,
            WindowTransaction::MoveFloating {
                id: window,
                target: Rect::new(1300, 600, 400, 300),
                viewport_size: Size::new(1920, 1080),
            },
        )
        .unwrap();
    let original = desktop.workspace(workspace).unwrap().floating.get(window.0).unwrap()
        .viewport
        .rect;

    apply(&mut desktop, WorkspaceTransaction::Move {
            workspace,
            target_output: OutputId(2),
            target_index: None,
            activate: true,
        })
        .unwrap();
    assert_ne!(
        desktop.workspace(workspace).unwrap().floating.get(window.0).unwrap()
            .viewport
            .rect,
        original
    );
    apply(&mut desktop, WorkspaceTransaction::Move {
            workspace,
            target_output: OutputId(1),
            target_index: None,
            activate: true,
        })
        .unwrap();
    assert_eq!(
        desktop.workspace(workspace).unwrap().floating.get(window.0).unwrap()
            .viewport
            .rect,
        original
    );
}

#[test]
fn closing_window_does_not_change_original_output() {
    let mut desktop = Desktop::new(8);
    desktop.connect_output(output(1, "A")).unwrap();
    desktop.connect_output(output(2, "B")).unwrap();
    let workspace = desktop.active_workspace_id(OutputId(2)).unwrap();
    apply(&mut desktop, WorkspaceTransaction::SetName {
            workspace,
            name: Some("persistent".into()),
        })
        .unwrap();
    let window = WindowId(20);
    apply_window(&mut desktop, workspace,
            WindowTransaction::InsertTiled {
                id: window,
                size: Size::new(400, 300),
                anchor: Point::origin(),
                seed_direction: Direction::right(),
                hint: Direction::right(),
            },
        )
        .unwrap();
    desktop.workspace_mut(workspace).unwrap().original_output = Some("A".into());
    apply_window(&mut desktop, workspace, WindowTransaction::Remove { id: window })
        .unwrap();
    assert_eq!(
        desktop
            .workspace(workspace)
            .unwrap()
            .original_output
            .as_deref(),
        Some("A")
    );
}

#[test]
fn empty_ordinary_workspace_is_removed_after_focus_leaves() {
    let mut desktop = Desktop::new(8);
    desktop.connect_output(output(1, "A")).unwrap();
    let first = desktop.active_workspace_id(OutputId(1)).unwrap();
    let window = WindowId(30);
    apply_window(&mut desktop, first,
            WindowTransaction::InsertTiled {
                id: window,
                size: Size::new(400, 300),
                anchor: Point::origin(),
                seed_direction: Direction::right(),
                hint: Direction::right(),
            },
        )
        .unwrap();
    apply_window(&mut desktop, first, WindowTransaction::Remove { id: window })
        .unwrap();
    let placeholder = desktop.outputs.get(1).unwrap().workspaces.last().unwrap().id;
    apply(&mut desktop, WorkspaceTransaction::Focus {
            output: OutputId(1),
            workspace: placeholder,
        })
        .unwrap();
    assert!(desktop.workspace(first).is_err());
    assert_eq!(desktop.outputs.get(1).unwrap().workspaces.len(), 1);
}

#[test]
fn last_output_detaches_and_reconnect_restores_active_workspace() {
    let mut desktop = Desktop::new(8);
    desktop.connect_output(output(1, "A")).unwrap();
    let first = desktop.active_workspace_id(OutputId(1)).unwrap();
    apply(&mut desktop, WorkspaceTransaction::SetName {
            workspace: first,
            name: Some("one".into()),
        })
        .unwrap();
    let second = desktop.outputs.get(1).unwrap().workspaces.last().unwrap().id;
    apply(&mut desktop, WorkspaceTransaction::SetName {
            workspace: second,
            name: Some("two".into()),
        })
        .unwrap();
    apply(&mut desktop, WorkspaceTransaction::Focus {
            output: OutputId(1),
            workspace: second,
        })
        .unwrap();

    desktop.disconnect_output(OutputId(1)).unwrap();
    assert!(desktop.outputs.is_empty());
    assert_eq!(desktop.detached.len(), 2);
    desktop.connect_output(output(9, "A")).unwrap();
    assert_eq!(desktop.active_workspace_id(OutputId(9)), Some(second));
    assert_eq!(
        desktop.workspace_location(first).unwrap().output,
        Some(OutputId(9))
    );
}

#[test]
fn directional_focus_is_mode_local_and_only_tiled_updates_hint() {
    let mut desktop = Desktop::new(8);
    desktop.connect_output(output(1, "A")).unwrap();
    let workspace = desktop.active_workspace_id(OutputId(1)).unwrap();
    let left = WindowId(40);
    let right = WindowId(41);
    let float_left = WindowId(42);
    let float_right = WindowId(43);
    let state = desktop.workspace_mut(workspace).unwrap();
    state.tiled.insert(
        left.0,
        TiledWindow {
            id: left,
            geometry: Rect::new(0, 0, 100, 100),
        },
    );
    state.tiled.insert(
        right.0,
        TiledWindow {
            id: right,
            geometry: Rect::new(500, 0, 100, 100),
        },
    );
    state.floating.insert(
        float_left.0,
        FloatingPlacement {
            window: float_left,
            viewport: ViewportPlacement::new(
                Rect::new(0, 300, 100, 100),
                Size::new(1920, 1080),
            ),
        },
    );
    state.floating.insert(
        float_right.0,
        FloatingPlacement {
            window: float_right,
            viewport: ViewportPlacement::new(
                Rect::new(500, 300, 100, 100),
                Size::new(1920, 1080),
            ),
        },
    );
    state.focus(left);
    desktop.normalize_all();

    assert_eq!(
        focus_direction(&mut desktop, workspace, Direction::right())
            .unwrap(),
        Some(right)
    );
    assert_eq!(
        desktop.workspace(workspace).unwrap().layout_direction_hint,
        Direction::right()
    );
    desktop.workspace_mut(workspace).unwrap().focus(float_left);
    let old_hint = desktop.workspace(workspace).unwrap().layout_direction_hint;
    assert_eq!(
        focus_direction(&mut desktop, workspace, Direction::right())
            .unwrap(),
        Some(float_right)
    );
    assert_eq!(
        desktop.workspace(workspace).unwrap().layout_direction_hint,
        old_hint
    );
}

#[test]
fn invalid_output_and_workspace_transactions_do_not_mutate_state() {
    let mut desktop = Desktop::new(8);
    desktop.connect_output(output(1, "A")).unwrap();
    let workspace = desktop.active_workspace_id(OutputId(1)).unwrap();
    let before_count = desktop.workspaces().len();

    assert_eq!(
        desktop.connect_output(output(1, "duplicate")),
        Err(DesktopError::UnknownOutput(OutputId(1)))
    );
    assert_eq!(
        desktop.disconnect_output(OutputId(99)),
        Err(DesktopError::UnknownOutput(OutputId(99)))
    );
    assert_eq!(
        apply(&mut desktop, WorkspaceTransaction::Focus {
            output: OutputId(99),
            workspace,
        }),
        Err(DesktopError::UnknownWorkspace(workspace))
    );
    assert_eq!(
        apply(&mut desktop, WorkspaceTransaction::Move {
            workspace,
            target_output: OutputId(99),
            target_index: None,
            activate: false,
        }),
        Err(DesktopError::UnknownOutput(OutputId(99)))
    );
    assert_eq!(desktop.workspaces().len(), before_count);
    assert_eq!(desktop.active_workspace_id(OutputId(1)), Some(workspace));
}

#[test]
fn moving_workspace_honors_index_and_activation() {
    let mut desktop = Desktop::new(8);
    desktop.connect_output(output(1, "A")).unwrap();
    desktop.connect_output(output(2, "B")).unwrap();
    let source = desktop.active_workspace_id(OutputId(1)).unwrap();
    apply(&mut desktop, WorkspaceTransaction::SetName {
            workspace: source,
            name: Some("moved".into()),
        })
        .unwrap();
    let old_active = desktop.active_workspace_id(OutputId(2)).unwrap();

    let event = apply(&mut desktop, WorkspaceTransaction::Move {
            workspace: source,
            target_output: OutputId(2),
            target_index: Some(0),
            activate: false,
        })
        .unwrap();
    assert_eq!(
        event,
        DesktopEvent::WorkspaceMoved {
            workspace: source,
            source: Some(OutputId(1)),
            target: OutputId(2),
        }
    );
    assert_eq!(desktop.workspace_local_index(source), Some(1));
    assert_eq!(desktop.active_workspace_id(OutputId(2)), Some(old_active));

    apply(&mut desktop, WorkspaceTransaction::Move {
            workspace: source,
            target_output: OutputId(2),
            target_index: Some(usize::MAX),
            activate: true,
        })
        .unwrap();
    assert_eq!(desktop.active_workspace_id(OutputId(2)), Some(source));
}

#[test]
fn sending_tiled_window_moves_ownership_and_focus_atomically() {
    let mut desktop = Desktop::new(8);
    desktop.connect_output(output(1, "A")).unwrap();
    let source = desktop.active_workspace_id(OutputId(1)).unwrap();
    apply(&mut desktop, WorkspaceTransaction::SetName {
            workspace: source,
            name: Some("source".into()),
        })
        .unwrap();
    let target = desktop.outputs.get(1).unwrap().workspaces.last().unwrap().id;
    let window = WindowId(80);
    apply_window(&mut desktop, source,
            WindowTransaction::InsertTiled {
                id: window,
                size: Size::new(300, 200),
                anchor: Point::new(100, 100),
                seed_direction: Direction::right(),
                hint: Direction::right(),
            },
        )
        .unwrap();
    apply(&mut desktop, WorkspaceTransaction::SendWindow {
            window,
            target,
            activate: true,
            hint: Direction::right(),
        })
        .unwrap();

    assert!(!desktop.workspace(source).unwrap().contains_window(window));
    assert_eq!(desktop.find_window(window), Ok(target));
    assert_eq!(
        desktop.workspace(target).unwrap().focused_window,
        Some(window)
    );
    assert_eq!(desktop.active_workspace_id(OutputId(1)), Some(target));
}

#[test]
fn duplicate_output_identity_and_invalid_geometry_are_rejected() {
    let mut desktop = Desktop::new(8);
    desktop.connect_output(output(1, "same")).unwrap();
    assert_eq!(
        desktop.connect_output(output(2, "same")),
        Err(DesktopError::DuplicateOutputStableKey("same".into()))
    );
    let mut invalid = output(2, "B");
    invalid.logical_size = Size::new(0, 1080);
    assert_eq!(
        desktop.connect_output(invalid),
        Err(DesktopError::InvalidOutputSize)
    );
    assert_eq!(
        desktop.configure_output(
            OutputId(1),
            Size::new(1920, 1080),
            Size::new(1920, 1080),
            Scale120(0),
            OutputTransform::Normal,
        ),
        Err(DesktopError::InvalidOutputScale)
    );
    assert_eq!(desktop.outputs.len(), 1);
}

#[test]
fn same_workspace_send_still_honors_activate() {
    let mut desktop = Desktop::new(8);
    desktop.connect_output(output(1, "A")).unwrap();
    let source = desktop.active_workspace_id(OutputId(1)).unwrap();
    apply(&mut desktop, WorkspaceTransaction::SetName {
            workspace: source,
            name: Some("source".into()),
        })
        .unwrap();
    let other = desktop.outputs.get(1).unwrap().workspaces.last().unwrap().id;
    apply(&mut desktop, WorkspaceTransaction::SetName {
            workspace: other,
            name: Some("other".into()),
        })
        .unwrap();
    apply(&mut desktop, WorkspaceTransaction::Focus {
            output: OutputId(1),
            workspace: other,
        })
        .unwrap();
    let window = WindowId(90);
    apply_window(&mut desktop, source,
            WindowTransaction::InsertTiled {
                id: window,
                size: Size::new(100, 100),
                anchor: Point::origin(),
                seed_direction: Direction::right(),
                hint: Direction::right(),
            },
        )
        .unwrap();
    apply(&mut desktop, WorkspaceTransaction::SendWindow {
            window,
            target: source,
            activate: true,
            hint: Direction::right(),
        })
        .unwrap();
    assert_eq!(desktop.active_workspace_id(OutputId(1)), Some(source));
}

#[test]
fn output_reconfigure_and_layout_reflow_commit_atomically() {
    let mut desktop = Desktop::new(8);
    desktop.connect_output(output(1, "A")).unwrap();
    let workspace = desktop.active_workspace_id(OutputId(1)).unwrap();
    let window = WindowId(91);
    apply_window(&mut desktop, workspace,
            WindowTransaction::InsertTiled {
                id: window,
                size: Size::new(200, 100),
                anchor: Point::new(2_000, 1_000),
                seed_direction: Direction::right(),
                hint: Direction::right(),
            },
        )
        .unwrap();
    assert!(desktop.output(OutputId(1)).is_some());
    desktop.output_mut(OutputId(1)).unwrap().physical_size = Size::new(2560, 1440);
    desktop
        .configure_output(
            OutputId(1),
            Size::new(2560, 1440),
            Size::new(1280, 720),
            Scale120(240),
            OutputTransform::Rotate90,
        )
        .unwrap();
    assert_eq!(
        desktop.output(OutputId(1)).unwrap().native_scale,
        Scale120(240)
    );
    reconfigure_layout(&mut desktop, 24, CameraPolicy::Centered)
        .unwrap();
    let state = desktop.workspace(workspace).unwrap();
    assert_eq!(state.camera.policy, CameraPolicy::Centered);
    assert_eq!(state.camera.center, state.tiled.get(window.0).unwrap().geometry.center());
}

#[test]
fn desktop_errors_say_what_is_wrong() {
    assert_eq!(
        DesktopError::DuplicateWorkspaceName("a \"b\"".to_string()).message(),
        "workspace name \"a \\\"b\\\"\" is already in use"
    );
    assert_eq!(
        DesktopError::UnknownWorkspace(WorkspaceId(3)).message(),
        "workspace WorkspaceId(3) does not exist"
    );
    assert_eq!(
        DesktopError::DuplicateWindow {
            window: WindowId(1),
            first: WorkspaceId(2),
            second: WorkspaceId(3),
        }
        .message(),
        "window WindowId(1) exists in multiple workspaces WorkspaceId(2) and WorkspaceId(3)"
    );
    assert_eq!(
        DesktopError::InvalidOutputScale.message(),
        "output scale must be greater than zero"
    );
}

#[test]
fn every_window_survives_losing_every_output() {
    let mut desktop = Desktop::new(8);
    desktop.connect_output(output(1, "A")).unwrap();
    desktop.connect_output(output(2, "B")).unwrap();
    for (id, on) in [(1, 1), (2, 2), (3, 2)] {
        let workspace = desktop.active_workspace_id(OutputId(on)).unwrap();
        apply_window(
            &mut desktop,
            workspace,
            WindowTransaction::InsertTiled {
                id: WindowId(id),
                size: Size::new(300, 200),
                anchor: Point::origin(),
                seed_direction: Direction::right(),
                hint: Direction::right(),
            },
        )
        .unwrap();
    }
    let homes: Vec<WorkspaceId> =
        (1..=3).map(|id| desktop.find_window(WindowId(id)).unwrap()).collect();
    desktop.disconnect_output(OutputId(1)).unwrap();
    desktop.disconnect_output(OutputId(2)).unwrap();
    for id in 1..=3 {
        assert_eq!(desktop.find_window(WindowId(id)), Ok(homes[id as usize - 1]));
    }
    desktop.connect_output(output(5, "B")).unwrap();
    desktop.connect_output(output(6, "A")).unwrap();
    assert_eq!(desktop.workspace_location(homes[0]).unwrap().output, Some(OutputId(6)));
    assert_eq!(desktop.workspace_location(homes[1]).unwrap().output, Some(OutputId(5)));
}

#[test]
fn outputs_leave_and_come_back_again_and_again() {
    let mut desktop = Desktop::new(8);
    for id in 1..=4 {
        desktop.connect_output(output(id, ["A", "B", "C", "D"][id as usize - 1])).unwrap();
    }
    for round in 0..5 {
        for id in 1..=4 {
            desktop.disconnect_output(OutputId(id)).unwrap();
        }
        assert!(desktop.primary_output.is_none());
        for id in 1..=4 {
            let key = ["A", "B", "C", "D"][(id as usize + round) % 4];
            desktop.connect_output(output(id, key)).unwrap();
        }
        assert_eq!(desktop.primary_output, Some(OutputId(1)));
    }
}

#[test]
fn the_camera_moves_no_farther_than_it_must() {
    let mut workspace = Workspace::new(WorkspaceId(0));
    let id = WindowId(1);
    workspace.tiled.insert(1, TiledWindow { id, geometry: Rect::new(1000, 0, 200, 100) });
    workspace.focus(id);
    let viewport = Size::new(800, 600);

    workspace.camera.policy = CameraPolicy::KeepVisible { margin: 32 };
    workspace.follow_focus(viewport);
    assert_eq!(workspace.camera.center, Point { x: 832, y: 0 });
    workspace.follow_focus(viewport);
    assert_eq!(workspace.camera.center, Point { x: 832, y: 0 });

    workspace.camera.policy = CameraPolicy::Centered;
    workspace.follow_focus(viewport);
    assert_eq!(workspace.camera.center, Point { x: 1100, y: 50 });

    workspace.floating.insert(
        2,
        FloatingPlacement {
            window: WindowId(2),
            viewport: ViewportPlacement::new(Rect::new(0, 0, 10, 10), viewport),
        },
    );
    workspace.focus(WindowId(2));
    workspace.camera.center = Point { x: 5, y: 6 };
    workspace.follow_focus(viewport);
    assert_eq!(workspace.camera.center, Point { x: 5, y: 6 });
}

#[test]
fn focusing_a_window_drops_the_workspace_that_is_left_empty() {
    let mut desktop = Desktop::new(8);
    desktop.connect_output(output(1, "A")).unwrap();
    for (window, workspace) in [(1, 0), (2, 1)] {
        apply_window(
            &mut desktop,
            WorkspaceId(workspace),
            WindowTransaction::InsertTiled {
                id: WindowId(window),
                size: Size::new(400, 300),
                anchor: Point::origin(),
                seed_direction: Direction::right(),
                hint: Direction::right(),
            },
        )
        .unwrap();
    }
    apply(
        &mut desktop,
        WorkspaceTransaction::Focus { output: OutputId(1), workspace: WorkspaceId(1) },
    )
    .unwrap();
    apply_window(&mut desktop, WorkspaceId(1), WindowTransaction::Remove { id: WindowId(2) })
        .unwrap();
    assert_eq!(desktop.focus_window(WindowId(1)), Ok(WorkspaceId(0)));
    assert_eq!(desktop.active_workspace_id(OutputId(1)), Some(WorkspaceId(0)));
    let ids: Vec<u32> =
        desktop.outputs.get(1).unwrap().workspaces.iter().map(|workspace| workspace.id.0).collect();
    assert_eq!(ids, vec![0, 2]);
}

#[test]
fn transactions_keep_windows_workspaces_and_placeholders() {
    let mut desktop = Desktop::new(8);
    desktop.connect_output(output(1, "A")).unwrap();
    desktop.connect_output(output(2, "B")).unwrap();
    for (id, on) in [(1, 1), (2, 1), (3, 2)] {
        let workspace = desktop.active_workspace_id(OutputId(on)).unwrap();
        apply_window(
            &mut desktop,
            workspace,
            WindowTransaction::InsertTiled {
                id: WindowId(id),
                size: Size::new(300, 200),
                anchor: Point::origin(),
                seed_direction: Direction::right(),
                hint: Direction::right(),
            },
        )
        .unwrap();
    }
    let first = desktop.active_workspace_id(OutputId(1)).unwrap();
    let second = desktop.active_workspace_id(OutputId(2)).unwrap();
    let transactions = [
        WorkspaceTransaction::SendWindow {
            window: WindowId(2),
            target: second,
            activate: true,
            hint: Direction::right(),
        },
        WorkspaceTransaction::SetName { workspace: second, name: Some("b".into()) },
        WorkspaceTransaction::Move {
            workspace: first,
            target_output: OutputId(2),
            target_index: Some(0),
            activate: true,
        },
        WorkspaceTransaction::Focus { output: OutputId(2), workspace: second },
    ];
    for transaction in transactions {
        apply(&mut desktop, transaction).unwrap();
        let mut ids = Vec::new();
        for key in [1, 2] {
            let output = desktop.outputs.get(key).unwrap();
            assert!(output.active < output.workspaces.len());
            assert!(!output.workspaces.last().unwrap().has_windows_or_name());
            ids.extend(output.workspaces.iter().map(|workspace| workspace.id.0));
        }
        let count = ids.len();
        ids.sort();
        ids.dedup();
        assert_eq!(ids.len(), count);
        for id in 1..=3 {
            let home = desktop.find_window(WindowId(id)).unwrap();
            assert!(desktop.workspace(home).unwrap().contains_window(WindowId(id)));
        }
    }
}
