use astera::geometry::{Direction, Point, Rect, Size};
use astera::layout::{LayoutDelta, LayoutError, Push, RadialSolver, WindowTransaction};
use astera::model::{TiledWindow, WindowId, WindowMode, WorkspaceId};
use astera::workspace::Workspace;

/// The unit vector that points in a direction; to the right where there is none.
fn direction(x: f64, y: f64) -> Direction {
    let length = x.hypot(y);
    let (x, y) = if !length.is_finite() || length <= f64::EPSILON {
        (1.0, 0.0)
    } else {
        (x / length, y / length)
    };
    Direction { x_bits: x.to_bits(), y_bits: y.to_bits() }
}

/// The first place along the ray of a push at which its window is clear of all obstacles.
fn first_clear_position(push: &Push) -> Option<Point> {
    let direction = if push.source_center == push.center {
        direction(f64::from_bits(push.fallback.x_bits), f64::from_bits(push.fallback.y_bits))
    } else {
        direction(
            (i128::from(push.center.x) - i128::from(push.source_center.x)) as f64,
            (i128::from(push.center.y) - i128::from(push.source_center.y)) as f64,
        )
    };
    let (dx, dy) = (f64::from_bits(direction.x_bits), f64::from_bits(direction.y_bits));
    let clear = |candidate: Rect| {
        push.obstacles.iter().all(|obstacle| !candidate.conflicts(*obstacle, push.gap))
    };
    let rect = push.rect;
    if clear(rect) {
        return Some(rect.origin);
    }
    let at = |distance: f64| {
        rect.translated(
            rect.origin.x + (dx * distance).round() as i64,
            rect.origin.y + (dy * distance).round() as i64,
        )
    };
    let mut high = (rect.size.width.max(rect.size.height) + push.gap + 1) as f64;
    for _ in 0..62 {
        if clear(at(high)) {
            let mut low = 0.0;
            for _ in 0..64 {
                let middle = (low + high) / 2.0;
                if clear(at(middle)) {
                    high = middle;
                } else {
                    low = middle;
                }
            }
            let mut candidate = at(high.ceil() + 1.0);
            while !clear(candidate) {
                high += 1.0;
                candidate = at(high);
            }
            return Some(candidate.origin);
        }
        high *= 2.0;
    }
    None
}

fn apply(
    solver: &RadialSolver,
    workspace: &mut Workspace,
    transaction: WindowTransaction,
) -> Result<LayoutDelta, LayoutError> {
    let mut answers = Vec::new();
    loop {
        match solver.apply(workspace, transaction, &answers) {
            Err(LayoutError::NeedsPosition(push)) => answers.push(first_clear_position(&push)),
            result => return result,
        }
    }
}

fn reflow(solver: &RadialSolver, workspace: &mut Workspace) -> Result<usize, LayoutError> {
    let mut answers = Vec::new();
    loop {
        match solver.reflow(workspace, &answers, 0) {
            Err(LayoutError::NeedsPosition(push)) => answers.push(first_clear_position(&push)),
            result => return result,
        }
    }
}

fn insert(solver: &RadialSolver, workspace: &mut Workspace, id: u64, anchor: Point) {
    apply(
        solver,
        workspace,
        WindowTransaction::InsertTiled {
            id: WindowId(id),
            size: Size::new(100, 80),
            anchor,
            seed_direction: Direction::right(),
            hint: Direction::right(),
        },
    )
    .unwrap();
}

#[test]
fn layout_tests_same_center_pushes_old_window_in_seed_direction() {
    let solver = RadialSolver::new(8);
    let mut workspace = Workspace::new(WorkspaceId(1));
    insert(&solver, &mut workspace, 1, Point::origin());
    insert(&solver, &mut workspace, 2, Point::origin());
    assert_eq!(
        workspace.tiled.get(2).unwrap().geometry.center(),
        Point::origin()
    );
    assert!(workspace.tiled.get(1).unwrap().geometry.origin.x > 50);
    assert!(workspace.tiled_windows_are_stable(8));
}

#[test]
fn center_insertion_pushes_surrounding_windows_outward() {
    let solver = RadialSolver::new(8);
    let mut workspace = Workspace::new(WorkspaceId(1));
    insert(&solver, &mut workspace, 1, Point::new(-40, 0));
    insert(&solver, &mut workspace, 2, Point::new(40, 0));

    let before_left = workspace.tiled.get(1).unwrap().geometry.center();
    let before_right = workspace.tiled.get(2).unwrap().geometry.center();
    insert(&solver, &mut workspace, 3, Point::origin());

    let left = workspace.tiled.get(1).unwrap().geometry.center();
    let right = workspace.tiled.get(2).unwrap().geometry.center();
    assert!(left.x < before_left.x);
    assert!(right.x > before_right.x);
    assert_eq!(
        workspace.tiled.get(3).unwrap().geometry.center(),
        Point::origin()
    );
    assert!(workspace.tiled_windows_are_stable(8));
}

#[test]
fn layout_tests_floating_and_fullscreen_never_participate_in_solver() {
    let solver = RadialSolver::new(8);
    let mut workspace = Workspace::new(WorkspaceId(1));
    insert(&solver, &mut workspace, 1, Point::origin());
    apply(&solver, &mut workspace,
            WindowTransaction::SetMode {
                id: WindowId(1),
                mode: WindowMode::Floating,
                viewport_size: Size::new(1920, 1080),
            },
        )
        .unwrap();
    insert(&solver, &mut workspace, 2, Point::origin());
    apply(&solver, &mut workspace,
            WindowTransaction::SetMode {
                id: WindowId(1),
                mode: WindowMode::Fullscreen,
                viewport_size: Size::new(1920, 1080),
            },
        )
        .unwrap();
    assert!(workspace.tiled_windows_are_stable(8));
    assert_eq!(workspace.fullscreen.as_ref().unwrap().window, WindowId(1));
}

#[test]
fn layout_tests_failed_transaction_rolls_back() {
    let solver = RadialSolver::new(8);
    let mut workspace = Workspace::new(WorkspaceId(1));
    let before = workspace.clone();
    assert_eq!(
        apply(&solver, &mut workspace,
            WindowTransaction::InsertTiled {
                id: WindowId(1),
                size: Size::new(0, 80),
                anchor: Point::origin(),
                seed_direction: Direction::right(),
                hint: Direction::right(),
            },
        ),
        Err(LayoutError::InvalidSize)
    );
    assert_eq!(workspace.tiled, before.tiled);
    assert_eq!(workspace.generation, before.generation);
}

#[test]
fn layout_tests_fullscreen_restores_original_floating_geometry() {
    let solver = RadialSolver::new(8);
    let mut workspace = Workspace::new(WorkspaceId(1));
    insert(&solver, &mut workspace, 1, Point::origin());
    let viewport = Size::new(1920, 1080);
    apply(&solver, &mut workspace,
            WindowTransaction::SetMode {
                id: WindowId(1),
                mode: WindowMode::Floating,
                viewport_size: viewport,
            },
        )
        .unwrap();
    let floating_rect = workspace.floating.get(1).unwrap().viewport.rect;
    apply(&solver, &mut workspace,
            WindowTransaction::SetMode {
                id: WindowId(1),
                mode: WindowMode::Fullscreen,
                viewport_size: viewport,
            },
        )
        .unwrap();
    apply(&solver, &mut workspace,
            WindowTransaction::SetMode {
                id: WindowId(1),
                mode: WindowMode::Floating,
                viewport_size: viewport,
            },
        )
        .unwrap();
    assert_eq!(
        workspace.floating.get(1).unwrap().viewport.rect,
        floating_rect
    );
}

#[test]
fn maximized_and_fullscreen_restore_stack_is_finite() {
    let solver = RadialSolver::new(8);
    let mut workspace = Workspace::new(WorkspaceId(1));
    insert(&solver, &mut workspace, 1, Point::origin());
    let original = workspace.tiled.get(1).unwrap().geometry;

    for mode in [
        WindowMode::Maximized,
        WindowMode::Fullscreen,
        WindowMode::Maximized,
        WindowMode::Tiled,
    ] {
        apply(&solver, &mut workspace,
                WindowTransaction::SetMode {
                    id: WindowId(1),
                    mode,
                    viewport_size: Size::new(1920, 1080),
                },
            )
            .unwrap();
        assert_eq!(workspace.window_mode(WindowId(1)), Some(mode));
    }
    assert_eq!(workspace.tiled.get(1).unwrap().geometry, original);
    assert!(workspace.maximized.is_none());
    assert!(workspace.fullscreen.is_none());
}

#[test]
fn maximized_is_excluded_from_solver_and_occupancy_conflicts_are_atomic() {
    let solver = RadialSolver::new(8);
    let mut workspace = Workspace::new(WorkspaceId(1));
    insert(&solver, &mut workspace, 1, Point::origin());
    insert(&solver, &mut workspace, 2, Point::new(400, 0));
    apply(&solver, &mut workspace,
            WindowTransaction::SetMode {
                id: WindowId(1),
                mode: WindowMode::Maximized,
                viewport_size: Size::new(800, 600),
            },
        )
        .unwrap();
    let before = workspace.clone();
    assert_eq!(
        apply(&solver, &mut workspace,
            WindowTransaction::SetMode {
                id: WindowId(2),
                mode: WindowMode::Maximized,
                viewport_size: Size::new(800, 600),
            },
        ),
        Err(LayoutError::MaximizedOccupied(WindowId(1)))
    );
    assert_eq!(workspace.maximized, before.maximized);
    assert_eq!(workspace.tiled, before.tiled);
    assert!(workspace.tiled_windows_are_stable(8));
}

#[test]
fn layout_tests_removing_focus_restores_most_recent_live_window() {
    let solver = RadialSolver::new(8);
    let mut workspace = Workspace::new(WorkspaceId(1));
    insert(&solver, &mut workspace, 1, Point::origin());
    insert(&solver, &mut workspace, 2, Point::new(300, 0));
    assert_eq!(workspace.focused_window, Some(WindowId(2)));
    apply(&solver, &mut workspace,
            WindowTransaction::Remove { id: WindowId(2) },
        )
        .unwrap();
    assert_eq!(workspace.focused_window, Some(WindowId(1)));
}

#[test]
fn layout_tests_finished_tiled_drag_snaps_to_nearby_edge_before_solving() {
    let solver = RadialSolver::new(8).with_snap_distance(24);
    let mut workspace = Workspace::new(WorkspaceId(1));
    insert(&solver, &mut workspace, 1, Point::new(50, 40));
    insert(&solver, &mut workspace, 2, Point::new(400, 40));
    apply(&solver, &mut workspace,
            WindowTransaction::MoveTiledFinished {
                id: WindowId(2),
                target: Point::new(112, 0),
                seed_direction: Direction::right(),
                hint: Direction::right(),
            },
        )
        .unwrap();
    assert_eq!(workspace.tiled.get(2).unwrap().geometry.origin.x, 108);
    assert!(workspace.tiled_windows_are_stable(8));
}

#[test]
fn layout_tests_duplicate_unknown_and_fullscreen_conflicts_are_atomic() {
    let solver = RadialSolver::new(8);
    let mut workspace = Workspace::new(WorkspaceId(1));
    insert(&solver, &mut workspace, 1, Point::origin());
    insert(&solver, &mut workspace, 2, Point::new(300, 0));
    apply(&solver, &mut workspace,
            WindowTransaction::SetMode {
                id: WindowId(1),
                mode: WindowMode::Fullscreen,
                viewport_size: Size::new(800, 600),
            },
        )
        .unwrap();
    let before = workspace.clone();

    assert_eq!(
        apply(&solver, &mut workspace,
            WindowTransaction::SetMode {
                id: WindowId(2),
                mode: WindowMode::Fullscreen,
                viewport_size: Size::new(800, 600),
            },
        ),
        Err(LayoutError::FullscreenOccupied(WindowId(1)))
    );
    assert_eq!(workspace.tiled, before.tiled);
    assert_eq!(workspace.fullscreen, before.fullscreen);
    assert_eq!(workspace.generation, before.generation);
    assert_eq!(
        apply(&solver, &mut workspace,
            WindowTransaction::Remove { id: WindowId(99) }
        ),
        Err(LayoutError::UnknownWindow(WindowId(99)))
    );
    assert_eq!(
        apply(&solver, &mut workspace,
            WindowTransaction::InsertTiled {
                id: WindowId(2),
                size: Size::new(10, 10),
                anchor: Point::origin(),
                seed_direction: Direction::right(),
                hint: Direction::right(),
            },
        ),
        Err(LayoutError::DuplicateWindow(WindowId(2)))
    );
}

#[test]
fn layout_tests_tiled_floating_round_trip_uses_camera_transform_and_clamps() {
    let solver = RadialSolver::new(8);
    let mut workspace = Workspace::new(WorkspaceId(1));
    workspace.camera.center = Point::new(1_000, 500);
    let viewport = Size::new(800, 600);
    insert(&solver, &mut workspace, 1, Point::new(1_000, 500));
    let world = workspace.tiled.get(1).unwrap().geometry;

    apply(&solver, &mut workspace,
            WindowTransaction::SetMode {
                id: WindowId(1),
                mode: WindowMode::Floating,
                viewport_size: viewport,
            },
        )
        .unwrap();
    assert_eq!(
        workspace.floating.get(1).unwrap().viewport.rect.center(),
        Point::new(400, 300)
    );
    apply(&solver, &mut workspace,
            WindowTransaction::MoveFloating {
                id: WindowId(1),
                target: Rect::new(-500, 900, 100, 80),
                viewport_size: viewport,
            },
        )
        .unwrap();
    assert_eq!(
        workspace.floating.get(1).unwrap().viewport.rect.origin,
        Point::new(0, 520)
    );
    apply(&solver, &mut workspace,
            WindowTransaction::SetMode {
                id: WindowId(1),
                mode: WindowMode::Tiled,
                viewport_size: viewport,
            },
        )
        .unwrap();
    assert_ne!(workspace.tiled.get(1).unwrap().geometry, world);
    assert_eq!(workspace.window_mode(WindowId(1)), Some(WindowMode::Tiled));
}

#[test]
fn layout_tests_reflow_repairs_manual_overlap_and_updates_generation() {
    let solver = RadialSolver::new(8);
    let mut workspace = Workspace::new(WorkspaceId(1));
    for id in 1..=3 {
        workspace.tiled.insert(
            id,
            TiledWindow {
                id: WindowId(id),
                geometry: Rect::new(0, 0, 100, 80),
            },
        );
    }
    let generation = workspace.generation;
    reflow(&solver, &mut workspace).unwrap();
    assert!(workspace.tiled_windows_are_stable(8));
    assert_eq!(workspace.generation, generation + 1);
}

#[test]
fn layout_tests_failed_reflow_is_atomic() {
    let solver = RadialSolver::new(8).with_operation_limit(1);
    let mut workspace = Workspace::new(WorkspaceId(1));
    for id in 1..=4 {
        workspace.tiled.insert(
            id,
            TiledWindow {
                id: WindowId(id),
                geometry: Rect::new(0, 0, 100, 80),
            },
        );
    }
    let before = workspace.clone();
    assert!(matches!(
        reflow(&solver, &mut workspace),
        Err(LayoutError::DidNotConverge(_))
    ));
    assert_eq!(workspace.tiled, before.tiled);
    assert_eq!(workspace.generation, before.generation);
}


/// Numbers that look random and are the same in every run.
struct Numbers(u64);

impl Numbers {
    fn next(&mut self, low: i64, high: i64) -> i64 {
        self.0 = self.0.wrapping_mul(6364136223846793005).wrapping_add(1442695040888963407);
        low + ((self.0 >> 33) as i64) % (high - low + 1)
    }
}

fn seed(index: usize) -> Direction {
    if index % 2 == 0 {
        Direction::right()
    } else {
        direction(0.0, 1.0)
    }
}

fn apply_fixture(fixture: &[(i64, i64, i64, i64)]) -> Result<Workspace, LayoutError> {
    let solver = RadialSolver::new(8);
    let mut workspace = Workspace::new(WorkspaceId(1));
    for (index, &(x, y, width, height)) in fixture.iter().enumerate() {
        apply(
            &solver,
            &mut workspace,
            WindowTransaction::InsertTiled {
                id: WindowId(index as u64 + 1),
                size: Size::new(width, height),
                anchor: Point::new(x, y),
                seed_direction: seed(index),
                hint: seed(index),
            },
        )?;
    }
    Ok(workspace)
}

#[test]
fn arbitrary_insertions_are_stable_and_deterministic() {
    let mut numbers = Numbers(1);
    for _ in 0..64 {
        let count = numbers.next(0, 19);
        let fixture: Vec<(i64, i64, i64, i64)> = (0..count)
            .map(|_| {
                (
                    numbers.next(-2_000, 2_000),
                    numbers.next(-2_000, 2_000),
                    numbers.next(1, 600),
                    numbers.next(1, 400),
                )
            })
            .collect();
        let first = apply_fixture(&fixture).unwrap();
        let second = apply_fixture(&fixture).unwrap();
        assert!(first.tiled_windows_are_stable(8));
        assert_eq!(first.tiled, second.tiled);
        assert_eq!(first.generation, fixture.len() as u64);
    }
}

#[test]
fn failed_insert_is_atomic() {
    let mut numbers = Numbers(2);
    for _ in 0..64 {
        let (x, y) = (numbers.next(-10_000, 10_000), numbers.next(-10_000, 10_000));
        let solver = RadialSolver::new(8);
        let mut workspace = Workspace::new(WorkspaceId(1));
        insert(&solver, &mut workspace, 1, Point::new(x, y));
        let before = workspace.clone();
        let result = apply(
            &solver,
            &mut workspace,
            WindowTransaction::InsertTiled {
                id: WindowId(2),
                size: Size::new(numbers.next(-100, 0), 100),
                anchor: Point::new(x, y),
                seed_direction: direction(-1.0, 0.0),
                hint: direction(-1.0, 0.0),
            },
        );
        assert_eq!(result, Err(LayoutError::InvalidSize));
        assert_eq!(workspace.tiled, before.tiled);
        assert_eq!(workspace.generation, before.generation);
    }
}

#[test]
fn layout_errors_say_what_is_wrong() {
    assert_eq!(
        LayoutError::DuplicateWindow(WindowId(5)).message(),
        "window WindowId(5) already exists"
    );
    assert_eq!(
        LayoutError::FullscreenOccupied(WindowId(7)).message(),
        "workspace already has fullscreen window WindowId(7)"
    );
    assert_eq!(
        LayoutError::DidNotConverge(10_000).message(),
        "layout did not converge after 10000 operations"
    );
}

#[test]
fn fullscreen_returns_in_another_viewport() {
    let solver = RadialSolver::new(8);
    for mode in [WindowMode::Floating, WindowMode::Tiled] {
        let mut workspace = Workspace::new(WorkspaceId(1));
        insert(&solver, &mut workspace, 1, Point { x: 700, y: -30 });
        let mut set_mode = |mode, width, height| {
            let viewport_size = Size::new(width, height);
            let transaction = WindowTransaction::SetMode { id: WindowId(1), mode, viewport_size };
            apply(&solver, &mut workspace, transaction).unwrap();
            (
                workspace.window_mode(WindowId(1)),
                workspace.floating.get(1).map(|window| window.viewport.clone()),
                workspace.tiled.get(1).map(|window| window.geometry),
            )
        };
        let before = set_mode(mode, 1920, 1080);
        assert_eq!(set_mode(WindowMode::Fullscreen, 640, 480), (Some(WindowMode::Fullscreen), None, None));
        assert_eq!(set_mode(mode, 5000, 17), before);
    }
}

#[test]
fn the_hint_is_the_seed_direction_normalized() {
    let solver = RadialSolver::new(8);
    let mut workspace = Workspace::new(WorkspaceId(1));
    insert(&solver, &mut workspace, 1, Point::origin());
    let seed_direction = Direction { x_bits: 3f64.to_bits(), y_bits: 4f64.to_bits() };
    let hint = direction(3.0, 4.0);
    let transaction = WindowTransaction::InsertTiled {
        id: WindowId(2),
        size: Size::new(100, 100),
        anchor: workspace.tiled.get(1).unwrap().geometry.center(),
        seed_direction,
        hint,
    };
    let Err(LayoutError::NeedsPosition(push)) = solver.apply(&mut workspace, transaction, &[])
    else {
        panic!("the window at the centre has to move")
    };
    assert_eq!(push.fallback, seed_direction);
    apply(&solver, &mut workspace, transaction).unwrap();
    assert_eq!(workspace.layout_direction_hint, hint);
    assert_eq!(f64::from_bits(hint.x_bits), 0.6);
}
