use astera::geometry::Size;
use astera::model::{OutputId, WindowId, WorkspaceId};
use astera::outputs::{OutputTransform, Scale120};
use astera::summary::{format_overview, DesktopSnapshot, OutputSnapshot, WorkspaceSnapshot};

#[test]
fn overview_marks_active_output_and_background_workspace() {
    let snapshot = DesktopSnapshot {
        active_output: Some(OutputId(2)),
        outputs: vec![OutputSnapshot {
            id: OutputId(2),
            stable_key: "DP-1".to_owned(),
            workspace: Some(WorkspaceId(3)),
            physical_size: Size::new(3840, 2160),
            logical_size: Size::new(2560, 1440),
            native_scale: Scale120(180),
            transform: OutputTransform::Normal,
        }],
        workspaces: vec![
            WorkspaceSnapshot {
                id: WorkspaceId(3),
                output: Some(OutputId(2)),
                focused_window: Some(WindowId(9)),
                tiled_count: 2,
                floating_count: 1,
                fullscreen: None,
            },
            WorkspaceSnapshot {
                id: WorkspaceId(4),
                output: None,
                focused_window: None,
                tiled_count: 1,
                floating_count: 0,
                fullscreen: None,
            },
        ],
    };

    let overview = format_overview(&snapshot);
    assert!(overview.contains("DP-1 *: workspace 3, 2560x1440 logical, 1.50x"));
    assert!(overview.contains("4: background"));
}
