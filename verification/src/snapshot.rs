//! What a client is shown of the desktop.

use crate::desktop;
use crate::desktop::Desktop;
use crate::desktop_laws;
use crate::geometry;
use crate::listing;
use crate::listing::group_each;
use crate::model;
use crate::model::{FullscreenRestorePlacement, OutputId, RestorePlacement, WindowId};
use crate::outputs;
use crate::outputs::OutputWorkspaceSet;
use crate::ranking;
use crate::text::copy_option;
use crate::wire::v1;
use crate::wire::v1::{
    BaseRestore, CameraSnapshot, ConfigSnapshot, DesktopSnapshot, FullscreenRestore,
    OutputSnapshot, WindowMetadata, WindowPlacement, WindowSnapshot, WorkspaceSnapshot,
};
use crate::workspace;
use crate::workspace::Workspace;
use vstd::prelude::*;

verus! {

broadcast use group_each;

pub open spec fn wire_rect(rect: geometry::Rect) -> v1::Rect {
    v1::Rect {
        origin: v1::Point { x: rect.origin.x, y: rect.origin.y },
        size: v1::Size { width: rect.size.width, height: rect.size.height },
    }
}

pub open spec fn wire_size(size: geometry::Size) -> v1::Size {
    v1::Size { width: size.width, height: size.height }
}

pub open spec fn wire_policy(policy: model::CameraPolicy) -> v1::CameraPolicy {
    match policy {
        model::CameraPolicy::Centered => v1::CameraPolicy::Centered,
        model::CameraPolicy::KeepVisible { margin } => v1::CameraPolicy::KeepVisible { margin },
    }
}

pub open spec fn wire_mode(mode: model::WindowMode) -> v1::WindowMode {
    match mode {
        model::WindowMode::Tiled => v1::WindowMode::Tiled,
        model::WindowMode::Floating => v1::WindowMode::Floating,
        model::WindowMode::Maximized => v1::WindowMode::Maximized,
        model::WindowMode::Fullscreen => v1::WindowMode::Fullscreen,
    }
}

pub open spec fn wire_transform(transform: outputs::OutputTransform) -> v1::OutputTransform {
    match transform {
        outputs::OutputTransform::Normal => v1::OutputTransform::Normal,
        outputs::OutputTransform::Rotate90 => v1::OutputTransform::Rotate90,
        outputs::OutputTransform::Rotate180 => v1::OutputTransform::Rotate180,
        outputs::OutputTransform::Rotate270 => v1::OutputTransform::Rotate270,
        outputs::OutputTransform::Flipped => v1::OutputTransform::Flipped,
    }
}

pub open spec fn wire_window(id: Option<WindowId>) -> Option<v1::WindowId> {
    match id {
        Some(id) => Some(v1::WindowId(id.0)),
        None => None,
    }
}

pub open spec fn wire_output(id: Option<OutputId>) -> Option<v1::OutputId> {
    match id {
        Some(id) => Some(v1::OutputId(id.0)),
        None => None,
    }
}

pub open spec fn base_restore(restore: model::RestoreView) -> BaseRestore {
    match restore {
        model::RestoreView::Tiled { world_rect } => BaseRestore::Tiled {
            world_geometry: wire_rect(world_rect),
        },
        model::RestoreView::Floating { viewport } => BaseRestore::Floating {
            viewport_geometry: wire_rect(viewport.rect),
        },
    }
}

pub open spec fn fullscreen_restore(restore: model::FullscreenRestoreView) -> FullscreenRestore {
    match restore {
        model::FullscreenRestoreView::Tiled { world_rect } => FullscreenRestore::Tiled {
            world_geometry: wire_rect(world_rect),
        },
        model::FullscreenRestoreView::Floating { viewport } => FullscreenRestore::Floating {
            viewport_geometry: wire_rect(viewport.rect),
        },
        model::FullscreenRestoreView::Maximized { restore } => FullscreenRestore::Maximized {
            restore: base_restore(restore),
        },
    }
}

/// A window as it is shown before its client's title and its place on the screen are filled in.
pub open spec fn window(
    ws: workspace::WorkspaceView,
    id: WindowId,
    mode: model::WindowMode,
    placement: WindowPlacement,
) -> v1::WindowSnapshotView {
    v1::WindowSnapshotView {
        id: v1::WindowId(id.0),
        workspace: v1::WorkspaceId(ws.id.0),
        mode: wire_mode(mode),
        metadata: v1::WindowMetadataView::blank(),
        placement,
        visible_geometry: None,
    }
}

pub open spec fn tiled_window(ws: workspace::WorkspaceView, key: u64) -> v1::WindowSnapshotView {
    window(
        ws,
        ws.tiled[key].id,
        model::WindowMode::Tiled,
        WindowPlacement::Tiled { world_geometry: wire_rect(ws.tiled[key].geometry) },
    )
}

pub open spec fn floating_window(ws: workspace::WorkspaceView, key: u64) -> v1::WindowSnapshotView {
    window(
        ws,
        ws.floating[key].window,
        model::WindowMode::Floating,
        WindowPlacement::Floating {
            viewport_geometry: wire_rect(ws.floating[key].viewport.rect),
        },
    )
}

pub open spec fn tiled_windows(ws: workspace::WorkspaceView) -> Seq<v1::WindowSnapshotView> {
    let keys = ranking::ascending(ws.tiled.dom());
    Seq::new(keys.len(), |i: int| tiled_window(ws, keys[i]))
}

pub open spec fn floating_windows(ws: workspace::WorkspaceView) -> Seq<v1::WindowSnapshotView> {
    let keys = ranking::ascending(ws.floating.dom());
    Seq::new(keys.len(), |i: int| floating_window(ws, keys[i]))
}

pub open spec fn maximized_window(ws: workspace::WorkspaceView) -> Seq<v1::WindowSnapshotView> {
    match ws.maximized {
        Some(m) => seq![
            window(
                ws,
                m.window,
                model::WindowMode::Maximized,
                WindowPlacement::Maximized { restore: base_restore(m.restore) },
            ),
        ],
        None => seq![],
    }
}

pub open spec fn fullscreen_window(ws: workspace::WorkspaceView) -> Seq<v1::WindowSnapshotView> {
    match ws.fullscreen {
        Some(f) => seq![
            window(
                ws,
                f.window,
                model::WindowMode::Fullscreen,
                WindowPlacement::Fullscreen { restore: fullscreen_restore(f.restore) },
            ),
        ],
        None => seq![],
    }
}

/// The windows of a workspace: tiled and floating ones by id, then the maximized one and the
/// fullscreen one.
pub open spec fn windows(ws: workspace::WorkspaceView) -> Seq<v1::WindowSnapshotView> {
    tiled_windows(ws) + floating_windows(ws) + maximized_window(ws) + fullscreen_window(ws)
}

/// The windows of the first `n` workspaces of a list.
pub open spec fn windows_among(all: Seq<workspace::WorkspaceView>, n: int) -> Seq<
    v1::WindowSnapshotView,
>
    decreases n,
{
    if n <= 0 {
        seq![]
    } else {
        windows_among(all, n - 1) + windows(all[n - 1])
    }
}

pub open spec fn camera(ws: workspace::WorkspaceView) -> CameraSnapshot {
    CameraSnapshot {
        workspace: v1::WorkspaceId(ws.id.0),
        center: v1::Point { x: ws.camera.center.x, y: ws.camera.center.y },
        policy: wire_policy(ws.camera.policy),
    }
}

/// The index of a workspace as it is shown, which counts from one.
pub open spec fn local_index(i: int) -> u32 {
    if i < u32::MAX {
        (i + 1) as u32
    } else {
        u32::MAX
    }
}

pub open spec fn workspace(
    desktop: desktop::DesktopView,
    ws: workspace::WorkspaceView,
) -> v1::WorkspaceSnapshotView {
    v1::WorkspaceSnapshotView {
        id: v1::WorkspaceId(ws.id.0),
        name: ws.name,
        original_output: ws.original_output,
        output: match desktop.place(ws.id) {
            Some((Some(k), i)) => Some(v1::OutputId(k as u32)),
            _ => None,
        },
        local_index: match desktop.place(ws.id) {
            Some((Some(k), i)) => Some(local_index(i)),
            _ => None,
        },
        active_window: wire_window(ws.focused_window),
        tiled_count: ws.tiled.dom().len() as u64,
        floating_count: ws.floating.dom().len() as u64,
        fullscreen: match ws.fullscreen {
            Some(f) => Some(v1::WindowId(f.window.0)),
            None => None,
        },
    }
}

pub open spec fn output(set: outputs::SetView) -> v1::OutputSnapshotView {
    let size = wire_size(set.output.logical_size);
    let whole = v1::Rect { origin: v1::Point { x: 0, y: 0 }, size };
    v1::OutputSnapshotView {
        id: v1::OutputId(set.output.id.0),
        stable_key: set.output.stable_key,
        active_workspace: v1::WorkspaceId(set.workspaces[set.active as int].id.0),
        workspaces: Seq::new(
            set.workspaces.len(),
            |i: int| v1::WorkspaceId(set.workspaces[i].id.0),
        ),
        physical_size: wire_size(set.output.physical_size),
        logical_size: size,
        native_scale: v1::Scale120(set.output.native_scale.0),
        transform: wire_transform(set.output.transform),
        viewport: whole,
        usable_area: whole,
    }
}

/// The desktop as a client sees it, before the active output is filled in.
pub open spec fn snapshot(desktop: desktop::DesktopView) -> v1::SnapshotView {
    let all = desktop.all();
    v1::SnapshotView {
        active_output: None,
        primary_output: wire_output(desktop.primary_output),
        focused_window: None,
        outputs: Seq::new(
            desktop.keys().len(),
            |i: int| output(desktop.outputs[desktop.keys()[i]]),
        ),
        layers: seq![],
        workspaces: Seq::new(all.len(), |i: int| workspace(desktop, all[i])),
        cameras: Seq::new(all.len(), |i: int| camera(all[i])),
        windows: windows_among(all, all.len() as int),
        config: v1::ConfigSnapshotView::blank(),
    }
}

/// Every output shows one of its workspaces.
pub open spec fn every_output_shows(desktop: desktop::DesktopView) -> bool {
    forall|k: u64| #[trigger]
        desktop.outputs.contains_key(k) ==> desktop.outputs[k].active
            < desktop.outputs[k].workspaces.len()
}

fn restore_of(restore: &RestorePlacement) -> (r: BaseRestore)
    ensures
        r == base_restore(restore@),
{
    match restore {
        RestorePlacement::Tiled { world_rect } => BaseRestore::Tiled {
            world_geometry: v1::Rect::from(*world_rect),
        },
        RestorePlacement::Floating { viewport } => BaseRestore::Floating {
            viewport_geometry: v1::Rect::from(viewport.rect),
        },
    }
}

fn fullscreen_restore_of(restore: &FullscreenRestorePlacement) -> (r: FullscreenRestore)
    ensures
        r == fullscreen_restore(restore@),
{
    match restore {
        FullscreenRestorePlacement::Tiled { world_rect } => FullscreenRestore::Tiled {
            world_geometry: v1::Rect::from(*world_rect),
        },
        FullscreenRestorePlacement::Floating { viewport } => FullscreenRestore::Floating {
            viewport_geometry: v1::Rect::from(viewport.rect),
        },
        FullscreenRestorePlacement::Maximized { restore } => FullscreenRestore::Maximized {
            restore: restore_of(restore),
        },
    }
}

fn window_of(
    ws: &Workspace,
    id: WindowId,
    mode: model::WindowMode,
    placement: WindowPlacement,
) -> (r: WindowSnapshot)
    ensures
        r@ == window(ws@, id, mode, placement),
{
    WindowSnapshot {
        id: v1::WindowId::from(id),
        workspace: v1::WorkspaceId::from(ws.id),
        mode: v1::WindowMode::from(mode),
        metadata: WindowMetadata::default(),
        placement,
        visible_geometry: None,
    }
}

fn list_tiled(list: &mut Vec<WindowSnapshot>, ws: &Workspace)
    ensures
        listing::each(final(list)@) == listing::each(old(list)@) + tiled_windows(ws@),
{
    let keys: Vec<u64> = ws.tiled.keys();
    let ghost before = listing::each(list@);
    let ghost goal = tiled_windows(ws@);
    let mut i: usize = 0;
    assert(before + goal.take(0) =~= before);
    while i < keys.len()
        invariant
            i <= keys@.len(),
            keys@ == ranking::ascending(ws@.tiled.dom()),
            keys@.to_set() == ws@.tiled.dom(),
            goal == tiled_windows(ws@),
            goal.len() == keys@.len(),
            listing::each(list@) == before + goal.take(i as int),
        decreases keys@.len() - i,
    {
        assert(keys@.to_set().contains(keys@[i as int]));
        match ws.tiled.get(keys[i]) {
            Some(tile) => {
                list.push(
                    window_of(
                        ws,
                        tile.id,
                        model::WindowMode::Tiled,
                        WindowPlacement::Tiled { world_geometry: v1::Rect::from(tile.geometry) },
                    ),
                );
            },
            None => {},
        }
        i = i + 1;
        assert(before + goal.take(i as int) =~= (before + goal.take(i - 1)).push(goal[i - 1]));
    }
    assert(goal.take(i as int) =~= goal);
}

fn list_floating(list: &mut Vec<WindowSnapshot>, ws: &Workspace)
    ensures
        listing::each(final(list)@) == listing::each(old(list)@) + floating_windows(ws@),
{
    let keys: Vec<u64> = ws.floating.keys();
    let ghost before = listing::each(list@);
    let ghost goal = floating_windows(ws@);
    let mut i: usize = 0;
    assert(before + goal.take(0) =~= before);
    while i < keys.len()
        invariant
            i <= keys@.len(),
            keys@ == ranking::ascending(ws@.floating.dom()),
            keys@.to_set() == ws@.floating.dom(),
            goal == floating_windows(ws@),
            goal.len() == keys@.len(),
            listing::each(list@) == before + goal.take(i as int),
        decreases keys@.len() - i,
    {
        assert(keys@.to_set().contains(keys@[i as int]));
        match ws.floating.get(keys[i]) {
            Some(float) => {
                list.push(
                    window_of(
                        ws,
                        float.window,
                        model::WindowMode::Floating,
                        WindowPlacement::Floating {
                            viewport_geometry: v1::Rect::from(float.viewport.rect),
                        },
                    ),
                );
            },
            None => {},
        }
        i = i + 1;
        assert(before + goal.take(i as int) =~= (before + goal.take(i - 1)).push(goal[i - 1]));
    }
    assert(goal.take(i as int) =~= goal);
}

fn list_windows(list: &mut Vec<WindowSnapshot>, ws: &Workspace)
    ensures
        listing::each(final(list)@) == listing::each(old(list)@) + windows(ws@),
{
    let ghost before = listing::each(list@);
    list_tiled(list, ws);
    list_floating(list, ws);
    match &ws.maximized {
        Some(maximized) => {
            list.push(
                window_of(
                    ws,
                    maximized.window,
                    model::WindowMode::Maximized,
                    WindowPlacement::Maximized { restore: restore_of(&maximized.restore) },
                ),
            );
        },
        None => {},
    }
    match &ws.fullscreen {
        Some(fullscreen) => {
            list.push(
                window_of(
                    ws,
                    fullscreen.window,
                    model::WindowMode::Fullscreen,
                    WindowPlacement::Fullscreen {
                        restore: fullscreen_restore_of(&fullscreen.restore),
                    },
                ),
            );
        },
        None => {},
    }
    assert(listing::each(list@) =~= before + windows(ws@));
}

fn camera_of(ws: &Workspace) -> (r: CameraSnapshot)
    ensures
        r == camera(ws@),
{
    CameraSnapshot {
        workspace: v1::WorkspaceId::from(ws.id),
        center: v1::Point::from(ws.camera.center),
        policy: v1::CameraPolicy::from(ws.camera.policy),
    }
}

fn window_id_of(id: Option<WindowId>) -> (r: Option<v1::WindowId>)
    ensures
        r == wire_window(id),
{
    match id {
        Some(id) => Some(v1::WindowId::from(id)),
        None => None,
    }
}

fn output_id_of(id: Option<OutputId>) -> (r: Option<v1::OutputId>)
    ensures
        r == wire_output(id),
{
    match id {
        Some(id) => Some(v1::OutputId::from(id)),
        None => None,
    }
}

fn workspace_of(desktop: &Desktop, ws: &Workspace) -> (r: WorkspaceSnapshot)
    ensures
        r@ == workspace(desktop@, ws@),
{
    let place: Option<(Option<u64>, usize)> = desktop.find_place(ws.id);
    let (output, index): (Option<v1::OutputId>, Option<u32>) = match place {
        Some((Some(k), i)) => (
            Some(v1::OutputId(k as u32)),
            Some(if i < 0xffff_ffff { i as u32 + 1 } else { u32::MAX }),
        ),
        _ => (None, None),
    };
    WorkspaceSnapshot {
        id: v1::WorkspaceId::from(ws.id),
        name: copy_option(&ws.name),
        original_output: copy_option(&ws.original_output),
        output,
        local_index: index,
        active_window: window_id_of(ws.focused_window),
        tiled_count: ws.tiled.len() as u64,
        floating_count: ws.floating.len() as u64,
        fullscreen: match &ws.fullscreen {
            Some(fullscreen) => Some(v1::WindowId::from(fullscreen.window)),
            None => None,
        },
    }
}

fn output_of(set: &OutputWorkspaceSet) -> (r: OutputSnapshot)
    requires
        set@.active < set@.workspaces.len(),
    ensures
        r@ == output(set@),
{
    let size = set.output.logical_size;
    let mut workspaces: Vec<v1::WorkspaceId> = Vec::new();
    let mut i: usize = 0;
    while i < set.workspaces.len()
        invariant
            i <= set.workspaces@.len(),
            workspaces@.len() == i,
            forall|j: int|
                0 <= j < i ==> #[trigger] workspaces@[j] == v1::WorkspaceId(
                    set@.workspaces[j].id.0,
                ),
        decreases set.workspaces@.len() - i,
    {
        workspaces.push(v1::WorkspaceId::from(set.workspaces[i].id));
        i = i + 1;
    }
    assert(workspaces@ =~= output(set@).workspaces);
    OutputSnapshot {
        id: v1::OutputId::from(set.output.id),
        stable_key: set.output.stable_key.clone(),
        active_workspace: v1::WorkspaceId::from(set.workspaces[set.active].id),
        workspaces,
        physical_size: v1::Size::from(set.output.physical_size),
        logical_size: v1::Size::from(size),
        native_scale: v1::Scale120::from(set.output.native_scale),
        transform: v1::OutputTransform::from(set.output.transform),
        viewport: v1::Rect::new(0, 0, size.width, size.height),
        usable_area: v1::Rect::new(0, 0, size.width, size.height),
    }
}

impl DesktopSnapshot {
    /// The desktop as a client sees it. The active output, the layers and the configuration are
    /// for the caller to fill in.
    pub fn from(desktop: &Desktop) -> (r: Self)
        requires
            every_output_shows(desktop@),
        ensures
            r@ == snapshot(desktop@),
    {
        let ghost goal = snapshot(desktop@);
        let all: Vec<&Workspace> = desktop.workspaces();
        let mut workspaces: Vec<WorkspaceSnapshot> = Vec::new();
        let mut cameras: Vec<CameraSnapshot> = Vec::new();
        let mut windows: Vec<WindowSnapshot> = Vec::new();
        let mut i: usize = 0;
        while i < all.len()
            invariant
                i <= all@.len(),
                desktop::borrowed_views(all@) == desktop@.all(),
                goal == snapshot(desktop@),
                listing::each(workspaces@) == goal.workspaces.take(i as int),
                cameras@ == goal.cameras.take(i as int),
                listing::each(windows@) == windows_among(desktop@.all(), i as int),
            decreases all@.len() - i,
        {
            assert(all@[i as int]@ == desktop@.all()[i as int]);
            cameras.push(camera_of(all[i]));
            list_windows(&mut windows, all[i]);
            workspaces.push(workspace_of(desktop, all[i]));
            i = i + 1;
            assert(goal.workspaces.take(i as int) =~= goal.workspaces.take(i - 1).push(
                goal.workspaces[i - 1],
            ));
            assert(goal.cameras.take(i as int) =~= goal.cameras.take(i - 1).push(
                goal.cameras[i - 1],
            ));
        }
        assert(goal.workspaces.take(i as int) =~= goal.workspaces);
        assert(goal.cameras.take(i as int) =~= goal.cameras);
        let keys: Vec<u64> = desktop.outputs.keys();
        let mut outputs: Vec<OutputSnapshot> = Vec::new();
        let mut n: usize = 0;
        while n < keys.len()
            invariant
                n <= keys@.len(),
                every_output_shows(desktop@),
                keys@ == desktop@.keys(),
                keys@.to_set() == desktop@.outputs.dom(),
                goal == snapshot(desktop@),
                listing::each(outputs@) == goal.outputs.take(n as int),
            decreases keys@.len() - n,
        {
            assert(keys@.to_set().contains(keys@[n as int]));
            match desktop.outputs.get(keys[n]) {
                Some(set) => {
                    outputs.push(output_of(set));
                },
                None => {},
            }
            n = n + 1;
            assert(goal.outputs.take(n as int) =~= goal.outputs.take(n - 1).push(
                goal.outputs[n - 1],
            ));
        }
        assert(goal.outputs.take(n as int) =~= goal.outputs);
        let r = DesktopSnapshot {
            active_output: None,
            primary_output: output_id_of(desktop.primary_output),
            focused_window: None,
            outputs,
            layers: Vec::new(),
            workspaces,
            cameras,
            windows,
            config: ConfigSnapshot::default(),
        };
        assert(r@.layers =~= goal.layers);
        r
    }
}

/// The first output of a list with an id.
pub open spec fn output_with_id(list: Seq<v1::OutputSnapshotView>, id: v1::OutputId) -> Option<
    v1::OutputSnapshotView,
>
    decreases list.len(),
{
    if list.len() == 0 {
        None
    } else if list[0].id == id {
        Some(list[0])
    } else {
        output_with_id(list.skip(1), id)
    }
}

/// The first workspace of a list with an id.
pub open spec fn workspace_with_id(
    list: Seq<v1::WorkspaceSnapshotView>,
    id: v1::WorkspaceId,
) -> Option<v1::WorkspaceSnapshotView>
    decreases list.len(),
{
    if list.len() == 0 {
        None
    } else if list[0].id == id {
        Some(list[0])
    } else {
        workspace_with_id(list.skip(1), id)
    }
}

impl v1::SnapshotView {
    /// The window that has the focus where an output is the active one.
    pub open spec fn focus_on(self, output: Option<OutputId>) -> Option<v1::WindowId> {
        match output {
            Some(output) => match output_with_id(self.outputs, v1::OutputId(output.0)) {
                Some(output) => match workspace_with_id(self.workspaces, output.active_workspace) {
                    Some(ws) => ws.active_window,
                    None => None,
                },
                None => None,
            },
            None => None,
        }
    }

    pub open spec fn with_active(self, output: Option<OutputId>) -> Self {
        v1::SnapshotView {
            active_output: wire_output(output),
            focused_window: self.focus_on(output),
            ..self
        }
    }
}

/// The first output of a list with an id.
pub fn find_output(list: &Vec<OutputSnapshot>, id: v1::OutputId) -> (r: Option<&OutputSnapshot>)
    ensures
        match r {
            Some(output) => output_with_id(listing::each(list@), id) == Some(output@),
            None => output_with_id(listing::each(list@), id) is None,
        },
{
    let ghost all = listing::each(list@);
    let mut i: usize = 0;
    assert(all.skip(0) =~= all);
    while i < list.len()
        invariant
            i <= list@.len(),
            all == listing::each(list@),
            output_with_id(all, id) == output_with_id(all.skip(i as int), id),
        decreases list@.len() - i,
    {
        assert(all.skip(i as int)[0] == list@[i as int]@);
        assert(all.skip(i as int).skip(1) =~= all.skip(i + 1));
        if list[i].id == id {
            return Some(&list[i]);
        }
        i = i + 1;
    }
    None
}

/// The first workspace of a list with an id.
pub fn find_workspace(list: &Vec<WorkspaceSnapshot>, id: v1::WorkspaceId) -> (r: Option<
    &WorkspaceSnapshot,
>)
    ensures
        match r {
            Some(ws) => workspace_with_id(listing::each(list@), id) == Some(ws@),
            None => workspace_with_id(listing::each(list@), id) is None,
        },
{
    let ghost all = listing::each(list@);
    let mut i: usize = 0;
    assert(all.skip(0) =~= all);
    while i < list.len()
        invariant
            i <= list@.len(),
            all == listing::each(list@),
            workspace_with_id(all, id) == workspace_with_id(all.skip(i as int), id),
        decreases list@.len() - i,
    {
        assert(all.skip(i as int)[0] == list@[i as int]@);
        assert(all.skip(i as int).skip(1) =~= all.skip(i + 1));
        if list[i].id == id {
            return Some(&list[i]);
        }
        i = i + 1;
    }
    None
}

impl DesktopSnapshot {
    /// The snapshot with an output as the active one, and the focused window of the workspace
    /// that it shows as the focused window.
    pub fn with_active_output(self, output: Option<OutputId>) -> (r: Self)
        ensures
            r@ == self@.with_active(output),
    {
        let mut focused: Option<v1::WindowId> = None;
        if let Some(id) = output {
            if let Some(shown) = find_output(&self.outputs, v1::OutputId::from(id)) {
                if let Some(ws) = find_workspace(&self.workspaces, shown.active_workspace) {
                    focused = ws.active_window;
                }
            }
        }
        DesktopSnapshot { active_output: output_id_of(output), focused_window: focused, ..self }
    }
}

/// Some window of a list has an id, a workspace and a mode.
pub open spec fn lists_window(
    list: Seq<v1::WindowSnapshotView>,
    id: WindowId,
    ws: model::WorkspaceId,
    mode: model::WindowMode,
) -> bool {
    exists|i: int|
        0 <= i < list.len() && (#[trigger] list[i]).id == v1::WindowId(id.0) && list[i].workspace
            == v1::WorkspaceId(ws.0) && list[i].mode == wire_mode(mode)
}

proof fn longer_lists_list(
    list: Seq<v1::WindowSnapshotView>,
    before: Seq<v1::WindowSnapshotView>,
    after: Seq<v1::WindowSnapshotView>,
    id: WindowId,
    ws: model::WorkspaceId,
    mode: model::WindowMode,
)
    requires
        lists_window(list, id, ws, mode),
    ensures
        lists_window(before + list + after, id, ws, mode),
{
    let i = choose|i: int|
        0 <= i < list.len() && (#[trigger] list[i]).id == v1::WindowId(id.0) && list[i].workspace
            == v1::WorkspaceId(ws.0) && list[i].mode == wire_mode(mode);
    assert((before + list + after)[before.len() + i] == list[i]);
}

proof fn workspaces_list_windows(ws: workspace::WorkspaceView, id: WindowId)
    requires
        ws.tiled.dom().finite(),
        ws.floating.dom().finite(),
        desktop::coherent(ws),
        ws.has(id),
    ensures
        lists_window(windows(ws), id, ws.id, ws.mode_of(id)->0),
{
    let mode = ws.mode_of(id)->0;
    let (t, f, m, s) = (
        tiled_windows(ws),
        floating_windows(ws),
        maximized_window(ws),
        fullscreen_window(ws),
    );
    let none = Seq::<v1::WindowSnapshotView>::empty();
    ranking::ranking_ranks(ws.tiled.dom(), |id: u64| 0);
    ranking::ranking_ranks(ws.floating.dom(), |id: u64| 0);
    match mode {
        model::WindowMode::Tiled => {
            let keys = ranking::ascending(ws.tiled.dom());
            assert(keys.to_set().contains(id.0));
            let i = choose|i: int| 0 <= i < keys.len() && keys[i] == id.0;
            assert(t[i] == tiled_window(ws, id.0));
            longer_lists_list(t, none, f + m + s, id, ws.id, mode);
            assert(none + t + (f + m + s) =~= windows(ws));
        },
        model::WindowMode::Floating => {
            let keys = ranking::ascending(ws.floating.dom());
            assert(keys.to_set().contains(id.0));
            let i = choose|i: int| 0 <= i < keys.len() && keys[i] == id.0;
            assert(f[i] == floating_window(ws, id.0));
            longer_lists_list(f, t, m + s, id, ws.id, mode);
            assert(t + f + (m + s) =~= windows(ws));
        },
        model::WindowMode::Maximized => {
            assert(m[0].id == v1::WindowId(id.0));
            longer_lists_list(m, t + f, s, id, ws.id, mode);
        },
        model::WindowMode::Fullscreen => {
            assert(s[0].id == v1::WindowId(id.0));
            longer_lists_list(s, t + f + m, none, id, ws.id, mode);
            assert(t + f + m + s + none =~= windows(ws));
        },
    }
}

proof fn among_lists_windows(all: Seq<workspace::WorkspaceView>, n: int, i: int, id: WindowId)
    requires
        0 <= i < n <= all.len(),
        all[i].tiled.dom().finite(),
        all[i].floating.dom().finite(),
        desktop::coherent(all[i]),
        all[i].has(id),
    ensures
        lists_window(windows_among(all, n), id, all[i].id, all[i].mode_of(id)->0),
    decreases n,
{
    let none = Seq::<v1::WindowSnapshotView>::empty();
    let mode = all[i].mode_of(id)->0;
    if i == n - 1 {
        workspaces_list_windows(all[i], id);
        longer_lists_list(windows(all[i]), windows_among(all, n - 1), none, id, all[i].id, mode);
        assert(windows_among(all, n - 1) + windows(all[i]) + none =~= windows_among(all, n));
    } else {
        among_lists_windows(all, n - 1, i, id);
        longer_lists_list(
            windows_among(all, n - 1),
            none,
            windows(all[n - 1]),
            id,
            all[i].id,
            mode,
        );
        assert(none + windows_among(all, n - 1) + windows(all[n - 1]) =~= windows_among(all, n));
    }
}

/// A snapshot lists every window of every workspace, on its workspace and in its mode.
pub proof fn snapshots_list_windows(desktop: desktop::DesktopView, i: int, id: WindowId)
    requires
        0 <= i < desktop.all().len(),
        desktop.all()[i].tiled.dom().finite(),
        desktop.all()[i].floating.dom().finite(),
        desktop::coherent(desktop.all()[i]),
        desktop.all()[i].has(id),
    ensures
        lists_window(
            snapshot(desktop).windows,
            id,
            desktop.all()[i].id,
            desktop.all()[i].mode_of(id)->0,
        ),
{
    among_lists_windows(desktop.all(), desktop.all().len() as int, i, id);
}

/// A valid desktop can be shown: every output shows one of its workspaces.
pub proof fn valid_desktops_show(desktop: desktop::DesktopView)
    requires
        desktop.outputs.dom().finite(),
        desktop.valid(),
    ensures
        every_output_shows(desktop),
{
    assert forall|k: u64| #[trigger] desktop.outputs.contains_key(k) implies desktop.outputs[k].active
        < desktop.outputs[k].workspaces.len() by {
        desktop_laws::valid_outputs(desktop, k);
    }
}

} // verus!
