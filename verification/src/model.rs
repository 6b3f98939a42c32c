//! Window modes and placements.

use crate::geometry::{Point, Rect, Size};
use crate::viewport;
use crate::viewport::{ViewportChange, ViewportPlacement};
use vstd::prelude::*;

verus! {

#[derive(Clone, Copy, Debug, Eq, Ord, PartialEq, PartialOrd, Structural)]
pub struct WindowId(pub u64);

#[derive(Clone, Copy, Debug, Eq, Ord, PartialEq, PartialOrd, Structural)]
pub struct WorkspaceId(pub u32);

#[derive(Clone, Copy, Debug, Eq, Ord, PartialEq, PartialOrd, Structural)]
pub struct OutputId(pub u32);

impl View for WorkspaceId {
    type V = WorkspaceId;

    open spec fn view(&self) -> WorkspaceId {
        *self
    }
}

#[derive(Clone, Copy, Debug, Eq, PartialEq, Structural)]
pub enum WindowMode {
    Tiled,
    Floating,
    Maximized,
    Fullscreen,
}

impl Default for WindowMode {
    fn default() -> (r: Self)
        ensures
            r == WindowMode::Tiled,
    {
        WindowMode::Tiled
    }
}

/// How the camera follows the focused window.
#[derive(Clone, Copy, Debug, Eq, PartialEq, Structural)]
pub enum CameraPolicy {
    /// The focused window is in the middle.
    Centered,
    /// The camera moves no farther than it must to show the window with a margin.
    KeepVisible { margin: i64 },
}

#[derive(Clone, Copy, Debug, Eq, PartialEq, Structural)]
pub struct CameraState {
    pub center: Point,
    pub policy: CameraPolicy,
}

impl Default for CameraState {
    fn default() -> (r: Self)
        ensures
            r == CameraState::initial(),
    {
        CameraState {
            center: Point { x: 0, y: 0 },
            policy: CameraPolicy::KeepVisible { margin: 32 },
        }
    }
}

impl CameraState {
    pub open spec fn initial() -> Self {
        CameraState {
            center: Point { x: 0, y: 0 },
            policy: CameraPolicy::KeepVisible { margin: 32 },
        }
    }
}

#[derive(Clone, Copy, Debug, Eq, PartialEq, Structural)]
pub struct TiledWindow {
    pub id: WindowId,
    pub geometry: Rect,
}

impl View for TiledWindow {
    type V = TiledWindow;

    open spec fn view(&self) -> TiledWindow {
        *self
    }
}

#[derive(Debug, Eq, PartialEq)]
pub struct FloatingPlacement {
    pub window: WindowId,
    pub viewport: ViewportPlacement,
}

#[verifier::ext_equal]
pub struct FloatingView {
    pub window: WindowId,
    pub viewport: viewport::ViewportView,
}

impl View for FloatingPlacement {
    type V = FloatingView;

    open spec fn view(&self) -> FloatingView {
        FloatingView { window: self.window, viewport: self.viewport@ }
    }
}

impl Clone for FloatingPlacement {
    fn clone(&self) -> (r: Self)
        ensures
            r@ == self@,
    {
        FloatingPlacement { window: self.window, viewport: self.viewport.clone() }
    }
}

/// Where a window goes when it is no longer maximized or fullscreen.
#[derive(Debug, Eq, PartialEq)]
pub enum RestorePlacement {
    Tiled { world_rect: Rect },
    Floating { viewport: ViewportPlacement },
}

#[verifier::ext_equal]
pub enum RestoreView {
    Tiled { world_rect: Rect },
    Floating { viewport: viewport::ViewportView },
}

impl View for RestorePlacement {
    type V = RestoreView;

    open spec fn view(&self) -> RestoreView {
        match self {
            RestorePlacement::Tiled { world_rect } => RestoreView::Tiled { world_rect: *world_rect },
            RestorePlacement::Floating { viewport } => RestoreView::Floating {
                viewport: viewport@,
            },
        }
    }
}

impl Clone for RestorePlacement {
    fn clone(&self) -> (r: Self)
        ensures
            r@ == self@,
    {
        match self {
            RestorePlacement::Tiled { world_rect } => RestorePlacement::Tiled {
                world_rect: *world_rect,
            },
            RestorePlacement::Floating { viewport } => RestorePlacement::Floating {
                viewport: viewport.clone(),
            },
        }
    }
}

impl RestoreView {
    pub open spec fn extent(self) -> Size {
        match self {
            RestoreView::Tiled { world_rect } => world_rect.size,
            RestoreView::Floating { viewport } => viewport.rect.size,
        }
    }

    pub open spec fn changed(self, change: viewport::ChangeView) -> Self {
        match self {
            RestoreView::Tiled { .. } => self,
            RestoreView::Floating { viewport } => RestoreView::Floating {
                viewport: viewport.changed(change),
            },
        }
    }
}

impl RestorePlacement {
    pub fn size(&self) -> (r: Size)
        ensures
            r == self@.extent(),
    {
        match self {
            RestorePlacement::Tiled { world_rect } => world_rect.size,
            RestorePlacement::Floating { viewport } => viewport.rect.size,
        }
    }

    pub fn change(&mut self, change: &ViewportChange)
        ensures
            final(self)@ == old(self)@.changed(change@),
    {
        match self {
            RestorePlacement::Tiled { .. } => {},
            RestorePlacement::Floating { viewport } => viewport.change(change),
        }
    }
}

#[derive(Debug, Eq, PartialEq)]
pub struct MaximizedPlacement {
    pub window: WindowId,
    pub restore: RestorePlacement,
}

#[verifier::ext_equal]
pub struct MaximizedView {
    pub window: WindowId,
    pub restore: RestoreView,
}

impl View for MaximizedPlacement {
    type V = MaximizedView;

    open spec fn view(&self) -> MaximizedView {
        MaximizedView { window: self.window, restore: self.restore@ }
    }
}

impl Clone for MaximizedPlacement {
    fn clone(&self) -> (r: Self)
        ensures
            r@ == self@,
    {
        MaximizedPlacement { window: self.window, restore: self.restore.clone() }
    }
}

impl MaximizedPlacement {
    pub fn size(&self) -> (r: Size)
        ensures
            r == self@.restore.extent(),
    {
        self.restore.size()
    }
}

/// Where a fullscreen window goes: back to tiled or floating, or back to maximized with what
/// that returns to.
#[derive(Debug, Eq, PartialEq)]
pub enum FullscreenRestorePlacement {
    Tiled { world_rect: Rect },
    Floating { viewport: ViewportPlacement },
    Maximized { restore: RestorePlacement },
}

#[verifier::ext_equal]
pub enum FullscreenRestoreView {
    Tiled { world_rect: Rect },
    Floating { viewport: viewport::ViewportView },
    Maximized { restore: RestoreView },
}

impl View for FullscreenRestorePlacement {
    type V = FullscreenRestoreView;

    open spec fn view(&self) -> FullscreenRestoreView {
        match self {
            FullscreenRestorePlacement::Tiled { world_rect } => FullscreenRestoreView::Tiled {
                world_rect: *world_rect,
            },
            FullscreenRestorePlacement::Floating { viewport } => FullscreenRestoreView::Floating {
                viewport: viewport@,
            },
            FullscreenRestorePlacement::Maximized { restore } => FullscreenRestoreView::Maximized {
                restore: restore@,
            },
        }
    }
}

impl Clone for FullscreenRestorePlacement {
    fn clone(&self) -> (r: Self)
        ensures
            r@ == self@,
    {
        match self {
            FullscreenRestorePlacement::Tiled { world_rect } => FullscreenRestorePlacement::Tiled {
                world_rect: *world_rect,
            },
            FullscreenRestorePlacement::Floating { viewport } =>
                FullscreenRestorePlacement::Floating { viewport: viewport.clone() },
            FullscreenRestorePlacement::Maximized { restore } =>
                FullscreenRestorePlacement::Maximized { restore: restore.clone() },
        }
    }
}

impl FullscreenRestoreView {
    /// What the window returns to once it is neither fullscreen nor maximized.
    pub open spec fn base(self) -> RestoreView {
        match self {
            FullscreenRestoreView::Tiled { world_rect } => RestoreView::Tiled { world_rect },
            FullscreenRestoreView::Floating { viewport } => RestoreView::Floating { viewport },
            FullscreenRestoreView::Maximized { restore } => restore,
        }
    }

    pub open spec fn changed(self, change: viewport::ChangeView) -> Self {
        match self {
            FullscreenRestoreView::Tiled { .. } => self,
            FullscreenRestoreView::Floating { viewport } => FullscreenRestoreView::Floating {
                viewport: viewport.changed(change),
            },
            FullscreenRestoreView::Maximized { restore } => FullscreenRestoreView::Maximized {
                restore: restore.changed(change),
            },
        }
    }
}

impl FullscreenRestorePlacement {
    pub fn size(&self) -> (r: Size)
        ensures
            r == self@.base().extent(),
    {
        match self {
            FullscreenRestorePlacement::Tiled { world_rect } => world_rect.size,
            FullscreenRestorePlacement::Floating { viewport } => viewport.rect.size,
            FullscreenRestorePlacement::Maximized { restore } => restore.size(),
        }
    }

    /// What the window returns to once it is neither fullscreen nor maximized.
    pub fn into_base(self) -> (r: RestorePlacement)
        ensures
            r@ == self@.base(),
    {
        match self {
            FullscreenRestorePlacement::Tiled { world_rect } => RestorePlacement::Tiled {
                world_rect,
            },
            FullscreenRestorePlacement::Floating { viewport } => RestorePlacement::Floating {
                viewport,
            },
            FullscreenRestorePlacement::Maximized { restore } => restore,
        }
    }

    pub fn change(&mut self, change: &ViewportChange)
        ensures
            final(self)@ == old(self)@.changed(change@),
    {
        match self {
            FullscreenRestorePlacement::Tiled { .. } => {},
            FullscreenRestorePlacement::Floating { viewport } => viewport.change(change),
            FullscreenRestorePlacement::Maximized { restore } => restore.change(change),
        }
    }
}

#[derive(Debug, Eq, PartialEq)]
pub struct FullscreenPlacement {
    pub window: WindowId,
    pub restore: FullscreenRestorePlacement,
}

#[verifier::ext_equal]
pub struct FullscreenView {
    pub window: WindowId,
    pub restore: FullscreenRestoreView,
}

impl View for FullscreenPlacement {
    type V = FullscreenView;

    open spec fn view(&self) -> FullscreenView {
        FullscreenView { window: self.window, restore: self.restore@ }
    }
}

impl Clone for FullscreenPlacement {
    fn clone(&self) -> (r: Self)
        ensures
            r@ == self@,
    {
        FullscreenPlacement { window: self.window, restore: self.restore.clone() }
    }
}

impl FullscreenPlacement {
    /// The size that the window has when it is no longer fullscreen.
    pub fn size(&self) -> (r: Size)
        ensures
            r == self@.restore.base().extent(),
    {
        self.restore.size()
    }
}

} // verus!
