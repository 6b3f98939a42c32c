//! The first version of the command schema.
//!
//! The types are independent of those of the desktop, which may change without changing the
//! protocol.

use crate::geometry;
use crate::listing;
use crate::listing::{copy_each, copy_plain};
use crate::model;
use crate::outputs;
use crate::text;
use crate::text::copy_option;
use vstd::prelude::*;

verus! {

#[derive(Clone, Copy, Debug, Eq, Ord, PartialEq, PartialOrd, Structural)]
pub struct WindowId(pub u64);

#[derive(Clone, Copy, Debug, Eq, Ord, PartialEq, PartialOrd, Structural)]
pub struct WorkspaceId(pub u32);

#[derive(Clone, Copy, Debug, Eq, Ord, PartialEq, PartialOrd, Structural)]
pub struct OutputId(pub u32);

#[derive(Clone, Copy, Debug, Default, Eq, PartialEq, Structural)]
pub struct Point {
    pub x: i64,
    pub y: i64,
}

#[derive(Clone, Copy, Debug, Default, Eq, PartialEq, Structural)]
pub struct Size {
    pub width: i64,
    pub height: i64,
}

impl Size {
    pub fn new(width: i64, height: i64) -> (r: Self)
        ensures
            r == (Size { width, height }),
    {
        Size { width, height }
    }
}

#[derive(Clone, Copy, Debug, Default, Eq, PartialEq, Structural)]
pub struct Rect {
    pub origin: Point,
    pub size: Size,
}

impl Rect {
    pub fn new(x: i64, y: i64, width: i64, height: i64) -> (r: Self)
        ensures
            r == (Rect { origin: Point { x, y }, size: Size { width, height } }),
    {
        Rect { origin: Point { x, y }, size: Size { width, height } }
    }
}

#[derive(Clone, Copy, Debug, Eq, PartialEq, Structural)]
pub struct Scale120(pub u32);

/// A vector of the plane; the components are bit patterns of IEEE 754 binary64 numbers.
#[derive(Clone, Copy, Debug, Eq, PartialEq, Structural)]
pub struct Direction {
    pub x_bits: u64,
    pub y_bits: u64,
}

#[derive(Clone, Copy, Debug, Eq, PartialEq, Structural)]
pub enum CameraPolicy {
    Centered,
    KeepVisible { margin: i64 },
}

#[derive(Clone, Copy, Debug, Eq, PartialEq, Structural)]
pub enum WindowMode {
    Tiled,
    Floating,
    Maximized,
    Fullscreen,
}

#[derive(Clone, Copy, Debug, Eq, PartialEq, Structural)]
pub enum OutputTransform {
    Normal,
    Rotate90,
    Rotate180,
    Rotate270,
    Flipped,
}

impl From<model::WindowId> for WindowId {
    fn from(value: model::WindowId) -> (r: Self) {
        WindowId(value.0)
    }
}

impl vstd::std_specs::convert::FromSpecImpl<model::WindowId> for WindowId {
    open spec fn obeys_from_spec() -> bool {
        true
    }

    open spec fn from_spec(value: model::WindowId) -> Self {
        WindowId(value.0)
    }
}

impl From<WindowId> for model::WindowId {
    fn from(value: WindowId) -> (r: Self) {
        model::WindowId(value.0)
    }
}

impl vstd::std_specs::convert::FromSpecImpl<WindowId> for model::WindowId {
    open spec fn obeys_from_spec() -> bool {
        true
    }

    open spec fn from_spec(value: WindowId) -> Self {
        model::WindowId(value.0)
    }
}

impl From<model::WorkspaceId> for WorkspaceId {
    fn from(value: model::WorkspaceId) -> (r: Self) {
        WorkspaceId(value.0)
    }
}

impl vstd::std_specs::convert::FromSpecImpl<model::WorkspaceId> for WorkspaceId {
    open spec fn obeys_from_spec() -> bool {
        true
    }

    open spec fn from_spec(value: model::WorkspaceId) -> Self {
        WorkspaceId(value.0)
    }
}

impl From<WorkspaceId> for model::WorkspaceId {
    fn from(value: WorkspaceId) -> (r: Self) {
        model::WorkspaceId(value.0)
    }
}

impl vstd::std_specs::convert::FromSpecImpl<WorkspaceId> for model::WorkspaceId {
    open spec fn obeys_from_spec() -> bool {
        true
    }

    open spec fn from_spec(value: WorkspaceId) -> Self {
        model::WorkspaceId(value.0)
    }
}

impl From<model::OutputId> for OutputId {
    fn from(value: model::OutputId) -> (r: Self) {
        OutputId(value.0)
    }
}

impl vstd::std_specs::convert::FromSpecImpl<model::OutputId> for OutputId {
    open spec fn obeys_from_spec() -> bool {
        true
    }

    open spec fn from_spec(value: model::OutputId) -> Self {
        OutputId(value.0)
    }
}

impl From<OutputId> for model::OutputId {
    fn from(value: OutputId) -> (r: Self) {
        model::OutputId(value.0)
    }
}

impl vstd::std_specs::convert::FromSpecImpl<OutputId> for model::OutputId {
    open spec fn obeys_from_spec() -> bool {
        true
    }

    open spec fn from_spec(value: OutputId) -> Self {
        model::OutputId(value.0)
    }
}

impl From<outputs::Scale120> for Scale120 {
    fn from(value: outputs::Scale120) -> (r: Self) {
        Scale120(value.0)
    }
}

impl vstd::std_specs::convert::FromSpecImpl<outputs::Scale120> for Scale120 {
    open spec fn obeys_from_spec() -> bool {
        true
    }

    open spec fn from_spec(value: outputs::Scale120) -> Self {
        Scale120(value.0)
    }
}

impl From<Scale120> for outputs::Scale120 {
    fn from(value: Scale120) -> (r: Self) {
        outputs::Scale120(value.0)
    }
}

impl vstd::std_specs::convert::FromSpecImpl<Scale120> for outputs::Scale120 {
    open spec fn obeys_from_spec() -> bool {
        true
    }

    open spec fn from_spec(value: Scale120) -> Self {
        outputs::Scale120(value.0)
    }
}

impl From<geometry::Point> for Point {
    fn from(value: geometry::Point) -> (r: Self) {
        Point { x: value.x, y: value.y }
    }
}

impl vstd::std_specs::convert::FromSpecImpl<geometry::Point> for Point {
    open spec fn obeys_from_spec() -> bool {
        true
    }

    open spec fn from_spec(value: geometry::Point) -> Self {
        Point { x: value.x, y: value.y }
    }
}

impl From<geometry::Size> for Size {
    fn from(value: geometry::Size) -> (r: Self) {
        Size { width: value.width, height: value.height }
    }
}

impl vstd::std_specs::convert::FromSpecImpl<geometry::Size> for Size {
    open spec fn obeys_from_spec() -> bool {
        true
    }

    open spec fn from_spec(value: geometry::Size) -> Self {
        Size { width: value.width, height: value.height }
    }
}

impl From<Size> for geometry::Size {
    fn from(value: Size) -> (r: Self) {
        geometry::Size { width: value.width, height: value.height }
    }
}

impl vstd::std_specs::convert::FromSpecImpl<Size> for geometry::Size {
    open spec fn obeys_from_spec() -> bool {
        true
    }

    open spec fn from_spec(value: Size) -> Self {
        geometry::Size { width: value.width, height: value.height }
    }
}

impl From<geometry::Rect> for Rect {
    fn from(value: geometry::Rect) -> (r: Self) {
        Rect {
            origin: Point { x: value.origin.x, y: value.origin.y },
            size: Size { width: value.size.width, height: value.size.height },
        }
    }
}

impl vstd::std_specs::convert::FromSpecImpl<geometry::Rect> for Rect {
    open spec fn obeys_from_spec() -> bool {
        true
    }

    open spec fn from_spec(value: geometry::Rect) -> Self {
        Rect {
            origin: Point { x: value.origin.x, y: value.origin.y },
            size: Size { width: value.size.width, height: value.size.height },
        }
    }
}

impl From<geometry::Direction> for Direction {
    fn from(value: geometry::Direction) -> (r: Self) {
        Direction { x_bits: value.x_bits, y_bits: value.y_bits }
    }
}

impl vstd::std_specs::convert::FromSpecImpl<geometry::Direction> for Direction {
    open spec fn obeys_from_spec() -> bool {
        true
    }

    open spec fn from_spec(value: geometry::Direction) -> Self {
        Direction { x_bits: value.x_bits, y_bits: value.y_bits }
    }
}

impl From<model::CameraPolicy> for CameraPolicy {
    fn from(value: model::CameraPolicy) -> (r: Self) {
        match value {
            model::CameraPolicy::Centered => CameraPolicy::Centered,
            model::CameraPolicy::KeepVisible { margin } => CameraPolicy::KeepVisible { margin },
        }
    }
}

impl vstd::std_specs::convert::FromSpecImpl<model::CameraPolicy> for CameraPolicy {
    open spec fn obeys_from_spec() -> bool {
        true
    }

    open spec fn from_spec(value: model::CameraPolicy) -> Self {
        match value {
            model::CameraPolicy::Centered => CameraPolicy::Centered,
            model::CameraPolicy::KeepVisible { margin } => CameraPolicy::KeepVisible { margin },
        }
    }
}

impl From<CameraPolicy> for model::CameraPolicy {
    fn from(value: CameraPolicy) -> (r: Self) {
        match value {
            CameraPolicy::Centered => model::CameraPolicy::Centered,
            CameraPolicy::KeepVisible { margin } => model::CameraPolicy::KeepVisible { margin },
        }
    }
}

impl vstd::std_specs::convert::FromSpecImpl<CameraPolicy> for model::CameraPolicy {
    open spec fn obeys_from_spec() -> bool {
        true
    }

    open spec fn from_spec(value: CameraPolicy) -> Self {
        match value {
            CameraPolicy::Centered => model::CameraPolicy::Centered,
            CameraPolicy::KeepVisible { margin } => model::CameraPolicy::KeepVisible { margin },
        }
    }
}

impl From<model::WindowMode> for WindowMode {
    fn from(value: model::WindowMode) -> (r: Self) {
        match value {
            model::WindowMode::Tiled => WindowMode::Tiled,
            model::WindowMode::Floating => WindowMode::Floating,
            model::WindowMode::Maximized => WindowMode::Maximized,
            model::WindowMode::Fullscreen => WindowMode::Fullscreen,
        }
    }
}

impl vstd::std_specs::convert::FromSpecImpl<model::WindowMode> for WindowMode {
    open spec fn obeys_from_spec() -> bool {
        true
    }

    open spec fn from_spec(value: model::WindowMode) -> Self {
        match value {
            model::WindowMode::Tiled => WindowMode::Tiled,
            model::WindowMode::Floating => WindowMode::Floating,
            model::WindowMode::Maximized => WindowMode::Maximized,
            model::WindowMode::Fullscreen => WindowMode::Fullscreen,
        }
    }
}

impl From<WindowMode> for model::WindowMode {
    fn from(value: WindowMode) -> (r: Self) {
        match value {
            WindowMode::Tiled => model::WindowMode::Tiled,
            WindowMode::Floating => model::WindowMode::Floating,
            WindowMode::Maximized => model::WindowMode::Maximized,
            WindowMode::Fullscreen => model::WindowMode::Fullscreen,
        }
    }
}

impl vstd::std_specs::convert::FromSpecImpl<WindowMode> for model::WindowMode {
    open spec fn obeys_from_spec() -> bool {
        true
    }

    open spec fn from_spec(value: WindowMode) -> Self {
        match value {
            WindowMode::Tiled => model::WindowMode::Tiled,
            WindowMode::Floating => model::WindowMode::Floating,
            WindowMode::Maximized => model::WindowMode::Maximized,
            WindowMode::Fullscreen => model::WindowMode::Fullscreen,
        }
    }
}

impl From<outputs::OutputTransform> for OutputTransform {
    fn from(value: outputs::OutputTransform) -> (r: Self) {
        match value {
            outputs::OutputTransform::Normal => OutputTransform::Normal,
            outputs::OutputTransform::Rotate90 => OutputTransform::Rotate90,
            outputs::OutputTransform::Rotate180 => OutputTransform::Rotate180,
            outputs::OutputTransform::Rotate270 => OutputTransform::Rotate270,
            outputs::OutputTransform::Flipped => OutputTransform::Flipped,
        }
    }
}

impl vstd::std_specs::convert::FromSpecImpl<outputs::OutputTransform> for OutputTransform {
    open spec fn obeys_from_spec() -> bool {
        true
    }

    open spec fn from_spec(value: outputs::OutputTransform) -> Self {
        match value {
            outputs::OutputTransform::Normal => OutputTransform::Normal,
            outputs::OutputTransform::Rotate90 => OutputTransform::Rotate90,
            outputs::OutputTransform::Rotate180 => OutputTransform::Rotate180,
            outputs::OutputTransform::Rotate270 => OutputTransform::Rotate270,
            outputs::OutputTransform::Flipped => OutputTransform::Flipped,
        }
    }
}

impl From<OutputTransform> for outputs::OutputTransform {
    fn from(value: OutputTransform) -> (r: Self) {
        match value {
            OutputTransform::Normal => outputs::OutputTransform::Normal,
            OutputTransform::Rotate90 => outputs::OutputTransform::Rotate90,
            OutputTransform::Rotate180 => outputs::OutputTransform::Rotate180,
            OutputTransform::Rotate270 => outputs::OutputTransform::Rotate270,
            OutputTransform::Flipped => outputs::OutputTransform::Flipped,
        }
    }
}

impl vstd::std_specs::convert::FromSpecImpl<OutputTransform> for outputs::OutputTransform {
    open spec fn obeys_from_spec() -> bool {
        true
    }

    open spec fn from_spec(value: OutputTransform) -> Self {
        match value {
            OutputTransform::Normal => outputs::OutputTransform::Normal,
            OutputTransform::Rotate90 => outputs::OutputTransform::Rotate90,
            OutputTransform::Rotate180 => outputs::OutputTransform::Rotate180,
            OutputTransform::Rotate270 => outputs::OutputTransform::Rotate270,
            OutputTransform::Flipped => outputs::OutputTransform::Flipped,
        }
    }
}

/// Which output a request is about.
#[derive(Debug, Eq, PartialEq)]
pub enum OutputSelector {
    Id(OutputId),
    Key(String),
    Active,
}

#[verifier::ext_equal]
pub enum OutputSelectorView {
    Id(OutputId),
    Key(Seq<char>),
    Active,
}

impl View for OutputSelector {
    type V = OutputSelectorView;

    open spec fn view(&self) -> OutputSelectorView {
        match self {
            OutputSelector::Id(value) => OutputSelectorView::Id(*value),
            OutputSelector::Key(value) => OutputSelectorView::Key(value@),
            OutputSelector::Active => OutputSelectorView::Active,
        }
    }
}

impl Clone for OutputSelector {
    fn clone(&self) -> (r: Self)
        ensures
            r@ == self@,
    {
        match self {
            OutputSelector::Id(value) => OutputSelector::Id(*value),
            OutputSelector::Key(value) => OutputSelector::Key(value.clone()),
            OutputSelector::Active => OutputSelector::Active,
        }
    }
}

/// Which workspace a request is about. Local indices count from one.
#[derive(Debug, Eq, PartialEq)]
pub enum WorkspaceSelector {
    Id(WorkspaceId),
    Name(String),
    LocalIndex { output: OutputSelector, index: u32 },
}

#[verifier::ext_equal]
pub enum WorkspaceSelectorView {
    Id(WorkspaceId),
    Name(Seq<char>),
    LocalIndex { output: OutputSelectorView, index: u32 },
}

impl View for WorkspaceSelector {
    type V = WorkspaceSelectorView;

    open spec fn view(&self) -> WorkspaceSelectorView {
        match self {
            WorkspaceSelector::Id(value) => WorkspaceSelectorView::Id(*value),
            WorkspaceSelector::Name(value) => WorkspaceSelectorView::Name(value@),
            WorkspaceSelector::LocalIndex { output, index } => WorkspaceSelectorView::LocalIndex {
                output: output@,
                index: *index,
            },
        }
    }
}

impl Clone for WorkspaceSelector {
    fn clone(&self) -> (r: Self)
        ensures
            r@ == self@,
    {
        match self {
            WorkspaceSelector::Id(value) => WorkspaceSelector::Id(*value),
            WorkspaceSelector::Name(value) => WorkspaceSelector::Name(value.clone()),
            WorkspaceSelector::LocalIndex { output, index } => WorkspaceSelector::LocalIndex {
                output: output.clone(),
                index: *index,
            },
        }
    }
}

#[allow(inconsistent_fields)]
#[derive(Debug, Eq, PartialEq)]
pub enum Command {
    GetState,
    FocusWindow(WindowId),
    CloseWindow(WindowId),
    FocusDirection(Direction),
    FocusOutput(OutputSelector),
    ConfigureOutput { output: OutputSelector, physical_size: Size, logical_size: Size, native_scale: Scale120, transform: OutputTransform },
    FocusWorkspace { workspace: WorkspaceSelector },
    MoveWorkspace { workspace: WorkspaceId, target_output: OutputSelector, target_index: Option<u32>, activate: bool },
    SetWorkspaceName { workspace: WorkspaceId, name: Option<String> },
    MoveWindow { window: WindowId, target: WorkspaceSelector, activate: bool },
    SetWindowMode { window: WindowId, mode: WindowMode },
    SetCameraPolicy { workspace: WorkspaceId, policy: CameraPolicy },
    PanCamera { workspace: WorkspaceId, dx: i64, dy: i64 },
}

#[allow(inconsistent_fields)]
#[verifier::ext_equal]
pub enum CommandView {
    GetState,
    FocusWindow(WindowId),
    CloseWindow(WindowId),
    FocusDirection(Direction),
    FocusOutput(OutputSelectorView),
    ConfigureOutput { output: OutputSelectorView, physical_size: Size, logical_size: Size, native_scale: Scale120, transform: OutputTransform },
    FocusWorkspace { workspace: WorkspaceSelectorView },
    MoveWorkspace { workspace: WorkspaceId, target_output: OutputSelectorView, target_index: Option<u32>, activate: bool },
    SetWorkspaceName { workspace: WorkspaceId, name: Option<Seq<char>> },
    MoveWindow { window: WindowId, target: WorkspaceSelectorView, activate: bool },
    SetWindowMode { window: WindowId, mode: WindowMode },
    SetCameraPolicy { workspace: WorkspaceId, policy: CameraPolicy },
    PanCamera { workspace: WorkspaceId, dx: i64, dy: i64 },
}

impl View for Command {
    type V = CommandView;

    open spec fn view(&self) -> CommandView {
        match self {
            Command::GetState => CommandView::GetState,
            Command::FocusWindow(value) => CommandView::FocusWindow(*value),
            Command::CloseWindow(value) => CommandView::CloseWindow(*value),
            Command::FocusDirection(value) => CommandView::FocusDirection(*value),
            Command::FocusOutput(value) => CommandView::FocusOutput(value@),
            Command::ConfigureOutput { output, physical_size, logical_size, native_scale, transform } => CommandView::ConfigureOutput {
                output: output@,
                physical_size: *physical_size,
                logical_size: *logical_size,
                native_scale: *native_scale,
                transform: *transform,
            },
            Command::FocusWorkspace { workspace } => CommandView::FocusWorkspace {
                workspace: workspace@,
            },
            Command::MoveWorkspace { workspace, target_output, target_index, activate } => CommandView::MoveWorkspace {
                workspace: *workspace,
                target_output: target_output@,
                target_index: *target_index,
                activate: *activate,
            },
            Command::SetWorkspaceName { workspace, name } => CommandView::SetWorkspaceName {
                workspace: *workspace,
                name: text::characters(*name),
            },
            Command::MoveWindow { window, target, activate } => CommandView::MoveWindow {
                window: *window,
                target: target@,
                activate: *activate,
            },
            Command::SetWindowMode { window, mode } => CommandView::SetWindowMode {
                window: *window,
                mode: *mode,
            },
            Command::SetCameraPolicy { workspace, policy } => CommandView::SetCameraPolicy {
                workspace: *workspace,
                policy: *policy,
            },
            Command::PanCamera { workspace, dx, dy } => CommandView::PanCamera {
                workspace: *workspace,
                dx: *dx,
                dy: *dy,
            },
        }
    }
}

impl Clone for Command {
    fn clone(&self) -> (r: Self)
        ensures
            r@ == self@,
    {
        match self {
            Command::GetState => Command::GetState,
            Command::FocusWindow(value) => Command::FocusWindow(*value),
            Command::CloseWindow(value) => Command::CloseWindow(*value),
            Command::FocusDirection(value) => Command::FocusDirection(*value),
            Command::FocusOutput(value) => Command::FocusOutput(value.clone()),
            Command::ConfigureOutput { output, physical_size, logical_size, native_scale, transform } => Command::ConfigureOutput {
                output: output.clone(),
                physical_size: *physical_size,
                logical_size: *logical_size,
                native_scale: *native_scale,
                transform: *transform,
            },
            Command::FocusWorkspace { workspace } => Command::FocusWorkspace {
                workspace: workspace.clone(),
            },
            Command::MoveWorkspace { workspace, target_output, target_index, activate } => Command::MoveWorkspace {
                workspace: *workspace,
                target_output: target_output.clone(),
                target_index: *target_index,
                activate: *activate,
            },
            Command::SetWorkspaceName { workspace, name } => Command::SetWorkspaceName {
                workspace: *workspace,
                name: copy_option(name),
            },
            Command::MoveWindow { window, target, activate } => Command::MoveWindow {
                window: *window,
                target: target.clone(),
                activate: *activate,
            },
            Command::SetWindowMode { window, mode } => Command::SetWindowMode {
                window: *window,
                mode: *mode,
            },
            Command::SetCameraPolicy { workspace, policy } => Command::SetCameraPolicy {
                workspace: *workspace,
                policy: *policy,
            },
            Command::PanCamera { workspace, dx, dy } => Command::PanCamera {
                workspace: *workspace,
                dx: *dx,
                dy: *dy,
            },
        }
    }
}

#[derive(Debug, Eq, PartialEq)]
pub enum RequestKind {
    Command(Command),
    EventStream,
}

#[verifier::ext_equal]
pub enum RequestKindView {
    Command(CommandView),
    EventStream,
}

impl View for RequestKind {
    type V = RequestKindView;

    open spec fn view(&self) -> RequestKindView {
        match self {
            RequestKind::Command(value) => RequestKindView::Command(value@),
            RequestKind::EventStream => RequestKindView::EventStream,
        }
    }
}

impl Clone for RequestKind {
    fn clone(&self) -> (r: Self)
        ensures
            r@ == self@,
    {
        match self {
            RequestKind::Command(value) => RequestKind::Command(value.clone()),
            RequestKind::EventStream => RequestKind::EventStream,
        }
    }
}

#[derive(Debug, Eq, PartialEq)]
pub struct Request {
    pub kind: RequestKind,
}

#[verifier::ext_equal]
pub struct RequestView {
    pub kind: RequestKindView,
}

impl View for Request {
    type V = RequestView;

    open spec fn view(&self) -> RequestView {
        RequestView {
            kind: self.kind@,
        }
    }
}

impl Clone for Request {
    fn clone(&self) -> (r: Self)
        ensures
            r@ == self@,
    {
        Request {
            kind: self.kind.clone(),
        }
    }
}

#[derive(Clone, Copy, Debug, Eq, PartialEq, Structural)]
pub enum Layer {
    Background,
    Bottom,
    Top,
    Overlay,
}

#[derive(Clone, Copy, Debug, Default, Eq, PartialEq, Structural)]
pub struct Anchor {
    pub top: bool,
    pub bottom: bool,
    pub left: bool,
    pub right: bool,
}

#[derive(Clone, Copy, Debug, Default, Eq, PartialEq, Structural)]
pub struct ExclusiveContribution {
    pub top: i64,
    pub right: i64,
    pub bottom: i64,
    pub left: i64,
}

#[derive(Clone, Copy, Debug, Eq, PartialEq, Structural)]
pub enum KeyboardInteractivity {
    Never,
    Exclusive,
    OnDemand,
}

#[derive(Clone, Copy, Debug, Eq, PartialEq, Structural)]
pub enum ErrorCode {
    InvalidRequest,
    NotFound,
    Conflict,
    Internal,
}

#[derive(Clone, Copy, Debug, Eq, PartialEq, Structural)]
pub struct CameraSnapshot {
    pub workspace: WorkspaceId,
    pub center: Point,
    pub policy: CameraPolicy,
}

#[derive(Clone, Copy, Debug, Eq, PartialEq, Structural)]
pub enum BaseRestore {
    Tiled { world_geometry: Rect },
    Floating { viewport_geometry: Rect },
}

#[derive(Clone, Copy, Debug, Eq, PartialEq, Structural)]
pub enum FullscreenRestore {
    Tiled { world_geometry: Rect },
    Floating { viewport_geometry: Rect },
    Maximized { restore: BaseRestore },
}

#[allow(inconsistent_fields)]
#[derive(Clone, Copy, Debug, Eq, PartialEq, Structural)]
pub enum WindowPlacement {
    Tiled { world_geometry: Rect },
    Floating { viewport_geometry: Rect },
    Maximized { restore: BaseRestore },
    Fullscreen { restore: FullscreenRestore },
}

#[derive(Debug, Eq, PartialEq)]
pub struct OutputSnapshot {
    pub id: OutputId,
    pub stable_key: String,
    pub active_workspace: WorkspaceId,
    pub workspaces: Vec<WorkspaceId>,
    pub physical_size: Size,
    pub logical_size: Size,
    pub native_scale: Scale120,
    pub transform: OutputTransform,
    pub viewport: Rect,
    pub usable_area: Rect,
}

#[verifier::ext_equal]
pub struct OutputSnapshotView {
    pub id: OutputId,
    pub stable_key: Seq<char>,
    pub active_workspace: WorkspaceId,
    pub workspaces: Seq<WorkspaceId>,
    pub physical_size: Size,
    pub logical_size: Size,
    pub native_scale: Scale120,
    pub transform: OutputTransform,
    pub viewport: Rect,
    pub usable_area: Rect,
}

impl View for OutputSnapshot {
    type V = OutputSnapshotView;

    open spec fn view(&self) -> OutputSnapshotView {
        OutputSnapshotView {
            id: self.id,
            stable_key: self.stable_key@,
            active_workspace: self.active_workspace,
            workspaces: self.workspaces@,
            physical_size: self.physical_size,
            logical_size: self.logical_size,
            native_scale: self.native_scale,
            transform: self.transform,
            viewport: self.viewport,
            usable_area: self.usable_area,
        }
    }
}

impl Clone for OutputSnapshot {
    fn clone(&self) -> (r: Self)
        ensures
            r@ == self@,
    {
        OutputSnapshot {
            id: self.id,
            stable_key: self.stable_key.clone(),
            active_workspace: self.active_workspace,
            workspaces: copy_plain(&self.workspaces),
            physical_size: self.physical_size,
            logical_size: self.logical_size,
            native_scale: self.native_scale,
            transform: self.transform,
            viewport: self.viewport,
            usable_area: self.usable_area,
        }
    }
}

#[derive(Debug, Eq, PartialEq)]
pub struct LayerSnapshot {
    pub id: u64,
    pub output: OutputId,
    pub namespace: String,
    pub layer: Layer,
    pub anchor: Anchor,
    pub exclusive_zone: i32,
    pub exclusive_contribution: ExclusiveContribution,
    pub keyboard_interactivity: KeyboardInteractivity,
    pub geometry: Rect,
}

#[verifier::ext_equal]
pub struct LayerSnapshotView {
    pub id: u64,
    pub output: OutputId,
    pub namespace: Seq<char>,
    pub layer: Layer,
    pub anchor: Anchor,
    pub exclusive_zone: i32,
    pub exclusive_contribution: ExclusiveContribution,
    pub keyboard_interactivity: KeyboardInteractivity,
    pub geometry: Rect,
}

impl View for LayerSnapshot {
    type V = LayerSnapshotView;

    open spec fn view(&self) -> LayerSnapshotView {
        LayerSnapshotView {
            id: self.id,
            output: self.output,
            namespace: self.namespace@,
            layer: self.layer,
            anchor: self.anchor,
            exclusive_zone: self.exclusive_zone,
            exclusive_contribution: self.exclusive_contribution,
            keyboard_interactivity: self.keyboard_interactivity,
            geometry: self.geometry,
        }
    }
}

impl Clone for LayerSnapshot {
    fn clone(&self) -> (r: Self)
        ensures
            r@ == self@,
    {
        LayerSnapshot {
            id: self.id,
            output: self.output,
            namespace: self.namespace.clone(),
            layer: self.layer,
            anchor: self.anchor,
            exclusive_zone: self.exclusive_zone,
            exclusive_contribution: self.exclusive_contribution,
            keyboard_interactivity: self.keyboard_interactivity,
            geometry: self.geometry,
        }
    }
}

#[derive(Debug, Eq, PartialEq)]
pub struct WorkspaceSnapshot {
    pub id: WorkspaceId,
    pub name: Option<String>,
    pub original_output: Option<String>,
    pub output: Option<OutputId>,
    pub local_index: Option<u32>,
    pub active_window: Option<WindowId>,
    pub tiled_count: u64,
    pub floating_count: u64,
    pub fullscreen: Option<WindowId>,
}

#[verifier::ext_equal]
pub struct WorkspaceSnapshotView {
    pub id: WorkspaceId,
    pub name: Option<Seq<char>>,
    pub original_output: Option<Seq<char>>,
    pub output: Option<OutputId>,
    pub local_index: Option<u32>,
    pub active_window: Option<WindowId>,
    pub tiled_count: u64,
    pub floating_count: u64,
    pub fullscreen: Option<WindowId>,
}

impl View for WorkspaceSnapshot {
    type V = WorkspaceSnapshotView;

    open spec fn view(&self) -> WorkspaceSnapshotView {
        WorkspaceSnapshotView {
            id: self.id,
            name: text::characters(self.name),
            original_output: text::characters(self.original_output),
            output: self.output,
            local_index: self.local_index,
            active_window: self.active_window,
            tiled_count: self.tiled_count,
            floating_count: self.floating_count,
            fullscreen: self.fullscreen,
        }
    }
}

impl Clone for WorkspaceSnapshot {
    fn clone(&self) -> (r: Self)
        ensures
            r@ == self@,
    {
        WorkspaceSnapshot {
            id: self.id,
            name: copy_option(&self.name),
            original_output: copy_option(&self.original_output),
            output: self.output,
            local_index: self.local_index,
            active_window: self.active_window,
            tiled_count: self.tiled_count,
            floating_count: self.floating_count,
            fullscreen: self.fullscreen,
        }
    }
}

#[derive(Debug, Eq, PartialEq)]
pub struct WindowMetadata {
    pub title: Option<String>,
    pub app_id: Option<String>,
}

#[verifier::ext_equal]
pub struct WindowMetadataView {
    pub title: Option<Seq<char>>,
    pub app_id: Option<Seq<char>>,
}

impl View for WindowMetadata {
    type V = WindowMetadataView;

    open spec fn view(&self) -> WindowMetadataView {
        WindowMetadataView {
            title: text::characters(self.title),
            app_id: text::characters(self.app_id),
        }
    }
}

impl Clone for WindowMetadata {
    fn clone(&self) -> (r: Self)
        ensures
            r@ == self@,
    {
        WindowMetadata {
            title: copy_option(&self.title),
            app_id: copy_option(&self.app_id),
        }
    }
}

impl Default for WindowMetadata {
    fn default() -> (r: Self)
        ensures
            r@ == WindowMetadataView::blank(),
    {
        WindowMetadata { title: None, app_id: None }
    }
}

impl WindowMetadataView {
    pub open spec fn blank() -> Self {
        WindowMetadataView { title: None, app_id: None }
    }
}

#[derive(Debug, Eq, PartialEq)]
pub struct WindowSnapshot {
    pub id: WindowId,
    pub workspace: WorkspaceId,
    pub mode: WindowMode,
    pub metadata: WindowMetadata,
    pub placement: WindowPlacement,
    pub visible_geometry: Option<Rect>,
}

#[verifier::ext_equal]
pub struct WindowSnapshotView {
    pub id: WindowId,
    pub workspace: WorkspaceId,
    pub mode: WindowMode,
    pub metadata: WindowMetadataView,
    pub placement: WindowPlacement,
    pub visible_geometry: Option<Rect>,
}

impl View for WindowSnapshot {
    type V = WindowSnapshotView;

    open spec fn view(&self) -> WindowSnapshotView {
        WindowSnapshotView {
            id: self.id,
            workspace: self.workspace,
            mode: self.mode,
            metadata: self.metadata@,
            placement: self.placement,
            visible_geometry: self.visible_geometry,
        }
    }
}

impl Clone for WindowSnapshot {
    fn clone(&self) -> (r: Self)
        ensures
            r@ == self@,
    {
        WindowSnapshot {
            id: self.id,
            workspace: self.workspace,
            mode: self.mode,
            metadata: self.metadata.clone(),
            placement: self.placement,
            visible_geometry: self.visible_geometry,
        }
    }
}

#[derive(Debug, Eq, PartialEq)]
pub struct ConfigSnapshot {
    pub source: Option<String>,
    pub generation: u64,
    pub failed: bool,
    pub error: Option<String>,
}

#[verifier::ext_equal]
pub struct ConfigSnapshotView {
    pub source: Option<Seq<char>>,
    pub generation: u64,
    pub failed: bool,
    pub error: Option<Seq<char>>,
}

impl View for ConfigSnapshot {
    type V = ConfigSnapshotView;

    open spec fn view(&self) -> ConfigSnapshotView {
        ConfigSnapshotView {
            source: text::characters(self.source),
            generation: self.generation,
            failed: self.failed,
            error: text::characters(self.error),
        }
    }
}

impl Clone for ConfigSnapshot {
    fn clone(&self) -> (r: Self)
        ensures
            r@ == self@,
    {
        ConfigSnapshot {
            source: copy_option(&self.source),
            generation: self.generation,
            failed: self.failed,
            error: copy_option(&self.error),
        }
    }
}

impl Default for ConfigSnapshot {
    fn default() -> (r: Self)
        ensures
            r@ == ConfigSnapshotView::blank(),
    {
        ConfigSnapshot { source: None, generation: 0, failed: false, error: None }
    }
}

impl ConfigSnapshotView {
    pub open spec fn blank() -> Self {
        ConfigSnapshotView { source: None, generation: 0, failed: false, error: None }
    }
}

/// The whole public state of the desktop.
#[derive(Debug, Eq, PartialEq)]
pub struct DesktopSnapshot {
    pub active_output: Option<OutputId>,
    pub primary_output: Option<OutputId>,
    pub focused_window: Option<WindowId>,
    pub outputs: Vec<OutputSnapshot>,
    pub layers: Vec<LayerSnapshot>,
    pub workspaces: Vec<WorkspaceSnapshot>,
    pub cameras: Vec<CameraSnapshot>,
    pub windows: Vec<WindowSnapshot>,
    pub config: ConfigSnapshot,
}

#[verifier::ext_equal]
pub struct SnapshotView {
    pub active_output: Option<OutputId>,
    pub primary_output: Option<OutputId>,
    pub focused_window: Option<WindowId>,
    pub outputs: Seq<OutputSnapshotView>,
    pub layers: Seq<LayerSnapshotView>,
    pub workspaces: Seq<WorkspaceSnapshotView>,
    pub cameras: Seq<CameraSnapshot>,
    pub windows: Seq<WindowSnapshotView>,
    pub config: ConfigSnapshotView,
}

impl View for DesktopSnapshot {
    type V = SnapshotView;

    open spec fn view(&self) -> SnapshotView {
        SnapshotView {
            active_output: self.active_output,
            primary_output: self.primary_output,
            focused_window: self.focused_window,
            outputs: listing::each(self.outputs@),
            layers: listing::each(self.layers@),
            workspaces: listing::each(self.workspaces@),
            cameras: self.cameras@,
            windows: listing::each(self.windows@),
            config: self.config@,
        }
    }
}

impl Clone for DesktopSnapshot {
    fn clone(&self) -> (r: Self)
        ensures
            r@ == self@,
    {
        DesktopSnapshot {
            active_output: self.active_output,
            primary_output: self.primary_output,
            focused_window: self.focused_window,
            outputs: copy_each(&self.outputs),
            layers: copy_each(&self.layers),
            workspaces: copy_each(&self.workspaces),
            cameras: copy_plain(&self.cameras),
            windows: copy_each(&self.windows),
            config: self.config.clone(),
        }
    }
}

impl Default for DesktopSnapshot {
    fn default() -> (r: Self)
        ensures
            r@ == SnapshotView::blank(),
    {
        DesktopSnapshot {
            active_output: None,
            primary_output: None,
            focused_window: None,
            outputs: Vec::new(),
            layers: Vec::new(),
            workspaces: Vec::new(),
            cameras: Vec::new(),
            windows: Vec::new(),
            config: ConfigSnapshot::default(),
        }
    }
}

impl SnapshotView {
    pub open spec fn blank() -> Self {
        SnapshotView {
            active_output: None,
            primary_output: None,
            focused_window: None,
            outputs: seq![],
            layers: seq![],
            workspaces: seq![],
            cameras: seq![],
            windows: seq![],
            config: ConfigSnapshotView::blank(),
        }
    }
}

#[derive(Debug, Eq, PartialEq)]
pub enum Success {
    State { sequence: u64, snapshot: DesktopSnapshot },
    Handled { sequence: u64 },
    EventStream { sequence: u64, snapshot: DesktopSnapshot },
}

#[verifier::ext_equal]
pub enum SuccessView {
    State { sequence: u64, snapshot: SnapshotView },
    Handled { sequence: u64 },
    EventStream { sequence: u64, snapshot: SnapshotView },
}

impl View for Success {
    type V = SuccessView;

    open spec fn view(&self) -> SuccessView {
        match self {
            Success::State { sequence, snapshot } => SuccessView::State {
                sequence: *sequence,
                snapshot: snapshot@,
            },
            Success::Handled { sequence } => SuccessView::Handled {
                sequence: *sequence,
            },
            Success::EventStream { sequence, snapshot } => SuccessView::EventStream {
                sequence: *sequence,
                snapshot: snapshot@,
            },
        }
    }
}

impl Clone for Success {
    fn clone(&self) -> (r: Self)
        ensures
            r@ == self@,
    {
        match self {
            Success::State { sequence, snapshot } => Success::State {
                sequence: *sequence,
                snapshot: snapshot.clone(),
            },
            Success::Handled { sequence } => Success::Handled {
                sequence: *sequence,
            },
            Success::EventStream { sequence, snapshot } => Success::EventStream {
                sequence: *sequence,
                snapshot: snapshot.clone(),
            },
        }
    }
}

#[derive(Debug, Eq, PartialEq)]
pub struct Error {
    pub code: ErrorCode,
    pub message: String,
    pub sequence: u64,
}

#[verifier::ext_equal]
pub struct ErrorView {
    pub code: ErrorCode,
    pub message: Seq<char>,
    pub sequence: u64,
}

impl View for Error {
    type V = ErrorView;

    open spec fn view(&self) -> ErrorView {
        ErrorView {
            code: self.code,
            message: self.message@,
            sequence: self.sequence,
        }
    }
}

impl Clone for Error {
    fn clone(&self) -> (r: Self)
        ensures
            r@ == self@,
    {
        Error {
            code: self.code,
            message: self.message.clone(),
            sequence: self.sequence,
        }
    }
}

#[derive(Debug, Eq, PartialEq)]
pub enum Response {
    Success(Success),
    Error(Error),
}

#[verifier::ext_equal]
pub enum ResponseView {
    Success(SuccessView),
    Error(ErrorView),
}

impl View for Response {
    type V = ResponseView;

    open spec fn view(&self) -> ResponseView {
        match self {
            Response::Success(value) => ResponseView::Success(value@),
            Response::Error(value) => ResponseView::Error(value@),
        }
    }
}

impl Clone for Response {
    fn clone(&self) -> (r: Self)
        ensures
            r@ == self@,
    {
        match self {
            Response::Success(value) => Response::Success(value.clone()),
            Response::Error(value) => Response::Error(value.clone()),
        }
    }
}

#[allow(inconsistent_fields)]
#[derive(Debug, Eq, PartialEq)]
pub enum Event {
    OutputOpened { output: OutputSnapshot },
    OutputChanged { output: OutputSnapshot },
    OutputClosed { output: OutputId },
    LayerOpened { layer: LayerSnapshot },
    LayerChanged { layer: LayerSnapshot },
    LayerClosed { layer: u64 },
    WorkspaceOpened { workspace: WorkspaceSnapshot },
    WorkspaceChanged { workspace: WorkspaceSnapshot },
    WorkspaceClosed { workspace: WorkspaceId },
    WindowOpened { window: WindowSnapshot },
    WindowChanged { window: WindowSnapshot },
    WindowClosed { window: WindowId },
    WorkspaceActivated { output: OutputId, workspace: WorkspaceId, focused: bool },
    WorkspaceActiveWindowChanged { workspace: WorkspaceId, window: Option<WindowId> },
    WindowFocusChanged { id: Option<WindowId> },
    ActiveOutputChanged { output: Option<OutputId> },
    PrimaryOutputChanged { output: Option<OutputId> },
    CameraChanged { camera: CameraSnapshot },
    ConfigLoaded { generation: u64, failed: bool, error: Option<String> },
    PlacementChanged { window: WindowId, placement: WindowPlacement },
    Unsupported { name: String },
}

#[derive(Debug, Eq, PartialEq)]
pub struct EventEnvelope {
    pub sequence: u64,
    pub event: Event,
}

} // verus!
