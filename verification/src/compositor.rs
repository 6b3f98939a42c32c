//! The state that commands act on, and what each command does.

use crate::desktop;
use crate::desktop::{Desktop, DesktopError, WorkspaceTransaction};
use crate::directional_focus::FocusScore;
use crate::geometry;
use crate::geometry::{saturate, Direction, Point, Size};
use crate::layout;
use crate::layout::{LayoutError, Push, WindowTransaction};
use crate::model;
use crate::model::{OutputId, WindowId, WindowMode, WorkspaceId};
use crate::outputs;
use crate::outputs::{Output, OutputTransform, Scale120};
use crate::snapshot;
use crate::text;
use crate::text::{push_decimal, quote, same};
use crate::transactions::focus_point;
use crate::wire::v1;
use crate::wire::v1::{
    Command, DesktopSnapshot, ErrorCode, OutputSelector, Response, Success, WorkspaceSelector,
};
use crate::workspace;
use crate::workspace::Workspace;
use vstd::prelude::*;

verus! {

/// The desktop, which output the user works on, and the windows that clients have mapped, in the
/// order in which they were.
#[derive(Debug)]
pub struct Astera {
    pub desktop: Desktop,
    pub active_output: OutputId,
    pub windows: Vec<WindowId>,
    /// The id of the next window.
    pub next_window_id: u64,
    /// The backend can give outputs another geometry.
    pub output_configuration_supported: bool,
}

#[verifier::ext_equal]
pub struct AsteraView {
    pub desktop: desktop::DesktopView,
    pub active_output: OutputId,
    pub windows: Seq<WindowId>,
    pub next_window_id: u64,
    pub output_configuration_supported: bool,
}

impl View for Astera {
    type V = AsteraView;

    open spec fn view(&self) -> AsteraView {
        AsteraView {
            desktop: self.desktop@,
            active_output: self.active_output,
            windows: self.windows@,
            next_window_id: self.next_window_id,
            output_configuration_supported: self.output_configuration_supported,
        }
    }
}

/// What a command needs beyond the state, as floating-point numbers give it: the normalized vector
/// of the direction that it goes by, the scores of the candidates in that direction, and the
/// positions that were found for windows that it pushes. A command that moves the focus names its
/// direction; one that moves a window goes by the hint of the workspace that it moves it to.
#[derive(Debug)]
pub struct Guidance {
    pub hint: Direction,
    pub scores: Vec<Option<FocusScore>>,
    pub answers: Vec<Option<Point>>,
}

#[verifier::ext_equal]
pub struct GuidanceView {
    pub hint: Direction,
    pub scores: Seq<Option<FocusScore>>,
    pub answers: Seq<Option<Point>>,
}

impl View for Guidance {
    type V = GuidanceView;

    open spec fn view(&self) -> GuidanceView {
        GuidanceView {
            hint: self.hint,
            scores: self.scores@,
            answers: self.answers@,
        }
    }
}

/// Why a command was refused.
#[derive(Debug, Eq, PartialEq)]
pub enum CommandError {
    UnknownOutput(OutputId),
    UnknownOutputKey(String),
    UnknownWorkspace(WorkspaceId),
    UnknownWorkspaceName(String),
    UnknownWorkspaceIndex { output: OutputId, index: u32 },
    /// The workspace is on no output that could show it.
    Detached(WorkspaceId),
    /// The active output shows nothing.
    NoWorkspace,
    /// The backend cannot give outputs another geometry.
    Unconfigurable,
    Desktop(DesktopError),
}

pub enum CommandFault {
    UnknownOutput(OutputId),
    UnknownOutputKey(Seq<char>),
    UnknownWorkspace(WorkspaceId),
    UnknownWorkspaceName(Seq<char>),
    UnknownWorkspaceIndex { output: OutputId, index: u32 },
    Detached(WorkspaceId),
    NoWorkspace,
    Unconfigurable,
    Desktop(desktop::DesktopFault),
}

impl View for CommandError {
    type V = CommandFault;

    open spec fn view(&self) -> CommandFault {
        match self {
            CommandError::UnknownOutput(id) => CommandFault::UnknownOutput(*id),
            CommandError::UnknownOutputKey(key) => CommandFault::UnknownOutputKey(key@),
            CommandError::UnknownWorkspace(id) => CommandFault::UnknownWorkspace(*id),
            CommandError::UnknownWorkspaceName(name) => CommandFault::UnknownWorkspaceName(name@),
            CommandError::UnknownWorkspaceIndex { output, index } =>
                CommandFault::UnknownWorkspaceIndex { output: *output, index: *index },
            CommandError::Detached(id) => CommandFault::Detached(*id),
            CommandError::NoWorkspace => CommandFault::NoWorkspace,
            CommandError::Unconfigurable => CommandFault::Unconfigurable,
            CommandError::Desktop(error) => CommandFault::Desktop(error@),
        }
    }
}

impl desktop::DesktopFault {
    /// How a fault of the desktop is reported to a client.
    pub open spec fn code(self) -> ErrorCode {
        match self {
            desktop::DesktopFault::UnknownWorkspace(_) => ErrorCode::NotFound,
            desktop::DesktopFault::UnknownOutput(_) => ErrorCode::NotFound,
            desktop::DesktopFault::UnknownWindow(_) => ErrorCode::NotFound,
            desktop::DesktopFault::DuplicateWorkspaceName(_) => ErrorCode::Conflict,
            desktop::DesktopFault::DuplicateOutputStableKey(_) => ErrorCode::Conflict,
            desktop::DesktopFault::InvalidOutputSize => ErrorCode::InvalidRequest,
            desktop::DesktopFault::InvalidOutputScale => ErrorCode::InvalidRequest,
            desktop::DesktopFault::InvalidWorkspaceState(_) => ErrorCode::Internal,
            desktop::DesktopFault::DuplicateWindow { .. } => ErrorCode::Conflict,
            desktop::DesktopFault::Layout(_) => ErrorCode::Conflict,
        }
    }
}

/// How a fault of the desktop is reported to a client: what was named and does not exist is not
/// found, what cannot be done now is a conflict.
pub fn map_desktop_error(error: &DesktopError) -> (r: (ErrorCode, String))
    ensures
        r.0 == error@.code(),
        r.1@ == error@.message(),
{
    let code: ErrorCode = match error {
        DesktopError::UnknownWorkspace(_) => ErrorCode::NotFound,
        DesktopError::UnknownOutput(_) => ErrorCode::NotFound,
        DesktopError::UnknownWindow(_) => ErrorCode::NotFound,
        DesktopError::DuplicateWorkspaceName(_) => ErrorCode::Conflict,
        DesktopError::DuplicateOutputStableKey(_) => ErrorCode::Conflict,
        DesktopError::InvalidOutputSize => ErrorCode::InvalidRequest,
        DesktopError::InvalidOutputScale => ErrorCode::InvalidRequest,
        DesktopError::InvalidWorkspaceState(_) => ErrorCode::Internal,
        DesktopError::DuplicateWindow { .. } => ErrorCode::Conflict,
        DesktopError::Layout(_) => ErrorCode::Conflict,
    };
    (code, error.message())
}

impl CommandFault {
    pub open spec fn code(self) -> ErrorCode {
        match self {
            CommandFault::Detached(_) => ErrorCode::Conflict,
            CommandFault::NoWorkspace => ErrorCode::Conflict,
            CommandFault::Unconfigurable => ErrorCode::Conflict,
            CommandFault::Desktop(fault) => fault.code(),
            _ => ErrorCode::NotFound,
        }
    }

    pub open spec fn message(self) -> Seq<char> {
        match self {
            CommandFault::UnknownOutput(id) => "unknown output OutputId("@ + text::decimal(
                id.0 as int,
            ) + ")"@,
            CommandFault::UnknownOutputKey(key) => "unknown output "@ + text::quoted(key),
            CommandFault::UnknownWorkspace(id) => "unknown workspace WorkspaceId("@
                + text::decimal(id.0 as int) + ")"@,
            CommandFault::UnknownWorkspaceName(name) => "unknown workspace "@ + text::quoted(name),
            CommandFault::UnknownWorkspaceIndex { output, index } => "unknown workspace "@
                + text::decimal(index as int) + " of OutputId("@ + text::decimal(output.0 as int)
                + ")"@,
            CommandFault::Detached(id) => "no output has WorkspaceId("@ + text::decimal(
                id.0 as int,
            ) + ")"@,
            CommandFault::NoWorkspace => "active output has no workspace"@,
            CommandFault::Unconfigurable => "the backend cannot configure outputs"@,
            CommandFault::Desktop(fault) => fault.message(),
        }
    }

    /// The push that a command waits for, where it is not refused but needs another position.
    pub open spec fn awaited(self) -> Option<layout::PushView> {
        match self {
            CommandFault::Desktop(desktop::DesktopFault::Layout(fault)) => match fault {
                layout::LayoutFault::NeedsPosition(push) => Some(push),
                _ => None,
            },
            _ => None,
        }
    }
}

impl CommandError {
    pub fn code(&self) -> (r: ErrorCode)
        ensures
            r == self@.code(),
    {
        match self {
            CommandError::Detached(_) => ErrorCode::Conflict,
            CommandError::NoWorkspace => ErrorCode::Conflict,
            CommandError::Unconfigurable => ErrorCode::Conflict,
            CommandError::Desktop(error) => map_desktop_error(error).0,
            _ => ErrorCode::NotFound,
        }
    }

    pub fn message(&self) -> (r: String)
        ensures
            r@ == self@.message(),
    {
        match self {
            CommandError::UnknownOutput(id) => {
                let mut r: String = "unknown output OutputId(".to_owned();
                push_decimal(&mut r, id.0 as u64);
                r.append(")");
                r
            },
            CommandError::UnknownOutputKey(key) => {
                let mut r: String = "unknown output ".to_owned();
                r.append(quote(key.as_str()).as_str());
                r
            },
            CommandError::UnknownWorkspace(id) => {
                let mut r: String = "unknown workspace WorkspaceId(".to_owned();
                push_decimal(&mut r, id.0 as u64);
                r.append(")");
                r
            },
            CommandError::UnknownWorkspaceName(name) => {
                let mut r: String = "unknown workspace ".to_owned();
                r.append(quote(name.as_str()).as_str());
                r
            },
            CommandError::UnknownWorkspaceIndex { output, index } => {
                let mut r: String = "unknown workspace ".to_owned();
                push_decimal(&mut r, *index as u64);
                r.append(" of OutputId(");
                push_decimal(&mut r, output.0 as u64);
                r.append(")");
                r
            },
            CommandError::Detached(id) => {
                let mut r: String = "no output has WorkspaceId(".to_owned();
                push_decimal(&mut r, id.0 as u64);
                r.append(")");
                r
            },
            CommandError::NoWorkspace => "active output has no workspace".to_owned(),
            CommandError::Unconfigurable => "the backend cannot configure outputs".to_owned(),
            CommandError::Desktop(error) => error.message(),
        }
    }
}

/// The key of the first of the first `n` outputs of a list that has a stable key.
pub open spec fn keyed_among(
    desktop: desktop::DesktopView,
    keys: Seq<u64>,
    n: int,
    key: Seq<char>,
) -> Option<u64>
    decreases n,
{
    if n <= 0 {
        None
    } else {
        match keyed_among(desktop, keys, n - 1, key) {
            Some(k) => Some(k),
            None => if desktop.outputs[keys[n - 1]].output.stable_key == key {
                Some(keys[n - 1])
            } else {
                None
            },
        }
    }
}

/// The first of the first `n` workspaces of a list that has a name.
pub open spec fn named_among(
    all: Seq<workspace::WorkspaceView>,
    n: int,
    name: Seq<char>,
) -> Option<WorkspaceId>
    decreases n,
{
    if n <= 0 {
        None
    } else {
        match named_among(all, n - 1, name) {
            Some(id) => Some(id),
            None => if all[n - 1].name == Some(name) {
                Some(all[n - 1].id)
            } else {
                None
            },
        }
    }
}

/// The viewport that a window changes its mode in where its workspace is on no output.
pub open spec fn spare_viewport() -> Size {
    Size { width: 1920, height: 1080 }
}

/// The size that a new window is offered.
pub open spec fn initial_size() -> Size {
    Size { width: 800, height: 600 }
}

/// A camera that was moved, as far as its numbers reach.
pub open spec fn panned(center: Point, dx: i64, dy: i64) -> Point {
    Point {
        x: geometry::saturated(center.x + dx) as i64,
        y: geometry::saturated(center.y + dy) as i64,
    }
}

pub open spec fn core_policy(policy: v1::CameraPolicy) -> model::CameraPolicy {
    match policy {
        v1::CameraPolicy::Centered => model::CameraPolicy::Centered,
        v1::CameraPolicy::KeepVisible { margin } => model::CameraPolicy::KeepVisible { margin },
    }
}

pub open spec fn core_mode(mode: v1::WindowMode) -> WindowMode {
    match mode {
        v1::WindowMode::Tiled => WindowMode::Tiled,
        v1::WindowMode::Floating => WindowMode::Floating,
        v1::WindowMode::Maximized => WindowMode::Maximized,
        v1::WindowMode::Fullscreen => WindowMode::Fullscreen,
    }
}

pub open spec fn core_transform(transform: v1::OutputTransform) -> OutputTransform {
    match transform {
        v1::OutputTransform::Normal => OutputTransform::Normal,
        v1::OutputTransform::Rotate90 => OutputTransform::Rotate90,
        v1::OutputTransform::Rotate180 => OutputTransform::Rotate180,
        v1::OutputTransform::Rotate270 => OutputTransform::Rotate270,
        v1::OutputTransform::Flipped => OutputTransform::Flipped,
    }
}

pub open spec fn core_size(size: v1::Size) -> Size {
    Size { width: size.width, height: size.height }
}

impl AsteraView {
    /// The output that a selector means.
    pub open spec fn resolved_output(self, selector: v1::OutputSelectorView) -> Result<
        OutputId,
        CommandFault,
    > {
        match selector {
            v1::OutputSelectorView::Id(id) => self.known_output(OutputId(id.0)),
            v1::OutputSelectorView::Active => self.known_output(self.active_output),
            v1::OutputSelectorView::Key(key) => {
                let keys = self.desktop.keys();
                match keyed_among(self.desktop, keys, keys.len() as int, key) {
                    Some(k) => Ok(OutputId(k as u32)),
                    None => Err(CommandFault::UnknownOutputKey(key)),
                }
            },
        }
    }

    pub open spec fn known_output(self, id: OutputId) -> Result<OutputId, CommandFault> {
        if self.desktop.outputs.contains_key(desktop::key(id)) {
            Ok(id)
        } else {
            Err(CommandFault::UnknownOutput(id))
        }
    }

    /// The workspace that a selector means.
    pub open spec fn resolved_workspace(self, selector: v1::WorkspaceSelectorView) -> Result<
        WorkspaceId,
        CommandFault,
    > {
        match selector {
            v1::WorkspaceSelectorView::Id(id) => {
                let id = WorkspaceId(id.0);
                if self.desktop.place(id) is Some {
                    Ok(id)
                } else {
                    Err(CommandFault::UnknownWorkspace(id))
                }
            },
            v1::WorkspaceSelectorView::Name(name) => {
                let all = self.desktop.all();
                match named_among(all, all.len() as int, name) {
                    Some(id) => Ok(id),
                    None => Err(CommandFault::UnknownWorkspaceName(name)),
                }
            },
            v1::WorkspaceSelectorView::LocalIndex { output, index } => match self.resolved_output(
                output,
            ) {
                Err(fault) => Err(fault),
                Ok(output) => {
                    let list = self.desktop.outputs[desktop::key(output)].workspaces;
                    if self.desktop.outputs.contains_key(desktop::key(output)) && 1 <= index
                        <= list.len() {
                        Ok(list[index - 1].id)
                    } else {
                        Err(CommandFault::UnknownWorkspaceIndex { output, index })
                    }
                },
            },
        }
    }

    /// The state with another desktop.
    pub open spec fn with_desktop(self, desktop: desktop::DesktopView) -> Self {
        AsteraView { desktop, ..self }
    }

    /// The state with the output at a place, if there is one, as the active one.
    pub open spec fn working_at(self, place: Option<(Option<u64>, int)>) -> Self {
        match place {
            Some((Some(k), _)) => AsteraView { active_output: OutputId(k as u32), ..self },
            _ => self,
        }
    }

    /// The state after a transaction.
    #[verifier::opaque]
    pub open spec fn transacted(
        self,
        transaction: desktop::TransactionView,
        answers: Seq<Option<Point>>,
    ) -> Result<Self, CommandFault> {
        match self.desktop.applied(transaction, answers) {
            Ok((after, _)) => Ok(self.with_desktop(after)),
            Err(fault) => Err(CommandFault::Desktop(fault)),
        }
    }

    /// The state after the camera of a workspace has been set.
    pub open spec fn with_camera(self, id: WorkspaceId, camera: model::CameraState) -> Self {
        let place = self.desktop.place(id)->0;
        self.with_desktop(
            self.desktop.with_at(
                place,
                workspace::WorkspaceView { camera, ..self.desktop.at(place) },
            ),
        )
    }

    pub open spec fn camera_of(self, id: WorkspaceId) -> Option<model::CameraState> {
        match self.desktop.place(id) {
            Some(place) => Some(self.desktop.at(place).camera),
            None => None,
        }
    }

    /// The viewport that a window on a workspace changes its mode in.
    pub open spec fn viewport_for(self, id: WorkspaceId) -> Size {
        match self.desktop.place(id) {
            Some(place) => match self.desktop.output_at(place) {
                Some(output) => output.logical_size,
                None => spare_viewport(),
            },
            None => spare_viewport(),
        }
    }

    /// The state after a window has had the focus given.
    #[verifier::opaque]
    pub open spec fn window_focused(self, window: WindowId) -> Result<Self, CommandFault> {
        match self.desktop.focused_window(window) {
            Ok((after, id)) => Ok(self.with_desktop(after).working_at(after.place(id))),
            Err(fault) => Err(CommandFault::Desktop(fault)),
        }
    }

    /// The state after a workspace has been shown on its output.
    #[verifier::opaque]
    pub open spec fn workspace_focused(self, id: WorkspaceId) -> Result<Self, CommandFault> {
        match self.desktop.place(id) {
            None => Err(CommandFault::UnknownWorkspace(id)),
            Some((None, _)) => Err(CommandFault::Detached(id)),
            Some((Some(k), _)) => {
                let output = OutputId(k as u32);
                match self.desktop.applied(
                    desktop::TransactionView::Focus { output, workspace: id },
                    Seq::empty(),
                ) {
                    Ok((after, _)) => Ok(
                        AsteraView { desktop: after, active_output: output, ..self },
                    ),
                    Err(fault) => Err(CommandFault::Desktop(fault)),
                }
            },
        }
    }

    /// The state after the focus has moved in a direction.
    #[verifier::opaque]
    pub open spec fn direction_focused(self, guidance: GuidanceView) -> Result<Self, CommandFault> {
        match self.desktop.shown(self.active_output) {
            None => Err(CommandFault::NoWorkspace),
            Some(ws) => match self.desktop.focused_toward(
                ws.id,
                guidance.hint,
                guidance.scores,
            ) {
                Ok((after, _)) => Ok(self.with_desktop(after)),
                Err(fault) => Err(CommandFault::Desktop(fault)),
            },
        }
    }

    /// The state after a window has changed its mode.
    #[verifier::opaque]
    pub open spec fn mode_set(self, id: WindowId, mode: WindowMode, answers: Seq<Option<Point>>) -> Result<
        Self,
        CommandFault,
    > {
        match self.desktop.owner(id) {
            Err(fault) => Err(CommandFault::Desktop(fault)),
            Ok(ws) => {
                let viewport_size = self.viewport_for(ws);
                match self.desktop.applied_window(
                    ws,
                    WindowTransaction::SetMode { id, mode, viewport_size },
                    answers,
                ) {
                    Ok(after) => Ok(self.with_desktop(after)),
                    Err(fault) => Err(CommandFault::Desktop(fault)),
                }
            },
        }
    }

    /// The state after a window has been asked to close; it is there until its client closes it.
    pub open spec fn window_closed(self, window: WindowId) -> Result<Self, CommandFault> {
        match self.desktop.owner(window) {
            Ok(_) => Ok(self),
            Err(fault) => Err(CommandFault::Desktop(fault)),
        }
    }

    /// The state after an output has become the active one.
    pub open spec fn output_focused(self, output: v1::OutputSelectorView) -> Result<
        Self,
        CommandFault,
    > {
        match self.resolved_output(output) {
            Ok(output) => Ok(AsteraView { active_output: output, ..self }),
            Err(fault) => Err(fault),
        }
    }

    /// The state after an output has changed its geometry, if the backend can see to that.
    #[verifier::opaque]
    pub open spec fn output_configured(
        self,
        output: v1::OutputSelectorView,
        physical_size: Size,
        logical_size: Size,
        native_scale: Scale120,
        transform: OutputTransform,
    ) -> Result<Self, CommandFault> {
        if !self.output_configuration_supported {
            Err(CommandFault::Unconfigurable)
        } else {
            match self.resolved_output(output) {
                Err(fault) => Err(fault),
                Ok(output) => match self.desktop.configured(
                    output,
                    physical_size,
                    logical_size,
                    native_scale,
                    transform,
                ) {
                    Ok(after) => Ok(self.with_desktop(after)),
                    Err(fault) => Err(CommandFault::Desktop(fault)),
                },
            }
        }
    }

    /// The state after the workspace that a selector means has been shown on its output.
    pub open spec fn selected_focused(self, workspace: v1::WorkspaceSelectorView) -> Result<
        Self,
        CommandFault,
    > {
        match self.resolved_workspace(workspace) {
            Ok(id) => self.workspace_focused(id),
            Err(fault) => Err(fault),
        }
    }

    /// The state after a workspace has moved to an output.
    pub open spec fn workspace_moved(
        self,
        workspace: WorkspaceId,
        target_output: v1::OutputSelectorView,
        target_index: Option<u32>,
        activate: bool,
        answers: Seq<Option<Point>>,
    ) -> Result<Self, CommandFault> {
        match self.resolved_output(target_output) {
            Err(fault) => Err(fault),
            Ok(target_output) => self.transacted(
                desktop::TransactionView::Move {
                    workspace,
                    target_output,
                    target_index: match target_index {
                        Some(index) => Some(index as usize),
                        None => None,
                    },
                    activate,
                },
                answers,
            ),
        }
    }

    /// The state after a window has moved to a workspace.
    pub open spec fn window_moved(
        self,
        window: WindowId,
        target: v1::WorkspaceSelectorView,
        activate: bool,
        guidance: GuidanceView,
    ) -> Result<Self, CommandFault> {
        match self.resolved_workspace(target) {
            Err(fault) => Err(fault),
            Ok(target) => self.transacted(
                desktop::TransactionView::SendWindow {
                    window,
                    target,
                    activate,
                    hint: guidance.hint,
                },
                guidance.answers,
            ),
        }
    }

    /// The state after a workspace has got another camera policy.
    pub open spec fn policy_set(self, id: WorkspaceId, policy: model::CameraPolicy) -> Result<
        Self,
        CommandFault,
    > {
        match self.camera_of(id) {
            None => Err(CommandFault::UnknownWorkspace(id)),
            Some(camera) => Ok(
                self.with_camera(id, model::CameraState { policy, ..camera }),
            ),
        }
    }

    /// The state after the camera of a workspace has moved.
    pub open spec fn camera_panned(self, id: WorkspaceId, dx: i64, dy: i64) -> Result<
        Self,
        CommandFault,
    > {
        match self.camera_of(id) {
            None => Err(CommandFault::UnknownWorkspace(id)),
            Some(camera) => Ok(
                self.with_camera(
                    id,
                    model::CameraState { center: panned(camera.center, dx, dy), ..camera },
                ),
            ),
        }
    }

    /// The state after a command, or why it is refused.
    pub open spec fn executed(self, command: v1::CommandView, guidance: GuidanceView) -> Result<
        Self,
        CommandFault,
    > {
        match command {
            v1::CommandView::GetState => Ok(self),
            v1::CommandView::FocusWindow(window) => self.window_focused(WindowId(window.0)),
            v1::CommandView::CloseWindow(window) => self.window_closed(WindowId(window.0)),
            v1::CommandView::FocusDirection(_) => self.direction_focused(guidance),
            v1::CommandView::FocusOutput(output) => self.output_focused(output),
            v1::CommandView::ConfigureOutput {
                output,
                physical_size,
                logical_size,
                native_scale,
                transform,
            } => self.output_configured(
                output,
                core_size(physical_size),
                core_size(logical_size),
                Scale120(native_scale.0),
                core_transform(transform),
            ),
            v1::CommandView::FocusWorkspace { workspace } => self.selected_focused(workspace),
            v1::CommandView::MoveWorkspace { workspace, target_output, target_index, activate } =>
                self.workspace_moved(
                    WorkspaceId(workspace.0),
                    target_output,
                    target_index,
                    activate,
                    guidance.answers,
                ),
            v1::CommandView::SetWorkspaceName { workspace, name } => self.transacted(
                desktop::TransactionView::SetName { workspace: WorkspaceId(workspace.0), name },
                guidance.answers,
            ),
            v1::CommandView::MoveWindow { window, target, activate } => self.window_moved(
                WindowId(window.0),
                target,
                activate,
                guidance,
            ),
            v1::CommandView::SetWindowMode { window, mode } => self.mode_set(
                WindowId(window.0),
                core_mode(mode),
                guidance.answers,
            ),
            v1::CommandView::SetCameraPolicy { workspace, policy } => self.policy_set(
                WorkspaceId(workspace.0),
                core_policy(policy),
            ),
            v1::CommandView::PanCamera { workspace, dx, dy } => self.camera_panned(
                WorkspaceId(workspace.0),
                dx,
                dy,
            ),
        }
    }
}

/// Outputs that follow do not change which is the first with a stable key.
proof fn keyed_among_extends(
    desktop: desktop::DesktopView,
    keys: Seq<u64>,
    n: int,
    m: int,
    key: Seq<char>,
)
    requires
        0 <= n <= m,
        keyed_among(desktop, keys, n, key) is Some,
    ensures
        keyed_among(desktop, keys, m, key) == keyed_among(desktop, keys, n, key),
    decreases m,
{
    if n < m {
        keyed_among_extends(desktop, keys, n, m - 1, key);
    }
}

proof fn named_among_finds(all: Seq<workspace::WorkspaceView>, n: int, name: Seq<char>, i: int)
    requires
        0 <= n <= all.len(),
        forall|j: int| 0 <= j < i && j < n ==> (#[trigger] all[j]).name != Some(name),
        i < n ==> 0 <= i && all[i].name == Some(name),
    ensures
        named_among(all, n, name) == if i < n {
            Some(all[i].id)
        } else {
            None
        },
    decreases n,
{
    if n > 0 {
        named_among_finds(all, n - 1, name, i);
    }
}

impl Astera {
    fn known_output(&self, id: OutputId) -> (r: Result<OutputId, CommandError>)
        ensures
            match self@.known_output(id) {
                Ok(id) => r == Ok::<OutputId, CommandError>(id),
                Err(fault) => r is Err && r->Err_0@ == fault,
            },
    {
        if self.desktop.outputs.contains_key(id.0 as u64) {
            Ok(id)
        } else {
            Err(CommandError::UnknownOutput(id))
        }
    }

    /// The output that a selector means.
    pub fn resolve_output(&self, selector: &OutputSelector) -> (r: Result<OutputId, CommandError>)
        ensures
            match self@.resolved_output(selector@) {
                Ok(id) => r == Ok::<OutputId, CommandError>(id),
                Err(fault) => r is Err && r->Err_0@ == fault,
            },
    {
        match selector {
            OutputSelector::Id(id) => self.known_output(OutputId::from(*id)),
            OutputSelector::Active => self.known_output(self.active_output),
            OutputSelector::Key(key) => {
                let keys: Vec<u64> = self.desktop.outputs.keys();
                let mut n: usize = 0;
                while n < keys.len()
                    invariant
                        n <= keys@.len(),
                        keys@ == self@.desktop.keys(),
                        keys@.to_set() == self@.desktop.outputs.dom(),
                        keyed_among(self@.desktop, keys@, n as int, key@) is None,
                        selector@ == v1::OutputSelectorView::Key(key@),
                    decreases keys@.len() - n,
                {
                    assert(keys@.to_set().contains(keys@[n as int]));
                    if let Some(set) = self.desktop.outputs.get(keys[n]) {
                        if same(&set.output.stable_key, key) {
                            proof {
                                keyed_among_extends(
                                    self@.desktop,
                                    keys@,
                                    n + 1,
                                    keys@.len() as int,
                                    key@,
                                );
                            }
                            return Ok(OutputId(keys[n] as u32));
                        }
                    }
                    n = n + 1;
                }
                Err(CommandError::UnknownOutputKey(key.clone()))
            },
        }
    }

    /// The workspace that a selector means.
    pub fn resolve_workspace(&self, selector: &WorkspaceSelector) -> (r: Result<
        WorkspaceId,
        CommandError,
    >)
        ensures
            match self@.resolved_workspace(selector@) {
                Ok(id) => r == Ok::<WorkspaceId, CommandError>(id),
                Err(fault) => r is Err && r->Err_0@ == fault,
            },
    {
        match selector {
            WorkspaceSelector::Id(id) => {
                let id: WorkspaceId = WorkspaceId::from(*id);
                match self.desktop.find_place(id) {
                    Some(_) => Ok(id),
                    None => Err(CommandError::UnknownWorkspace(id)),
                }
            },
            WorkspaceSelector::Name(name) => {
                let ghost all = self@.desktop.all();
                match self.desktop.workspace_by_name(name) {
                    Some(ws) => {
                        proof {
                            let i = choose|i: int|
                                0 <= i < all.len() && #[trigger] all[i] == ws@ && forall|j: int|
                                    0 <= j < i ==> (#[trigger] all[j]).name != Some(name@);
                            named_among_finds(all, all.len() as int, name@, i);
                        }
                        Ok(ws.id)
                    },
                    None => {
                        proof {
                            named_among_finds(all, all.len() as int, name@, all.len() as int);
                        }
                        Err(CommandError::UnknownWorkspaceName(name.clone()))
                    },
                }
            },
            WorkspaceSelector::LocalIndex { output, index } => {
                let output: OutputId = match self.resolve_output(output) {
                    Ok(output) => output,
                    Err(error) => {
                        return Err(error);
                    },
                };
                match self.desktop.workspace_by_local_index(output, *index as usize) {
                    Some(ws) => Ok(ws.id),
                    None => Err(CommandError::UnknownWorkspaceIndex { output, index: *index }),
                }
            },
        }
    }
}

impl Astera {
    fn focus_window(&mut self, window: WindowId) -> (r: Result<(), CommandError>)
        ensures
            match old(self)@.window_focused(window) {
                Ok(after) => r is Ok && final(self)@ == after,
                Err(fault) => r is Err && r->Err_0@ == fault && final(self)@ == old(self)@,
            },
    {
        reveal(AsteraView::window_focused);
        let id: WorkspaceId = match self.desktop.focus_window(window) {
            Ok(id) => id,
            Err(error) => {
                return Err(CommandError::Desktop(error));
            },
        };
        match self.desktop.find_place(id) {
            Some((Some(k), _)) => {
                self.active_output = OutputId(k as u32);
            },
            _ => {},
        }
        Ok(())
    }

    fn focus_workspace(&mut self, id: WorkspaceId) -> (r: Result<(), CommandError>)
        ensures
            match old(self)@.workspace_focused(id) {
                Ok(after) => r is Ok && final(self)@ == after,
                Err(fault) => r is Err && r->Err_0@ == fault && final(self)@ == old(self)@,
            },
    {
        reveal(AsteraView::workspace_focused);
        let output: OutputId = match self.desktop.find_place(id) {
            Some((Some(k), _)) => OutputId(k as u32),
            Some((None, _)) => {
                return Err(CommandError::Detached(id));
            },
            None => {
                return Err(CommandError::UnknownWorkspace(id));
            },
        };
        let none: [Option<Point>; 0] = [];
        assert(none@ =~= Seq::empty());
        match self.desktop.apply(WorkspaceTransaction::Focus { output, workspace: id }, &none) {
            Ok(_) => {
                self.active_output = output;
                Ok(())
            },
            Err(error) => Err(CommandError::Desktop(error)),
        }
    }

    fn focus_direction(&mut self, guidance: &Guidance) -> (r: Result<(), CommandError>)
        ensures
            match old(self)@.direction_focused(guidance@) {
                Ok(after) => r is Ok && final(self)@ == after,
                Err(fault) => r is Err && r->Err_0@ == fault && final(self)@ == old(self)@,
            },
    {
        reveal(AsteraView::direction_focused);
        let id: WorkspaceId = match self.desktop.active_workspace_id(self.active_output) {
            Some(id) => id,
            None => {
                return Err(CommandError::NoWorkspace);
            },
        };
        match self.desktop.focus_direction(id, guidance.hint, guidance.scores.as_slice()) {
            Ok(_) => Ok(()),
            Err(error) => Err(CommandError::Desktop(error)),
        }
    }

    fn transact(&mut self, transaction: WorkspaceTransaction, guidance: &Guidance) -> (r: Result<
        (),
        CommandError,
    >)
        ensures
            match old(self)@.transacted(transaction@, guidance@.answers) {
                Ok(after) => r is Ok && final(self)@ == after,
                Err(fault) => r is Err && r->Err_0@ == fault && final(self)@ == old(self)@,
            },
    {
        reveal(AsteraView::transacted);
        match self.desktop.apply(transaction, guidance.answers.as_slice()) {
            Ok(_) => Ok(()),
            Err(error) => Err(CommandError::Desktop(error)),
        }
    }

    fn viewport_for(&self, id: WorkspaceId) -> (r: Size)
        ensures
            r == self@.viewport_for(id),
    {
        let spare: Size = Size { width: 1920, height: 1080 };
        match self.desktop.find_place(id) {
            Some((Some(k), _)) => match self.desktop.outputs.get(k) {
                Some(set) => set.output.logical_size,
                None => spare,
            },
            _ => spare,
        }
    }

    fn set_window_mode(&mut self, id: WindowId, mode: WindowMode, guidance: &Guidance) -> (r: Result<
        (),
        CommandError,
    >)
        ensures
            match old(self)@.mode_set(id, mode, guidance@.answers) {
                Ok(after) => r is Ok && final(self)@ == after,
                Err(fault) => r is Err && r->Err_0@ == fault && final(self)@ == old(self)@,
            },
    {
        reveal(AsteraView::mode_set);
        let ws: WorkspaceId = match self.desktop.find_window(id) {
            Ok(ws) => ws,
            Err(error) => {
                return Err(CommandError::Desktop(error));
            },
        };
        let viewport_size: Size = self.viewport_for(ws);
        match self.desktop.apply_window(
            ws,
            WindowTransaction::SetMode { id, mode, viewport_size },
            guidance.answers.as_slice(),
        ) {
            Ok(()) => Ok(()),
            Err(error) => Err(CommandError::Desktop(error)),
        }
    }

    fn set_camera_policy(&mut self, id: WorkspaceId, policy: model::CameraPolicy) -> (r: Result<
        (),
        CommandError,
    >)
        ensures
            match old(self)@.policy_set(id, policy) {
                Ok(after) => r is Ok && final(self)@ == after,
                Err(fault) => r is Err && r->Err_0@ == fault && final(self)@ == old(self)@,
            },
    {
        match self.desktop.find_place(id) {
            Some(place) => {
                let ws: &mut Workspace = self.desktop.get_at_mut(place);
                ws.camera.policy = policy;
                Ok(())
            },
            None => Err(CommandError::UnknownWorkspace(id)),
        }
    }

    fn pan_camera(&mut self, id: WorkspaceId, dx: i64, dy: i64) -> (r: Result<(), CommandError>)
        ensures
            match old(self)@.camera_panned(id, dx, dy) {
                Ok(after) => r is Ok && final(self)@ == after,
                Err(fault) => r is Err && r->Err_0@ == fault && final(self)@ == old(self)@,
            },
    {
        match self.desktop.find_place(id) {
            Some(place) => {
                let ws: &mut Workspace = self.desktop.get_at_mut(place);
                let center: Point = ws.camera.center;
                ws.camera.center = Point {
                    x: saturate(center.x as i128 + dx as i128),
                    y: saturate(center.y as i128 + dy as i128),
                };
                Ok(())
            },
            None => Err(CommandError::UnknownWorkspace(id)),
        }
    }

    fn close_window(&mut self, window: WindowId) -> (r: Result<(), CommandError>)
        ensures
            match old(self)@.window_closed(window) {
                Ok(after) => r is Ok && final(self)@ == after,
                Err(fault) => r is Err && r->Err_0@ == fault && final(self)@ == old(self)@,
            },
    {
        match self.desktop.find_window(window) {
            Ok(_) => Ok(()),
            Err(error) => Err(CommandError::Desktop(error)),
        }
    }

    fn focus_output(&mut self, output: &OutputSelector) -> (r: Result<(), CommandError>)
        ensures
            match old(self)@.output_focused(output@) {
                Ok(after) => r is Ok && final(self)@ == after,
                Err(fault) => r is Err && r->Err_0@ == fault && final(self)@ == old(self)@,
            },
    {
        match self.resolve_output(output) {
            Ok(output) => {
                self.active_output = output;
                Ok(())
            },
            Err(error) => Err(error),
        }
    }

    fn configure_output(
        &mut self,
        output: &OutputSelector,
        physical_size: Size,
        logical_size: Size,
        native_scale: Scale120,
        transform: OutputTransform,
    ) -> (r: Result<(), CommandError>)
        ensures
            match old(self)@.output_configured(
                output@,
                physical_size,
                logical_size,
                native_scale,
                transform,
            ) {
                Ok(after) => r is Ok && final(self)@ == after,
                Err(fault) => r is Err && r->Err_0@ == fault && final(self)@ == old(self)@,
            },
    {
        reveal(AsteraView::output_configured);
        if !self.output_configuration_supported {
            return Err(CommandError::Unconfigurable);
        }
        let output: OutputId = match self.resolve_output(output) {
            Ok(output) => output,
            Err(error) => {
                return Err(error);
            },
        };
        match self.desktop.configure_output(
            output,
            physical_size,
            logical_size,
            native_scale,
            transform,
        ) {
            Ok(()) => Ok(()),
            Err(error) => Err(CommandError::Desktop(error)),
        }
    }

    fn focus_selected(&mut self, workspace: &WorkspaceSelector) -> (r: Result<(), CommandError>)
        ensures
            match old(self)@.selected_focused(workspace@) {
                Ok(after) => r is Ok && final(self)@ == after,
                Err(fault) => r is Err && r->Err_0@ == fault && final(self)@ == old(self)@,
            },
    {
        match self.resolve_workspace(workspace) {
            Ok(id) => self.focus_workspace(id),
            Err(error) => Err(error),
        }
    }

    fn move_workspace(
        &mut self,
        workspace: WorkspaceId,
        target_output: &OutputSelector,
        target_index: Option<u32>,
        activate: bool,
        guidance: &Guidance,
    ) -> (r: Result<(), CommandError>)
        ensures
            match old(self)@.workspace_moved(
                workspace,
                target_output@,
                target_index,
                activate,
                guidance@.answers,
            ) {
                Ok(after) => r is Ok && final(self)@ == after,
                Err(fault) => r is Err && r->Err_0@ == fault && final(self)@ == old(self)@,
            },
    {
        let target_output: OutputId = match self.resolve_output(target_output) {
            Ok(output) => output,
            Err(error) => {
                return Err(error);
            },
        };
        let target_index: Option<usize> = match target_index {
            Some(index) => Some(index as usize),
            None => None,
        };
        self.transact(
            WorkspaceTransaction::Move { workspace, target_output, target_index, activate },
            guidance,
        )
    }

    fn move_window(
        &mut self,
        window: WindowId,
        target: &WorkspaceSelector,
        activate: bool,
        guidance: &Guidance,
    ) -> (r: Result<(), CommandError>)
        ensures
            match old(self)@.window_moved(window, target@, activate, guidance@) {
                Ok(after) => r is Ok && final(self)@ == after,
                Err(fault) => r is Err && r->Err_0@ == fault && final(self)@ == old(self)@,
            },
    {
        let target: WorkspaceId = match self.resolve_workspace(target) {
            Ok(target) => target,
            Err(error) => {
                return Err(error);
            },
        };
        let hint: Direction = guidance.hint;
        self.transact(
            WorkspaceTransaction::SendWindow { window, target, activate, hint },
            guidance,
        )
    }

    /// Does what a command says. A command that is refused changes nothing.
    pub fn execute_command_inner(&mut self, command: Command, guidance: &Guidance) -> (r: Result<
        (),
        CommandError,
    >)
        ensures
            match old(self)@.executed(command@, guidance@) {
                Ok(after) => r is Ok && final(self)@ == after,
                Err(fault) => r is Err && r->Err_0@ == fault && final(self)@ == old(self)@,
            },
    {
        match command {
            Command::GetState => Ok(()),
            Command::FocusWindow(window) => self.focus_window(WindowId::from(window)),
            Command::CloseWindow(window) => self.close_window(WindowId::from(window)),
            Command::FocusDirection(_) => self.focus_direction(guidance),
            Command::FocusOutput(output) => self.focus_output(&output),
            Command::ConfigureOutput {
                output,
                physical_size,
                logical_size,
                native_scale,
                transform,
            } => self.configure_output(
                &output,
                Size::from(physical_size),
                Size::from(logical_size),
                Scale120::from(native_scale),
                OutputTransform::from(transform),
            ),
            Command::FocusWorkspace { workspace } => self.focus_selected(&workspace),
            Command::MoveWorkspace { workspace, target_output, target_index, activate } =>
                self.move_workspace(
                    WorkspaceId::from(workspace),
                    &target_output,
                    target_index,
                    activate,
                    guidance,
                ),
            Command::SetWorkspaceName { workspace, name } => self.transact(
                WorkspaceTransaction::SetName { workspace: WorkspaceId::from(workspace), name },
                guidance,
            ),
            Command::MoveWindow { window, target, activate } => self.move_window(
                WindowId::from(window),
                &target,
                activate,
                guidance,
            ),
            Command::SetWindowMode { window, mode } => self.set_window_mode(
                WindowId::from(window),
                WindowMode::from(mode),
                guidance,
            ),
            Command::SetCameraPolicy { workspace, policy } => self.set_camera_policy(
                WorkspaceId::from(workspace),
                model::CameraPolicy::from(policy),
            ),
            Command::PanCamera { workspace, dx, dy } => self.pan_camera(
                WorkspaceId::from(workspace),
                dx,
                dy,
            ),
        }
    }
}

/// The state at the start: one output of a nested window, and a policy for the cameras.
pub open spec fn initial_desktop(gap: i64, policy: model::CameraPolicy) -> Result<
    desktop::DesktopView,
    desktop::DesktopFault,
> {
    match desktop::DesktopView::fresh(gap).connected(
        outputs::OutputView {
            id: OutputId(0),
            stable_key: "nested-output"@,
            physical_size: Size { width: 1280, height: 720 },
            logical_size: Size { width: 1280, height: 720 },
            native_scale: Scale120(120),
            transform: OutputTransform::Normal,
        },
    ) {
        Ok(connected) => connected.reconfigured(gap, policy, Seq::empty()),
        Err(fault) => Err(fault),
    }
}

/// The answer to a command that was done.
pub open spec fn reply(command: v1::CommandView, after: AsteraView, sequence: u64) -> v1::SuccessView {
    match command {
        v1::CommandView::GetState => v1::SuccessView::State {
            sequence,
            snapshot: after.shown_state(),
        },
        _ => v1::SuccessView::Handled { sequence },
    }
}

impl AsteraView {
    /// What a client is shown of the state.
    pub open spec fn shown_state(self) -> v1::SnapshotView {
        snapshot::snapshot(self.desktop).with_active(Some(self.active_output))
    }

    /// The transaction that maps a new window on a workspace: a window of the usual size at the
    /// focused one, pushed in the workspace's own direction, which is normalized once more.
    pub open spec fn insertion(self, ws: workspace::WorkspaceView, hint: Direction) -> WindowTransaction {
        WindowTransaction::InsertTiled {
            id: WindowId(self.next_window_id),
            size: initial_size(),
            anchor: ws.focus_point(),
            seed_direction: ws.layout_direction_hint,
            hint,
        }
    }

    /// The state after a client has mapped a window, and whether the window was placed. The id is
    /// used up either way, unless the position of a pushed window must be found first.
    pub open spec fn mapped(self, hint: Direction, answers: Seq<Option<Point>>) -> (
        Self,
        Option<desktop::DesktopFault>,
    ) {
        let ws = self.desktop.shown(self.active_output)->0;
        match self.desktop.applied_window(ws.id, self.insertion(ws, hint), answers) {
            Ok(after) => (
                AsteraView {
                    desktop: after,
                    windows: self.windows.push(WindowId(self.next_window_id)),
                    next_window_id: (self.next_window_id + 1) as u64,
                    ..self
                },
                None,
            ),
            Err(fault) => if CommandFault::Desktop(fault).awaited() is Some {
                (self, Some(fault))
            } else {
                (
                    AsteraView { next_window_id: (self.next_window_id + 1) as u64, ..self },
                    Some(fault),
                )
            },
        }
    }

    /// The state after the active output has got another logical size; the same state where the
    /// size is invalid.
    pub open spec fn resized(self, size: Size) -> Self {
        let output = self.desktop.outputs[desktop::key(self.active_output)].output;
        if output.logical_size == size {
            self
        } else {
            match self.desktop.configured(
                self.active_output,
                output.physical_size,
                size,
                output.native_scale,
                output.transform,
            ) {
                Ok(after) => self.with_desktop(after),
                Err(_) => self,
            }
        }
    }
}

/// The desktop after the first `n` windows of a list have been taken away.
pub open spec fn without_windows(
    desktop: desktop::DesktopView,
    dead: Seq<WindowId>,
    n: int,
) -> desktop::DesktopView
    decreases n,
{
    if n <= 0 {
        desktop
    } else {
        let before = without_windows(desktop, dead, n - 1);
        match before.owner(dead[n - 1]) {
            Ok(ws) => match before.applied_window(
                ws,
                WindowTransaction::Remove { id: dead[n - 1] },
                Seq::empty(),
            ) {
                Ok(after) => after,
                Err(_) => before,
            },
            Err(_) => before,
        }
    }
}

/// The windows of a list that are not dead.
pub open spec fn living(windows: Seq<WindowId>, dead: Seq<WindowId>) -> Seq<WindowId>
    decreases windows.len(),
{
    if windows.len() == 0 {
        windows
    } else if dead.contains(windows.last()) {
        living(windows.drop_last(), dead)
    } else {
        living(windows.drop_last(), dead).push(windows.last())
    }
}

pub(crate) fn is_mapped(windows: &Vec<WindowId>, id: WindowId) -> (r: bool)
    ensures
        r == windows@.contains(id),
{
    let mut i: usize = 0;
    while i < windows.len()
        invariant
            i <= windows@.len(),
            forall|j: int| 0 <= j < i ==> windows@[j] != id,
        decreases windows@.len() - i,
    {
        if windows[i] == id {
            return true;
        }
        i = i + 1;
    }
    false
}

impl Astera {
    /// The state with one output, as a compositor in a window starts.
    pub fn new(gap: i64, policy: model::CameraPolicy) -> (r: Result<Self, DesktopError>)
        ensures
            match initial_desktop(gap, policy) {
                Ok(desktop) => r is Ok && r->Ok_0@ == (AsteraView {
                    desktop,
                    active_output: OutputId(0),
                    windows: Seq::empty(),
                    next_window_id: 1,
                    output_configuration_supported: true,
                }),
                Err(fault) => r is Err && r->Err_0@ == fault,
            },
    {
        let mut desktop: Desktop = Desktop::new(gap);
        let output: Output = Output::new(
            OutputId(0),
            "nested-output".to_owned(),
            Size { width: 1280, height: 720 },
        );
        match desktop.connect_output(output) {
            Ok(_) => {},
            Err(error) => {
                return Err(error);
            },
        }
        let none: [Option<Point>; 0] = [];
        assert(none@ =~= Seq::empty());
        match desktop.reconfigure_layout(gap, policy, &none) {
            Ok(()) => {},
            Err(error) => {
                return Err(error);
            },
        }
        let r = Astera {
            desktop,
            active_output: OutputId(0),
            windows: Vec::new(),
            next_window_id: 1,
            output_configuration_supported: true,
        };
        assert(r.windows@ =~= Seq::empty());
        Ok(r)
    }

    /// Takes in whether the backend can give outputs another geometry; where it cannot, commands
    /// that ask for it are refused.
    pub fn set_output_configuration_supported(&mut self, supported: bool)
        ensures
            final(self)@ == (AsteraView {
                output_configuration_supported: supported,
                ..old(self)@
            }),
    {
        self.output_configuration_supported = supported;
    }

    /// What a client is shown of the state.
    pub fn public_snapshot(&self) -> (r: DesktopSnapshot)
        requires
            snapshot::every_output_shows(self@.desktop),
        ensures
            r@ == self@.shown_state(),
    {
        DesktopSnapshot::from(&self.desktop).with_active_output(Some(self.active_output))
    }

    /// Does what a command says and answers it. A command that needs the position of a pushed
    /// window changes nothing and hands the push back, to be called again with the answer.
    pub fn execute_command(&mut self, command: Command, guidance: &Guidance, sequence: u64) -> (r:
        Result<Response, Push>)
        requires
            command@ is GetState ==> snapshot::every_output_shows(old(self)@.desktop),
        ensures
            match old(self)@.executed(command@, guidance@) {
                Ok(after) => final(self)@ == after && r is Ok && r->Ok_0@
                    == v1::ResponseView::Success(reply(command@, after, sequence)),
                Err(fault) => final(self)@ == old(self)@ && match fault.awaited() {
                    Some(push) => r is Err && r->Err_0@ == push,
                    None => r is Ok && r->Ok_0@ == v1::ResponseView::Error(
                        v1::ErrorView { code: fault.code(), message: fault.message(), sequence },
                    ),
                },
            },
    {
        let is_query: bool = matches!(command, Command::GetState);
        match self.execute_command_inner(command, guidance) {
            Ok(()) => if is_query {
                let snapshot: DesktopSnapshot = self.public_snapshot();
                Ok(Response::Success(Success::State { sequence, snapshot }))
            } else {
                Ok(Response::Success(Success::Handled { sequence }))
            },
            Err(error) => {
                let code: ErrorCode = error.code();
                let message: String = error.message();
                match error {
                    CommandError::Desktop(DesktopError::Layout(LayoutError::NeedsPosition(push))) =>
                        Err(push),
                    _ => Ok(Response::Error(v1::Error { code, message, sequence })),
                }
            },
        }
    }

    /// Places a window that a client maps on the workspace that the active output shows. The hint of
    /// that workspace comes along normalized.
    pub fn new_toplevel(&mut self, hint: Direction, answers: &[Option<Point>]) -> (r: Result<
        WindowId,
        DesktopError,
    >)
        requires
            old(self)@.desktop.shown(old(self)@.active_output) is Some,
            old(self)@.next_window_id < u64::MAX,
        ensures
            final(self)@ == old(self)@.mapped(hint, answers@).0,
            match old(self)@.mapped(hint, answers@).1 {
                None => r == Ok::<WindowId, DesktopError>(WindowId(old(self)@.next_window_id)),
                Some(fault) => r is Err && r->Err_0@ == fault,
            },
    {
        let id: WindowId = WindowId(self.next_window_id);
        let (ws, anchor, seed_direction): (WorkspaceId, Point, Direction) =
            match self.desktop.workspace_for_output(self.active_output) {
            Some(ws) => (ws.id, focus_point(ws), ws.layout_direction_hint),
            None => {
                assert(false);
                (WorkspaceId(0), Point::origin(), Direction::right())
            },
        };
        match self.desktop.apply_window(
            ws,
            WindowTransaction::InsertTiled {
                id,
                size: Size { width: 800, height: 600 },
                anchor,
                seed_direction,
                hint,
            },
            answers,
        ) {
            Ok(()) => {
                self.next_window_id = self.next_window_id + 1;
                self.windows.push(id);
                Ok(id)
            },
            Err(error) => {
                let waits: bool = match &error {
                    DesktopError::Layout(LayoutError::NeedsPosition(_)) => true,
                    _ => false,
                };
                if !waits {
                    self.next_window_id = self.next_window_id + 1;
                }
                Err(error)
            },
        }
    }

    /// Gives the active output another logical size.
    pub fn update_output_size(&mut self, width: i64, height: i64)
        requires
            old(self)@.desktop.outputs.contains_key(desktop::key(old(self)@.active_output)),
        ensures
            final(self)@ == old(self)@.resized(Size { width, height }),
    {
        let size: Size = Size { width, height };
        if let Some(output) = self.desktop.output(self.active_output) {
            let (physical, logical, scale, transform): (Size, Size, Scale120, OutputTransform) = (
                output.physical_size,
                output.logical_size,
                output.native_scale,
                output.transform,
            );
            if logical != size {
                match self.desktop.configure_output(
                    self.active_output,
                    physical,
                    size,
                    scale,
                    transform,
                ) {
                    Ok(()) => {},
                    Err(_) => {},
                }
            }
        }
    }

    /// Takes away the windows whose clients have gone.
    pub fn remove_dead_windows(&mut self, dead: &Vec<WindowId>)
        ensures
            final(self)@ == (AsteraView {
                desktop: without_windows(old(self)@.desktop, dead@, dead@.len() as int),
                windows: living(old(self)@.windows, dead@),
                ..old(self)@
            }),
    {
        let mut kept: Vec<WindowId> = Vec::new();
        let mut i: usize = 0;
        assert(kept@ =~= living(self.windows@.take(0), dead@));
        while i < self.windows.len()
            invariant
                i <= self.windows@.len(),
                self@ == old(self)@,
                kept@ == living(self.windows@.take(i as int), dead@),
            decreases self.windows@.len() - i,
        {
            let id: WindowId = self.windows[i];
            proof {
                let next = self.windows@.take(i + 1);
                assert(next.drop_last() =~= self.windows@.take(i as int));
                assert(next.last() == id);
            }
            if !is_mapped(dead, id) {
                kept.push(id);
            }
            i = i + 1;
        }
        assert(self.windows@.take(i as int) =~= self.windows@);
        self.windows = kept;
        let mut n: usize = 0;
        while n < dead.len()
            invariant
                n <= dead@.len(),
                self@ == (AsteraView {
                    desktop: without_windows(old(self)@.desktop, dead@, n as int),
                    windows: living(old(self)@.windows, dead@),
                    ..old(self)@
                }),
            decreases dead@.len() - n,
        {
            match self.desktop.find_window(dead[n]) {
                Ok(ws) => {
                    let none: [Option<Point>; 0] = [];
                    assert(none@ =~= Seq::empty());
                    match self.desktop.apply_window(
                        ws,
                        WindowTransaction::Remove { id: dead[n] },
                        &none,
                    ) {
                        Ok(()) => {},
                        Err(_) => {},
                    }
                },
                Err(_) => {},
            }
            n = n + 1;
        }
    }
}

} // verus!
