//! What the errors say.

use crate::desktop;
use crate::desktop::DesktopError;
use crate::ipc;
use crate::ipc::{FramingError, RequestDecodeError};
use crate::layout;
use crate::layout::LayoutError;
use crate::text;
use crate::text::{push_decimal, quote};
use vstd::prelude::*;

verus! {

/// A text with a number between two parts.
fn around_number(before: &str, n: u64, after: &str) -> (r: String)
    ensures
        r@ == before@ + text::decimal(n as int) + after@,
{
    let mut r: String = before.to_owned();
    push_decimal(&mut r, n);
    r.append(after);
    r
}

impl layout::LayoutFault {
    pub open spec fn message(self) -> Seq<char> {
        match self {
            layout::LayoutFault::DuplicateWindow(id) => "window WindowId("@ + text::decimal(
                id.0 as int,
            ) + ") already exists"@,
            layout::LayoutFault::UnknownWindow(id) => "window WindowId("@ + text::decimal(
                id.0 as int,
            ) + ") does not exist"@,
            layout::LayoutFault::InvalidSize => "window size must be positive"@,
            layout::LayoutFault::FullscreenOccupied(id) =>
                "workspace already has fullscreen window WindowId("@ + text::decimal(
                id.0 as int,
            ) + ")"@,
            layout::LayoutFault::MaximizedOccupied(id) =>
                "workspace already has maximized window WindowId("@ + text::decimal(id.0 as int)
                + ")"@,
            layout::LayoutFault::DidNotConverge(n) => "layout did not converge after "@
                + text::decimal(n) + " operations"@,
            layout::LayoutFault::UnstableResult => "solver produced an overlapping layout"@,
            layout::LayoutFault::NeedsPosition(push) => "layout needs a position for WindowId("@
                + text::decimal(push.window.0 as int) + ")"@,
        }
    }
}

impl LayoutError {
    pub fn message(&self) -> (r: String)
        ensures
            r@ == self@.message(),
    {
        match self {
            LayoutError::DuplicateWindow(id) => around_number(
                "window WindowId(",
                id.0,
                ") already exists",
            ),
            LayoutError::UnknownWindow(id) => around_number(
                "window WindowId(",
                id.0,
                ") does not exist",
            ),
            LayoutError::InvalidSize => "window size must be positive".to_owned(),
            LayoutError::FullscreenOccupied(id) => around_number(
                "workspace already has fullscreen window WindowId(",
                id.0,
                ")",
            ),
            LayoutError::MaximizedOccupied(id) => around_number(
                "workspace already has maximized window WindowId(",
                id.0,
                ")",
            ),
            LayoutError::DidNotConverge(n) => around_number(
                "layout did not converge after ",
                *n as u64,
                " operations",
            ),
            LayoutError::UnstableResult => "solver produced an overlapping layout".to_owned(),
            LayoutError::NeedsPosition(push) => around_number(
                "layout needs a position for WindowId(",
                push.window.0,
                ")",
            ),
        }
    }
}

impl desktop::DesktopFault {
    pub open spec fn message(self) -> Seq<char> {
        match self {
            desktop::DesktopFault::UnknownWorkspace(id) => "workspace WorkspaceId("@
                + text::decimal(id.0 as int) + ") does not exist"@,
            desktop::DesktopFault::UnknownOutput(id) => "output OutputId("@ + text::decimal(
                id.0 as int,
            ) + ") does not exist"@,
            desktop::DesktopFault::UnknownWindow(id) => "window WindowId("@ + text::decimal(
                id.0 as int,
            ) + ") does not exist"@,
            desktop::DesktopFault::DuplicateWorkspaceName(name) => "workspace name "@
                + text::quoted(name) + " is already in use"@,
            desktop::DesktopFault::DuplicateOutputStableKey(key) => "output stable key "@
                + text::quoted(key) + " is already connected"@,
            desktop::DesktopFault::InvalidOutputSize =>
                "output physical and logical sizes must be positive"@,
            desktop::DesktopFault::InvalidOutputScale => "output scale must be greater than zero"@,
            desktop::DesktopFault::InvalidWorkspaceState(id) => "workspace WorkspaceId("@
                + text::decimal(id.0 as int)
                + ") contains inconsistent window or focus state"@,
            desktop::DesktopFault::DuplicateWindow { window, first, second } =>
                "window WindowId("@ + text::decimal(window.0 as int)
                + ") exists in multiple workspaces WorkspaceId("@ + text::decimal(first.0 as int)
                + ") and WorkspaceId("@ + text::decimal(second.0 as int) + ")"@,
            desktop::DesktopFault::Layout(fault) => fault.message(),
        }
    }
}

impl DesktopError {
    pub fn message(&self) -> (r: String)
        ensures
            r@ == self@.message(),
    {
        match self {
            DesktopError::UnknownWorkspace(id) => around_number(
                "workspace WorkspaceId(",
                id.0 as u64,
                ") does not exist",
            ),
            DesktopError::UnknownOutput(id) => around_number(
                "output OutputId(",
                id.0 as u64,
                ") does not exist",
            ),
            DesktopError::UnknownWindow(id) => around_number(
                "window WindowId(",
                id.0,
                ") does not exist",
            ),
            DesktopError::DuplicateWorkspaceName(name) => {
                let mut r: String = "workspace name ".to_owned();
                r.append(quote(name.as_str()).as_str());
                r.append(" is already in use");
                r
            },
            DesktopError::DuplicateOutputStableKey(key) => {
                let mut r: String = "output stable key ".to_owned();
                r.append(quote(key.as_str()).as_str());
                r.append(" is already connected");
                r
            },
            DesktopError::InvalidOutputSize =>
                "output physical and logical sizes must be positive".to_owned(),
            DesktopError::InvalidOutputScale => "output scale must be greater than zero".to_owned(),
            DesktopError::InvalidWorkspaceState(id) => around_number(
                "workspace WorkspaceId(",
                id.0 as u64,
                ") contains inconsistent window or focus state",
            ),
            DesktopError::DuplicateWindow { window, first, second } => {
                let mut r: String = around_number(
                    "window WindowId(",
                    window.0,
                    ") exists in multiple workspaces WorkspaceId(",
                );
                push_decimal(&mut r, first.0 as u64);
                r.append(") and WorkspaceId(");
                push_decimal(&mut r, second.0 as u64);
                r.append(")");
                r
            },
            DesktopError::Layout(error) => error.message(),
        }
    }
}

impl ipc::FramingFault {
    pub open spec fn message(self) -> Seq<char> {
        match self {
            ipc::FramingFault::InvalidFrame => "IPC frame must be `<version> <RON>\\n`"@,
            ipc::FramingFault::VersionMismatch { expected, actual } => "IPC frame version "@
                + text::decimal(actual as int) + " does not match expected version "@
                + text::decimal(expected as int),
            ipc::FramingFault::InvalidPayload(message) => "invalid RON payload: "@ + message,
        }
    }
}

impl FramingError {
    pub fn message(&self) -> (r: String)
        ensures
            r@ == self@.message(),
    {
        match self {
            FramingError::InvalidFrame => "IPC frame must be `<version> <RON>\\n`".to_owned(),
            FramingError::VersionMismatch { expected, actual } => {
                let mut r: String = around_number(
                    "IPC frame version ",
                    *actual as u64,
                    " does not match expected version ",
                );
                push_decimal(&mut r, *expected as u64);
                r
            },
            FramingError::InvalidPayload(message) => {
                let mut r: String = "invalid RON payload: ".to_owned();
                r.append(message.as_str());
                r
            },
        }
    }
}

impl RequestDecodeError {
    pub open spec fn text(self) -> Seq<char> {
        match self {
            RequestDecodeError::Framing(error) => error@.message(),
            RequestDecodeError::UnsupportedVersion { requested, minimum, current } =>
                "IPC protocol version "@ + text::decimal(requested as int)
                + " is unsupported (supported "@ + text::decimal(minimum as int) + "..="@
                + text::decimal(current as int) + ")"@,
        }
    }

    pub fn message(&self) -> (r: String)
        ensures
            r@ == self.text(),
    {
        match self {
            RequestDecodeError::Framing(error) => error.message(),
            RequestDecodeError::UnsupportedVersion { requested, minimum, current } => {
                let mut r: String = around_number(
                    "IPC protocol version ",
                    *requested as u64,
                    " is unsupported (supported ",
                );
                push_decimal(&mut r, *minimum as u64);
                r.append("..=");
                push_decimal(&mut r, *current as u64);
                r.append(")");
                r
            },
        }
    }
}

} // verus!
