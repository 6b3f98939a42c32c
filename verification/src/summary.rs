//! A shorter view of the desktop, for a client that only looks.

use crate::geometry::Size;
use crate::listing;
use crate::model::{OutputId, WindowId, WorkspaceId};
use crate::outputs::{OutputTransform, Scale120};
use crate::overview;
use crate::overview::{push_scale, push_window, transform_name};
use crate::snapshot;
use crate::text;
use crate::text::{push_decimal, push_signed};
use crate::wire::v1;
use vstd::prelude::*;

verus! {

#[derive(Debug, Eq, PartialEq)]
pub struct OutputSnapshot {
    pub id: OutputId,
    pub stable_key: String,
    pub workspace: Option<WorkspaceId>,
    pub physical_size: Size,
    pub logical_size: Size,
    pub native_scale: Scale120,
    pub transform: OutputTransform,
}

#[verifier::ext_equal]
pub struct OutputView {
    pub id: OutputId,
    pub stable_key: Seq<char>,
    pub workspace: Option<WorkspaceId>,
    pub physical_size: Size,
    pub logical_size: Size,
    pub native_scale: Scale120,
    pub transform: OutputTransform,
}

impl View for OutputSnapshot {
    type V = OutputView;

    open spec fn view(&self) -> OutputView {
        OutputView {
            id: self.id,
            stable_key: self.stable_key@,
            workspace: self.workspace,
            physical_size: self.physical_size,
            logical_size: self.logical_size,
            native_scale: self.native_scale,
            transform: self.transform,
        }
    }
}

#[derive(Clone, Copy, Debug, Eq, PartialEq, Structural)]
pub struct WorkspaceSnapshot {
    pub id: WorkspaceId,
    pub output: Option<OutputId>,
    pub focused_window: Option<WindowId>,
    pub tiled_count: u64,
    pub floating_count: u64,
    pub fullscreen: Option<WindowId>,
}

#[derive(Debug, Eq, PartialEq)]
pub struct DesktopSnapshot {
    pub active_output: Option<OutputId>,
    pub outputs: Vec<OutputSnapshot>,
    pub workspaces: Vec<WorkspaceSnapshot>,
}

#[verifier::ext_equal]
pub struct SummaryView {
    pub active_output: Option<OutputId>,
    pub outputs: Seq<OutputView>,
    pub workspaces: Seq<WorkspaceSnapshot>,
}

impl View for DesktopSnapshot {
    type V = SummaryView;

    open spec fn view(&self) -> SummaryView {
        SummaryView {
            active_output: self.active_output,
            outputs: listing::each(self.outputs@),
            workspaces: self.workspaces@,
        }
    }
}

/// The workspace that an output shows.
pub open spec fn shown_text(workspace: Option<WorkspaceId>) -> Seq<char> {
    match workspace {
        Some(id) => text::decimal(id.0 as int),
        None => "none"@,
    }
}

pub open spec fn output_line(output: OutputView, active: Option<OutputId>) -> Seq<char> {
    "  "@ + output.stable_key + (if active == Some(output.id) {
        " *"@
    } else {
        ""@
    }) + ": workspace "@ + shown_text(output.workspace) + ", "@ + text::signed_decimal(
        output.logical_size.width as int,
    ) + "x"@ + text::signed_decimal(output.logical_size.height as int) + " logical, "@
        + overview::scale_text(output.native_scale.0) + "x, "@ + overview::transform_text(
        snapshot::wire_transform(output.transform),
    ) + "\n"@
}

/// Where a workspace is.
pub open spec fn place_text(output: Option<OutputId>) -> Seq<char> {
    match output {
        Some(id) => "output "@ + text::decimal(id.0 as int),
        None => "background"@,
    }
}

pub open spec fn workspace_line(ws: WorkspaceSnapshot) -> Seq<char> {
    "  "@ + text::decimal(ws.id.0 as int) + ": "@ + place_text(ws.output) + ", focus "@
        + overview::window_text(snapshot::wire_window(ws.focused_window)) + ", tiled "@
        + text::decimal(ws.tiled_count as int) + ", floating "@ + text::decimal(
        ws.floating_count as int,
    ) + ", fullscreen "@ + overview::window_text(snapshot::wire_window(ws.fullscreen)) + "\n"@
}

/// The lines of the first `n` outputs.
pub open spec fn output_lines(list: Seq<OutputView>, n: int, active: Option<OutputId>) -> Seq<char>
    decreases n,
{
    if n <= 0 {
        Seq::empty()
    } else {
        output_lines(list, n - 1, active) + output_line(list[n - 1], active)
    }
}

/// The lines of the first `n` workspaces.
pub open spec fn workspace_lines(list: Seq<WorkspaceSnapshot>, n: int) -> Seq<char>
    decreases n,
{
    if n <= 0 {
        Seq::empty()
    } else {
        workspace_lines(list, n - 1) + workspace_line(list[n - 1])
    }
}

pub open spec fn summary(desktop: SummaryView) -> Seq<char> {
    "Outputs\n"@ + output_lines(
        desktop.outputs,
        desktop.outputs.len() as int,
        desktop.active_output,
    ) + "Workspaces\n"@ + workspace_lines(desktop.workspaces, desktop.workspaces.len() as int)
}

fn push_shown(text: &mut String, workspace: Option<WorkspaceId>)
    ensures
        final(text)@ == old(text)@ + shown_text(workspace),
{
    match workspace {
        Some(id) => push_decimal(text, id.0 as u64),
        None => text.append("none"),
    }
}

fn push_output(text: &mut String, output: &OutputSnapshot, active: Option<OutputId>)
    ensures
        final(text)@ == old(text)@ + output_line(output@, active),
{
    let ghost start = text@;
    text.append("  ");
    text.append(output.stable_key.as_str());
    let is_active: bool = match active {
        Some(id) => id == output.id,
        None => false,
    };
    text.append(if is_active { " *" } else { "" });
    text.append(": workspace ");
    push_shown(text, output.workspace);
    text.append(", ");
    push_signed(text, output.logical_size.width);
    text.append("x");
    push_signed(text, output.logical_size.height);
    text.append(" logical, ");
    push_scale(text, output.native_scale.0);
    text.append("x, ");
    text.append(transform_name(v1::OutputTransform::from(output.transform)));
    text.append("\n");
    assert(text@ =~= start + output_line(output@, active));
}

fn push_place(text: &mut String, output: Option<OutputId>)
    ensures
        final(text)@ == old(text)@ + place_text(output),
{
    let ghost start = text@;
    match output {
        Some(id) => {
            text.append("output ");
            push_decimal(text, id.0 as u64);
        },
        None => text.append("background"),
    }
    assert(text@ =~= start + place_text(output));
}

fn push_id(text: &mut String, id: Option<WindowId>)
    ensures
        final(text)@ == old(text)@ + overview::window_text(snapshot::wire_window(id)),
{
    match id {
        Some(id) => push_window(text, Some(v1::WindowId::from(id))),
        None => push_window(text, None),
    }
}

fn format_workspace(text: &mut String, ws: &WorkspaceSnapshot)
    ensures
        final(text)@ == old(text)@ + workspace_line(*ws),
{
    let ghost start = text@;
    text.append("  ");
    push_decimal(text, ws.id.0 as u64);
    text.append(": ");
    push_place(text, ws.output);
    text.append(", focus ");
    push_id(text, ws.focused_window);
    text.append(", tiled ");
    push_decimal(text, ws.tiled_count);
    text.append(", floating ");
    push_decimal(text, ws.floating_count);
    text.append(", fullscreen ");
    push_id(text, ws.fullscreen);
    text.append("\n");
    assert(text@ =~= start + workspace_line(*ws));
}

/// The desktop as a text for people.
pub fn format_overview(snapshot: &DesktopSnapshot) -> (r: String)
    ensures
        r@ == summary(snapshot@),
{
    let mut r: String = "Outputs\n".to_owned();
    let ghost outputs = snapshot@.outputs;
    let ghost active = snapshot@.active_output;
    let mut i: usize = 0;
    assert(r@ =~= "Outputs\n"@ + output_lines(outputs, 0, active));
    while i < snapshot.outputs.len()
        invariant
            i <= snapshot.outputs@.len(),
            outputs == snapshot@.outputs,
            active == snapshot@.active_output,
            r@ == "Outputs\n"@ + output_lines(outputs, i as int, active),
        decreases snapshot.outputs@.len() - i,
    {
        assert(outputs[i as int] == snapshot.outputs@[i as int]@);
        push_output(&mut r, &snapshot.outputs[i], snapshot.active_output);
        i = i + 1;
        assert(r@ =~= "Outputs\n"@ + output_lines(outputs, i as int, active));
    }
    r.append("Workspaces\n");
    let ghost start = r@;
    let mut n: usize = 0;
    assert(r@ =~= start + workspace_lines(snapshot.workspaces@, 0));
    while n < snapshot.workspaces.len()
        invariant
            n <= snapshot.workspaces@.len(),
            r@ == start + workspace_lines(snapshot.workspaces@, n as int),
        decreases snapshot.workspaces@.len() - n,
    {
        format_workspace(&mut r, &snapshot.workspaces[n]);
        n = n + 1;
        assert(r@ =~= start + workspace_lines(snapshot.workspaces@, n as int));
    }
    r
}

} // verus!
