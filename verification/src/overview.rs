//! The desktop as a text for people.

use crate::rounding;
use crate::rounding::{divide, round_even};
use crate::text;
use crate::text::{push_decimal, push_signed};
use crate::wire::v1;
use crate::wire::v1::{DesktopSnapshot, OutputSnapshot, OutputTransform, WorkspaceSnapshot};
use vstd::prelude::*;

verus! {

/// A scale in hundredths: the binary64 number nearest to the quotient, rounded, ties to even.
pub open spec fn hundredths(scale: u32) -> int {
    if scale == 0 {
        0
    } else {
        rounding::nearest_even(
            100 * rounding::quotient(scale as int, 120),
            rounding::quotient_scale(scale as int, 120),
        )
    }
}

/// A scale as a factor with two decimals.
pub open spec fn scale_text(scale: u32) -> Seq<char> {
    let n = hundredths(scale);
    text::decimal(n / 100) + "."@ + seq![text::digit((n / 10) % 10)] + seq![text::digit(n % 10)]
}

pub open spec fn transform_text(transform: OutputTransform) -> Seq<char> {
    match transform {
        OutputTransform::Normal => "Normal"@,
        OutputTransform::Rotate90 => "Rotate90"@,
        OutputTransform::Rotate180 => "Rotate180"@,
        OutputTransform::Rotate270 => "Rotate270"@,
        OutputTransform::Flipped => "Flipped"@,
    }
}

pub open spec fn window_text(id: Option<v1::WindowId>) -> Seq<char> {
    match id {
        Some(id) => "Some("@ + text::decimal(id.0 as int) + ")"@,
        None => "None"@,
    }
}

/// The mark of the active output.
pub open spec fn mark(output: v1::OutputId, active: Option<v1::OutputId>) -> Seq<char> {
    if active == Some(output) {
        " *"@
    } else {
        ""@
    }
}

pub open spec fn output_line(output: v1::OutputSnapshotView, active: Option<v1::OutputId>) -> Seq<
    char,
> {
    "  "@ + output.stable_key + mark(output.id, active) + ": workspace "@ + text::decimal(
        output.active_workspace.0 as int,
    ) + ", "@ + text::decimal(output.workspaces.len() as int) + " total, "@ + text::signed_decimal(
        output.logical_size.width as int,
    ) + "x"@ + text::signed_decimal(output.logical_size.height as int) + " logical, "@ + scale_text(
        output.native_scale.0,
    ) + "x, "@ + transform_text(output.transform) + "\n"@
}

/// Where a workspace is.
pub open spec fn place_text(ws: v1::WorkspaceSnapshotView) -> Seq<char> {
    match (ws.output, ws.local_index) {
        (Some(output), Some(index)) => "output "@ + text::decimal(output.0 as int) + " index "@
            + text::decimal(index as int),
        _ => "background"@,
    }
}

pub open spec fn name_text(name: Option<Seq<char>>) -> Seq<char> {
    match name {
        Some(name) => " ("@ + name + ")"@,
        None => ""@,
    }
}

pub open spec fn workspace_line(ws: v1::WorkspaceSnapshotView) -> Seq<char> {
    "  "@ + text::decimal(ws.id.0 as int) + name_text(ws.name) + ": "@ + place_text(ws)
        + ", focus "@ + window_text(ws.active_window) + ", tiled "@ + text::decimal(
        ws.tiled_count as int,
    ) + ", floating "@ + text::decimal(ws.floating_count as int) + ", fullscreen "@ + window_text(
        ws.fullscreen,
    ) + "\n"@
}

/// The lines of the first `n` outputs.
pub open spec fn output_lines(
    list: Seq<v1::OutputSnapshotView>,
    n: int,
    active: Option<v1::OutputId>,
) -> Seq<char>
    decreases n,
{
    if n <= 0 {
        Seq::empty()
    } else {
        output_lines(list, n - 1, active) + output_line(list[n - 1], active)
    }
}

/// The lines of the first `n` workspaces.
pub open spec fn workspace_lines(list: Seq<v1::WorkspaceSnapshotView>, n: int) -> Seq<char>
    decreases n,
{
    if n <= 0 {
        Seq::empty()
    } else {
        workspace_lines(list, n - 1) + workspace_line(list[n - 1])
    }
}

pub open spec fn overview(snapshot: v1::SnapshotView) -> Seq<char> {
    "Outputs\n"@ + output_lines(
        snapshot.outputs,
        snapshot.outputs.len() as int,
        snapshot.active_output,
    ) + "Workspaces\n"@ + workspace_lines(
        snapshot.workspaces,
        snapshot.workspaces.len() as int,
    )
}

/// Adds a scale as a factor with two decimals.
pub fn push_scale(text: &mut String, scale: u32)
    ensures
        final(text)@ == old(text)@ + scale_text(scale),
{
    let n: u64 = if scale == 0 {
        0
    } else {
        let (q, d): (u64, u128) = divide(scale as u64, 120);
        round_even(100 * q as u128, d) as u64
    };
    let ghost start = text@;
    push_decimal(text, n / 100);
    text.append(".");
    let tens: u64 = (n / 10) % 10;
    let ones: u64 = n % 10;
    push_decimal(text, tens);
    push_decimal(text, ones);
    assert(text::decimal(tens as int) =~= seq![text::digit(tens as int)]);
    assert(text::decimal(ones as int) =~= seq![text::digit(ones as int)]);
    assert(text@ =~= start + scale_text(scale));
}

pub(crate) fn transform_name(transform: OutputTransform) -> (r: &'static str)
    ensures
        r@ == transform_text(transform),
{
    match transform {
        OutputTransform::Normal => "Normal",
        OutputTransform::Rotate90 => "Rotate90",
        OutputTransform::Rotate180 => "Rotate180",
        OutputTransform::Rotate270 => "Rotate270",
        OutputTransform::Flipped => "Flipped",
    }
}

pub(crate) fn push_window(text: &mut String, id: Option<v1::WindowId>)
    ensures
        final(text)@ == old(text)@ + window_text(id),
{
    match id {
        Some(id) => {
            let ghost start = text@;
            text.append("Some(");
            push_decimal(text, id.0);
            text.append(")");
            assert(text@ =~= start + window_text(Some(id)));
        },
        None => text.append("None"),
    }
}

fn push_output(text: &mut String, output: &OutputSnapshot, active: Option<v1::OutputId>)
    ensures
        final(text)@ == old(text)@ + output_line(output@, active),
{
    let ghost start = text@;
    text.append("  ");
    text.append(output.stable_key.as_str());
    let is_active: bool = match active {
        Some(id) => id == output.id,
        None => false,
    };
    text.append(if is_active { " *" } else { "" });
    text.append(": workspace ");
    push_decimal(text, output.active_workspace.0 as u64);
    text.append(", ");
    push_decimal(text, output.workspaces.len() as u64);
    text.append(" total, ");
    push_signed(text, output.logical_size.width);
    text.append("x");
    push_signed(text, output.logical_size.height);
    text.append(" logical, ");
    push_scale(text, output.native_scale.0);
    text.append("x, ");
    text.append(transform_name(output.transform));
    text.append("\n");
    assert(text@ =~= start + output_line(output@, active));
}

fn push_name(text: &mut String, name: &Option<String>)
    ensures
        final(text)@ == old(text)@ + name_text(text::characters(*name)),
{
    let ghost start = text@;
    match name {
        Some(name) => {
            text.append(" (");
            text.append(name.as_str());
            text.append(")");
        },
        None => text.append(""),
    }
    assert(text@ =~= start + name_text(text::characters(*name)));
}

fn push_place(text: &mut String, ws: &WorkspaceSnapshot)
    ensures
        final(text)@ == old(text)@ + place_text(ws@),
{
    let ghost start = text@;
    match (ws.output, ws.local_index) {
        (Some(output), Some(index)) => {
            text.append("output ");
            push_decimal(text, output.0 as u64);
            text.append(" index ");
            push_decimal(text, index as u64);
        },
        _ => text.append("background"),
    }
    assert(text@ =~= start + place_text(ws@));
}

fn push_workspace(text: &mut String, ws: &WorkspaceSnapshot)
    ensures
        final(text)@ == old(text)@ + workspace_line(ws@),
{
    let ghost start = text@;
    text.append("  ");
    push_decimal(text, ws.id.0 as u64);
    push_name(text, &ws.name);
    text.append(": ");
    push_place(text, ws);
    text.append(", focus ");
    push_window(text, ws.active_window);
    text.append(", tiled ");
    push_decimal(text, ws.tiled_count);
    text.append(", floating ");
    push_decimal(text, ws.floating_count);
    text.append(", fullscreen ");
    push_window(text, ws.fullscreen);
    text.append("\n");
    assert(text@ =~= start + workspace_line(ws@));
}

/// The desktop as a text for people.
pub fn format_overview(snapshot: &DesktopSnapshot) -> (r: String)
    ensures
        r@ == overview(snapshot@),
{
    let mut r: String = "Outputs\n".to_owned();
    let ghost outputs = snapshot@.outputs;
    let ghost workspaces = snapshot@.workspaces;
    let mut i: usize = 0;
    assert(r@ =~= "Outputs\n"@ + output_lines(outputs, 0, snapshot@.active_output));
    while i < snapshot.outputs.len()
        invariant
            i <= snapshot.outputs@.len(),
            outputs == snapshot@.outputs,
            r@ == "Outputs\n"@ + output_lines(outputs, i as int, snapshot@.active_output),
        decreases snapshot.outputs@.len() - i,
    {
        assert(outputs[i as int] == snapshot.outputs@[i as int]@);
        push_output(&mut r, &snapshot.outputs[i], snapshot.active_output);
        i = i + 1;
        assert(r@ =~= "Outputs\n"@ + output_lines(outputs, i as int, snapshot@.active_output));
    }
    r.append("Workspaces\n");
    let ghost start = r@;
    let mut n: usize = 0;
    assert(r@ =~= start + workspace_lines(workspaces, 0));
    while n < snapshot.workspaces.len()
        invariant
            n <= snapshot.workspaces@.len(),
            workspaces == snapshot@.workspaces,
            r@ == start + workspace_lines(workspaces, n as int),
        decreases snapshot.workspaces@.len() - n,
    {
        assert(workspaces[n as int] == snapshot.workspaces@[n as int]@);
        push_workspace(&mut r, &snapshot.workspaces[n]);
        n = n + 1;
        assert(r@ =~= start + workspace_lines(workspaces, n as int));
    }
    r
}

} // verus!
