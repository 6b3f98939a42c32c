//! Where workspaces and windows go when they are moved, and what becomes of their outputs.

use crate::desktop;
use crate::geometry::Size;
use crate::model::{OutputId, WorkspaceId};
use crate::outputs::{OutputTransform, Scale120};
use crate::viewport_laws;
use vstd::prelude::*;

verus! {

/// A workspace that is moved to another output stands there at the index that was asked for, and
/// behind the one that is shown where none was, in front of the last in any case. The workspaces in
/// front of it keep their places, and those behind it move on by one. The output shows the
/// workspace that it showed, unless the moved one is to be shown. The workspace belongs to the
/// output from then on, and has the windows and the name that it had.
pub proof fn moved_workspaces_stand_where_asked(
    d: desktop::DesktopView,
    workspace: WorkspaceId,
    target: OutputId,
    index: Option<usize>,
    activate: bool,
    place: (Option<u64>, int),
)
    requires
        d.place(workspace) == Some(place),
        place.0 != Some(desktop::key(target)),
        d.outputs.contains_key(target.0 as u64),
        d.outputs[target.0 as u64].workspaces.len() > 0,
        d.outputs[target.0 as u64].workspaces.len() < usize::MAX,
        d.outputs[target.0 as u64].active < d.outputs[target.0 as u64].workspaces.len(),
    ensures
        d.relocated(workspace, target, index, activate) is Ok,
        ({
            let old_set = d.outputs[target.0 as u64];
            let new_set = d.relocated(workspace, target, index, activate)->Ok_0.outputs[
                target.0 as u64
            ];
            let (n, a) = (old_set.workspaces.len() as int, old_set.active as int);
            let moved = d.at(place);
            exists|i: int|
                {
                    &&& 0 <= i < n
                    &&& index matches Some(wanted) ==> i == wanted || (i == n - 1 && wanted > n - 1)
                    &&& index is None ==> i == a + 1 || (i == n - 1 && a == n - 1)
                    &&& new_set.workspaces.len() == n + 1
                    &&& (#[trigger] new_set.workspaces[i]).id == moved.id
                    &&& new_set.workspaces[i].name == moved.name
                    &&& new_set.workspaces[i].tiled == moved.tiled
                    &&& new_set.workspaces[i].floating.dom() == moved.floating.dom()
                    &&& new_set.workspaces[i].camera == moved.camera
                    &&& new_set.workspaces[i].focused_window == moved.focused_window
                    &&& new_set.workspaces[i].original_output == Some(old_set.output.stable_key)
                    &&& forall|j: int|
                        0 <= j < i ==> (#[trigger] new_set.workspaces[j]) == old_set.workspaces[j]
                    &&& forall|j: int|
                        i < j <= n ==> (#[trigger] new_set.workspaces[j]) == old_set.workspaces[j
                            - 1]
                    &&& new_set.output == old_set.output
                    &&& activate ==> new_set.active == i
                    &&& !activate ==> 0 <= new_set.active <= n && new_set.workspaces[
                        new_set.active as int
                    ] == old_set.workspaces[a]
                }
        }),
{
    let old_set = d.outputs[target.0 as u64];
    let after = d.relocated(workspace, target, index, activate)->Ok_0;
    let new_set = after.outputs[target.0 as u64];
    let (n, a) = (old_set.workspaces.len() as int, old_set.active as int);
    let i: int = match index {
        Some(wanted) => if wanted < n - 1 {
            wanted as int
        } else {
            n - 1
        },
        None => if a + 1 < n - 1 {
            a + 1
        } else {
            n - 1
        },
    };
    let moved = d.at(place);
    assert(d.without_at(place).outputs[target.0 as u64] == old_set);
    assert(new_set.workspaces[i].id == moved.id);
    assert(new_set.workspaces[i].floating.dom() =~= moved.floating.dom());
}

/// A workspace that is moved leaves its output: the workspaces that stay keep their order. The
/// output goes on showing what it showed; where the workspace that leaves was shown, it shows the
/// one in front of it, or the first. All other outputs stay as they are.
pub proof fn moved_workspaces_leave_their_outputs(
    d: desktop::DesktopView,
    workspace: WorkspaceId,
    target: OutputId,
    index: Option<usize>,
    activate: bool,
    source: u64,
    i: int,
    other: u64,
)
    requires
        d.place(workspace) == Some((Some(source), i)),
        source != target.0 as u64,
        d.outputs.contains_key(target.0 as u64),
        d.outputs.contains_key(source),
        0 <= i < d.outputs[source].workspaces.len(),
        d.outputs[source].active < d.outputs[source].workspaces.len(),
        d.outputs.contains_key(other),
        other != source,
        other != target.0 as u64,
    ensures
        ({
            let after = d.relocated(workspace, target, index, activate)->Ok_0;
            let (had, has) = (d.outputs[source], after.outputs[source]);
            let a = had.active as int;
            &&& after.outputs.contains_key(source)
            &&& has.output == had.output
            &&& has.workspaces.len() == had.workspaces.len() - 1
            &&& forall|j: int| 0 <= j < i ==> (#[trigger] has.workspaces[j]) == had.workspaces[j]
            &&& forall|j: int|
                i <= j < has.workspaces.len() ==> (#[trigger] has.workspaces[j])
                    == had.workspaces[j + 1]
            &&& i != a ==> has.workspaces[has.active as int] == had.workspaces[a]
            &&& i == a && a > 0 && has.workspaces.len() > 0 ==> has.workspaces[has.active as int]
                == had.workspaces[a - 1]
            &&& i == a && a == 0 ==> has.active == 0
            &&& after.outputs.contains_key(other) && after.outputs[other] == d.outputs[other]
            &&& after.detached == d.detached
            &&& after.primary_output == d.primary_output
        }),
{
}

/// A workspace that is moved within its output stands at the index that was asked for among the
/// others, and behind the one that is then shown where none was, in front of the last in any case.
/// The others keep their order.
pub proof fn workspaces_move_within_their_outputs(
    d: desktop::DesktopView,
    workspace: WorkspaceId,
    target: OutputId,
    index: Option<usize>,
    activate: bool,
    from: int,
)
    requires
        d.place(workspace) == Some((Some(target.0 as u64), from)),
        d.outputs.contains_key(target.0 as u64),
        0 <= from < d.outputs[target.0 as u64].workspaces.len(),
        1 < d.outputs[target.0 as u64].workspaces.len() < usize::MAX,
        d.outputs[target.0 as u64].active < d.outputs[target.0 as u64].workspaces.len(),
    ensures
        ({
            let had = d.outputs[target.0 as u64];
            let has = d.relocated(workspace, target, index, activate)->Ok_0.outputs[
                target.0 as u64
            ];
            let others = had.workspaces.remove(from);
            let n = others.len() as int;
            let a = had.active as int;
            let shown = if from < a || (from == a && a > 0) {
                a - 1
            } else {
                a
            };
            exists|i: int|
                {
                    &&& 0 <= i < n
                    &&& index matches Some(wanted) ==> i == wanted || (i == n - 1 && wanted > n - 1)
                    &&& index is None ==> i == shown + 1 || (i == n - 1 && shown == n - 1)
                    &&& has.workspaces.len() == n + 1
                    &&& (#[trigger] has.workspaces[i]).id == had.workspaces[from].id
                    &&& has.workspaces[i].tiled == had.workspaces[from].tiled
                    &&& forall|j: int| 0 <= j < i ==> (#[trigger] has.workspaces[j]) == others[j]
                    &&& forall|j: int|
                        i < j <= n ==> (#[trigger] has.workspaces[j]) == others[j - 1]
                    &&& activate ==> has.active == i
                    &&& !activate ==> 0 <= has.active <= n && has.workspaces[has.active as int]
                        == others[shown]
                }
        }),
{
    let had = d.outputs[target.0 as u64];
    let has = d.relocated(workspace, target, index, activate)->Ok_0.outputs[target.0 as u64];
    let others = had.workspaces.remove(from);
    let n = others.len() as int;
    let a = had.active as int;
    let shown = if from < a || (from == a && a > 0) {
        a - 1
    } else {
        a
    };
    let left = d.without_at((Some(target.0 as u64), from)).outputs[target.0 as u64];
    assert(left.workspaces == others);
    assert(left.active == shown);
    let i: int = match index {
        Some(wanted) => if wanted < n - 1 {
            wanted as int
        } else {
            n - 1
        },
        None => if shown + 1 < n - 1 {
            shown + 1
        } else {
            n - 1
        },
    };
    assert(0 <= i < n);
    assert(has.workspaces.len() == n + 1);
    assert(has.workspaces =~= others.insert(i, has.workspaces[i]));
    assert(has.workspaces[i].id == had.workspaces[from].id);
}

/// A move is refused just when there is no such output or no such workspace.
pub proof fn known_workspaces_move(
    d: desktop::DesktopView,
    workspace: WorkspaceId,
    target: OutputId,
    index: Option<usize>,
    activate: bool,
)
    ensures
        match d.relocated(workspace, target, index, activate) {
            Ok(_) => d.outputs.contains_key(target.0 as u64) && d.place(workspace) is Some,
            Err(fault) => if d.outputs.contains_key(target.0 as u64) {
                d.place(workspace) is None && fault == desktop::DesktopFault::UnknownWorkspace(
                    workspace,
                )
            } else {
                fault == desktop::DesktopFault::UnknownOutput(target)
            },
        },
{
}

/// An output whose size changes carries its floating windows along: each that fits into the new size
/// lies wholly inside the new viewport and keeps its place in proportion, as far as the edges let
/// it. The tiled windows, the focus and the cameras stay, and so does every other output. The
/// output has the geometry that it was given.
pub proof fn configured_outputs_carry_their_windows(
    d: desktop::DesktopView,
    output: OutputId,
    physical_size: Size,
    logical_size: Size,
    native_scale: Scale120,
    transform: OutputTransform,
    i: int,
    id: u64,
    other: u64,
)
    requires
        d.configured(output, physical_size, logical_size, native_scale, transform) is Ok,
        d.outputs[output.0 as u64].output.logical_size.valid(),
        0 <= i < d.outputs[output.0 as u64].workspaces.len(),
        d.outputs[output.0 as u64].workspaces[i].floating.contains_key(id),
        ({
            let rect = d.outputs[output.0 as u64].workspaces[i].floating[id].viewport.rect;
            &&& 0 <= rect.size.width <= logical_size.width
            &&& 0 <= rect.size.height <= logical_size.height
        }),
        other != output.0 as u64,
    ensures
        ({
            let after = d.configured(
                output,
                physical_size,
                logical_size,
                native_scale,
                transform,
            )->Ok_0;
            let had = d.outputs[output.0 as u64];
            let has = after.outputs[output.0 as u64];
            let before_size = had.output.logical_size;
            let was = had.workspaces[i].floating[id].viewport.rect;
            let is = has.workspaces[i].floating[id].viewport.rect;
            &&& has.output.physical_size == physical_size
            &&& has.output.logical_size == logical_size
            &&& has.output.native_scale == native_scale
            &&& has.output.transform == transform
            &&& has.output.id == had.output.id
            &&& has.output.stable_key == had.output.stable_key
            &&& has.active == had.active
            &&& has.workspaces.len() == had.workspaces.len()
            &&& has.workspaces[i].id == had.workspaces[i].id
            &&& has.workspaces[i].name == had.workspaces[i].name
            &&& has.workspaces[i].tiled == had.workspaces[i].tiled
            &&& has.workspaces[i].camera == had.workspaces[i].camera
            &&& has.workspaces[i].focused_window == had.workspaces[i].focused_window
            &&& has.workspaces[i].floating.contains_key(id)
            &&& is.size == was.size
            &&& 0 <= is.origin.x && is.origin.x + is.size.width <= logical_size.width
            &&& 0 <= is.origin.y && is.origin.y + is.size.height <= logical_size.height
            &&& before_size.width <= 100_000 && logical_size.width <= 100_000 && 0
                <= was.middle().x <= before_size.width ==> viewport_laws::in_proportion(
                is.origin.x as int,
                is.size.width as int,
                was.middle().x as int,
                before_size.width as int,
                logical_size.width as int,
            )
            &&& before_size.height <= 100_000 && logical_size.height <= 100_000 && 0
                <= was.middle().y <= before_size.height ==> viewport_laws::in_proportion(
                is.origin.y as int,
                is.size.height as int,
                was.middle().y as int,
                before_size.height as int,
                logical_size.height as int,
            )
            &&& after.outputs.contains_key(other) == d.outputs.contains_key(other)
            &&& after.outputs[other] == d.outputs[other]
            &&& after.detached == d.detached
            &&& after.primary_output == d.primary_output
        }),
{
    let had = d.outputs[output.0 as u64];
    let place = had.workspaces[i].floating[id].viewport;
    viewport_laws::resized_outputs_keep_proportions(
        place,
        had.output.stable_key,
        had.output.logical_size,
        logical_size,
    );
}

} // verus!
