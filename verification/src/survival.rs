//! Windows that survive: no transaction on the desktop loses one.

use crate::desktop;
use crate::geometry::{Direction, Point};
use crate::layout::WindowTransaction;
use crate::layout_laws;
use crate::model::{OutputId, WindowId, WindowMode, WorkspaceId};
use crate::outputs;
use crate::ranking;
use crate::stability;
use crate::transactions;
use crate::viewport;
use crate::workspace;
use vstd::prelude::*;

verus! {

/// Whether a workspace of a list has a window.
pub open spec fn holds(list: Seq<workspace::WorkspaceView>, window: WindowId) -> bool {
    exists|i: int| 0 <= i < list.len() && (#[trigger] list[i]).has(window)
}

/// Whether the desktop has a window.
pub open spec fn has_window(d: desktop::DesktopView, window: WindowId) -> bool {
    (exists|k: u64| #[trigger]
        d.outputs.contains_key(k) && holds(d.outputs[k].workspaces, window)) || holds(
        d.detached,
        window,
    )
}

proof fn push_holds(
    list: Seq<workspace::WorkspaceView>,
    ws: workspace::WorkspaceView,
    window: WindowId,
)
    ensures
        holds(list.push(ws), window) == (holds(list, window) || ws.has(window)),
{
    let more = list.push(ws);
    if holds(list, window) {
        let i = choose|i: int| 0 <= i < list.len() && (#[trigger] list[i]).has(window);
        assert(more[i].has(window));
    }
    if ws.has(window) {
        assert(more[list.len() as int].has(window));
    }
    if holds(more, window) {
        let i = choose|i: int| 0 <= i < more.len() && (#[trigger] more[i]).has(window);
        if i < list.len() {
            assert(list[i].has(window));
        }
    }
}

proof fn join_holds(
    a: Seq<workspace::WorkspaceView>,
    b: Seq<workspace::WorkspaceView>,
    window: WindowId,
)
    ensures
        holds(a + b, window) == (holds(a, window) || holds(b, window)),
{
    let c = a + b;
    if holds(a, window) {
        let i = choose|i: int| 0 <= i < a.len() && (#[trigger] a[i]).has(window);
        assert(c[i].has(window));
    }
    if holds(b, window) {
        let i = choose|i: int| 0 <= i < b.len() && (#[trigger] b[i]).has(window);
        assert(c[a.len() + i].has(window));
    }
    if holds(c, window) {
        let i = choose|i: int| 0 <= i < c.len() && (#[trigger] c[i]).has(window);
        if i < a.len() {
            assert(a[i].has(window));
        } else {
            assert(b[i - a.len()].has(window));
        }
    }
}

proof fn split_holds(list: Seq<workspace::WorkspaceView>, window: WindowId)
    requires
        list.len() > 0,
    ensures
        holds(list, window) == (list[0].has(window) || holds(list.drop_first(), window)),
{
    let head = seq![list[0]];
    assert(list =~= head + list.drop_first());
    join_holds(head, list.drop_first(), window);
    if holds(head, window) {
        let i = choose|i: int| 0 <= i < head.len() && (#[trigger] head[i]).has(window);
        assert(head[i] == list[0]);
    }
    if list[0].has(window) {
        assert(head[0].has(window));
    }
}

/// A workspace with a window is occupied.
proof fn windows_occupy(ws: workspace::WorkspaceView, window: WindowId)
    requires
        ws.has(window),
    ensures
        ws.occupied(),
{
    if ws.tiled.contains_key(window.0) {
        assert(ws.tiled.dom().contains(window.0));
    } else if ws.floating.contains_key(window.0) {
        assert(ws.floating.dom().contains(window.0));
    }
}

proof fn occupied_holds(list: Seq<workspace::WorkspaceView>, window: WindowId)
    ensures
        holds(outputs::occupied(list), window) == holds(list, window),
    decreases list.len(),
{
    if list.len() > 0 {
        let rest = list.drop_last();
        occupied_holds(rest, window);
        assert(list =~= rest.push(list.last()));
        push_holds(rest, list.last(), window);
        push_holds(outputs::occupied(rest), list.last(), window);
        if list.last().has(window) {
            windows_occupy(list.last(), window);
        }
    }
}

proof fn pruned_holds(
    kept: Seq<workspace::WorkspaceView>,
    rest: Seq<workspace::WorkspaceView>,
    active: int,
    window: WindowId,
)
    ensures
        holds(outputs::pruned(kept, rest, active).0, window) == (holds(kept, window) || holds(
            rest,
            window,
        )),
    decreases rest.len(),
{
    if rest.len() > 0 {
        split_holds(rest, window);
        if !rest[0].occupied() && kept.len() != active && rest.len() != 1 {
            if rest[0].has(window) {
                windows_occupy(rest[0], window);
            }
            pruned_holds(
                kept,
                rest.drop_first(),
                if kept.len() < active {
                    active - 1
                } else {
                    active
                },
                window,
            );
        } else {
            push_holds(kept, rest[0], window);
            pruned_holds(kept.push(rest[0]), rest.drop_first(), active, window);
        }
    }
}

proof fn parted_holds(
    kept: Seq<workspace::WorkspaceView>,
    rest: Seq<workspace::WorkspaceView>,
    taken: Seq<workspace::WorkspaceView>,
    active: int,
    key: Seq<char>,
    window: WindowId,
)
    ensures
        ({
            let (left, gone, _) = desktop::parted(kept, rest, taken, active, key);
            (holds(left, window) || holds(gone, window)) == (holds(kept, window) || holds(
                rest,
                window,
            ) || holds(taken, window))
        }),
    decreases rest.len(),
{
    if rest.len() > 0 {
        split_holds(rest, window);
        let tail = rest.drop_first();
        if rest[0].original_output == Some(key) {
            let more = if rest[0].occupied() {
                taken.push(rest[0])
            } else {
                taken
            };
            let shown = if kept.len() <= active && active > 0 {
                active - 1
            } else {
                active
            };
            push_holds(taken, rest[0], window);
            if rest[0].has(window) {
                windows_occupy(rest[0], window);
            }
            parted_holds(kept, tail, more, shown, key, window);
        } else {
            push_holds(kept, rest[0], window);
            parted_holds(kept.push(rest[0]), tail, taken, active, key, window);
        }
    }
}

/// A change of viewport places keeps the windows of a workspace and their modes, what is tiled,
/// its name, its origin, its focus and its camera.
pub proof fn changing_keeps_windows(
    ws: workspace::WorkspaceView,
    change: viewport::ChangeView,
    window: WindowId,
)
    ensures
        ws.changed(change).mode_of(window) == ws.mode_of(window),
        ws.changed(change).occupied() == ws.occupied(),
        ws.changed(change).tiled == ws.tiled,
        ws.changed(change).name == ws.name,
        ws.changed(change).original_output == ws.original_output,
        ws.changed(change).focused_window == ws.focused_window,
        ws.changed(change).focus_history == ws.focus_history,
        ws.changed(change).camera == ws.camera,
{
    assert(ws.changed(change).floating.dom() =~= ws.floating.dom());
}

proof fn changed_holds(
    list: Seq<workspace::WorkspaceView>,
    change: viewport::ChangeView,
    window: WindowId,
)
    ensures
        holds(desktop::each_changed(list, change), window) == holds(list, window),
{
    let after = desktop::each_changed(list, change);
    if holds(list, window) {
        let i = choose|i: int| 0 <= i < list.len() && (#[trigger] list[i]).has(window);
        changing_keeps_windows(list[i], change, window);
        assert(after[i].has(window));
    }
    if holds(after, window) {
        let i = choose|i: int| 0 <= i < after.len() && (#[trigger] after[i]).has(window);
        changing_keeps_windows(list[i], change, window);
        assert(list[i].has(window));
    }
}

proof fn normalized_set_holds(set: outputs::SetView, id: u32, window: WindowId)
    ensures
        holds(set.normalized(id).0.workspaces, window) == holds(set.workspaces, window),
{
    let empty = Seq::<workspace::WorkspaceView>::empty();
    pruned_holds(empty, set.workspaces, set.active as int, window);
    let (kept, _) = outputs::pruned(empty, set.workspaces, set.active as int);
    let blank = workspace::WorkspaceView {
        original_output: Some(set.output.stable_key),
        ..workspace::WorkspaceView::blank(WorkspaceId(id))
    };
    push_holds(kept, blank, window);
    assert(!blank.has(window));
}

/// Replacing the workspaces of one output by some that hold the same windows keeps all windows.
proof fn replacing_holds(
    d: desktop::DesktopView,
    k: u64,
    set: outputs::SetView,
    after: desktop::DesktopView,
    window: WindowId,
)
    requires
        d.outputs.contains_key(k),
        after.outputs == d.outputs.insert(k, set),
        after.detached == d.detached,
        holds(set.workspaces, window) == holds(d.outputs[k].workspaces, window),
    ensures
        has_window(after, window) == has_window(d, window),
{
    if has_window(d, window) && !holds(d.detached, window) {
        let j = choose|j: u64| #[trigger]
            d.outputs.contains_key(j) && holds(d.outputs[j].workspaces, window);
        assert(after.outputs.contains_key(j));
        assert(holds(after.outputs[j].workspaces, window));
    }
    if has_window(after, window) && !holds(after.detached, window) {
        let j = choose|j: u64| #[trigger]
            after.outputs.contains_key(j) && holds(after.outputs[j].workspaces, window);
        assert(d.outputs.contains_key(j));
        assert(holds(d.outputs[j].workspaces, window));
    }
}

proof fn normalized_outputs_hold(
    d: desktop::DesktopView,
    keys: Seq<u64>,
    n: int,
    window: WindowId,
)
    requires
        0 <= n <= keys.len(),
        forall|i: int| 0 <= i < keys.len() ==> d.outputs.contains_key(#[trigger] keys[i]),
    ensures
        has_window(d.normalized_outputs(keys, n), window) == has_window(d, window),
        d.normalized_outputs(keys, n).outputs.dom() == d.outputs.dom(),
        d.normalized_outputs(keys, n).detached == d.detached,
        d.normalized_outputs(keys, n).primary_output == d.primary_output,
        d.normalized_outputs(keys, n).last_active == d.last_active,
        d.normalized_outputs(keys, n).solver == d.solver,
    decreases n,
{
    if n > 0 {
        normalized_outputs_hold(d, keys, n - 1, window);
        let before = d.normalized_outputs(keys, n - 1);
        let k = keys[n - 1];
        assert(d.outputs.contains_key(k));
        assert(before.outputs.dom().contains(k));
        let set = before.outputs[k].normalized(before.next_workspace_id).0;
        normalized_set_holds(before.outputs[k], before.next_workspace_id, window);
        let after = d.normalized_outputs(keys, n);
        replacing_holds(before, k, set, after, window);
        assert(after.outputs.dom() =~= d.outputs.dom());
    }
}

/// Normalization loses no window and makes none up.
pub proof fn normalization_keeps_windows(d: desktop::DesktopView, window: WindowId)
    requires
        d.outputs.dom().finite(),
    ensures
        has_window(d.normalized(), window) == has_window(d, window),
{
    let keys = d.keys();
    ranking::ranking_ranks(d.outputs.dom(), |id: u64| 0);
    assert forall|i: int| 0 <= i < keys.len() implies d.outputs.contains_key(#[trigger] keys[i]) by {
        assert(keys.to_set().contains(keys[i]));
    }
    normalized_outputs_hold(d, keys, keys.len() as int, window);
    let after = d.normalized_outputs(keys, keys.len() as int);
    occupied_holds(after.detached, window);
    let done = d.normalized();
    assert(done.outputs == after.outputs);
    if has_window(after, window) && !holds(after.detached, window) {
        let j = choose|j: u64| #[trigger]
            after.outputs.contains_key(j) && holds(after.outputs[j].workspaces, window);
        assert(done.outputs.contains_key(j));
    }
    if has_window(done, window) && !holds(done.detached, window) {
        let j = choose|j: u64| #[trigger]
            done.outputs.contains_key(j) && holds(done.outputs[j].workspaces, window);
        assert(after.outputs.contains_key(j));
    }
}

/// Connecting an output loses no window and makes none up.
pub proof fn windows_survive_connection(
    d: desktop::DesktopView,
    output: outputs::OutputView,
    window: WindowId,
)
    requires
        d.outputs.dom().finite(),
        d.anchored(),
        d.connected(output) is Ok,
    ensures
        has_window(d.connected(output)->Ok_0, window) == has_window(d, window),
{
    let (rest, taken) = d.yielded(output.stable_key);
    let added = d.with_output(output);
    let k = desktop::key(output.id);
    let change = viewport::ChangeView::Migrate {
        source: d.primary_viewport(),
        key: output.stable_key,
        size: output.logical_size,
    };
    let empty = Seq::<workspace::WorkspaceView>::empty();
    occupied_holds(taken, window);
    changed_holds(outputs::occupied(taken), change, window);
    let arrived = added.outputs[k].workspaces;
    assert(holds(arrived, window) == holds(taken, window));
    if d.outputs.dom() == Set::<u64>::empty() {
        assert forall|j: u64| !d.outputs.contains_key(j) by {
            assert(!d.outputs.dom().contains(j));
        }
        assert(added.outputs.contains_key(k));
        if has_window(added, window) {
            let j = choose|j: u64| #[trigger]
                added.outputs.contains_key(j) && holds(added.outputs[j].workspaces, window);
            assert(j == k);
        }
    } else {
        let primary = desktop::key(d.primary_output->0);
        let set = d.outputs[primary];
        parted_holds(empty, set.workspaces, empty, set.active as int, output.stable_key, window);
        let left = rest.outputs[primary].workspaces;
        assert((holds(left, window) || holds(taken, window)) == holds(set.workspaces, window));
        assert(added.outputs.contains_key(k) && added.outputs.contains_key(primary));
        assert(added.outputs[primary].workspaces == left);
        if has_window(d, window) && !holds(d.detached, window) {
            let j = choose|j: u64| #[trigger]
                d.outputs.contains_key(j) && holds(d.outputs[j].workspaces, window);
            assert(added.outputs.contains_key(j));
            if j != primary {
                assert(added.outputs[j] == d.outputs[j]);
            }
        }
        if has_window(added, window) && !holds(added.detached, window) {
            let j = choose|j: u64| #[trigger]
                added.outputs.contains_key(j) && holds(added.outputs[j].workspaces, window);
            if j == k || j == primary {
                assert(d.outputs.contains_key(primary));
            } else {
                assert(added.outputs[j] == d.outputs[j]);
                assert(d.outputs.contains_key(j));
            }
        }
    }
    assert(has_window(added, window) == has_window(d, window));
    assert(added.outputs.dom() =~= d.outputs.dom().insert(k));
    normalization_keeps_windows(added, window);
}

/// Disconnecting an output loses no window and makes none up.
pub proof fn windows_survive_disconnection(
    d: desktop::DesktopView,
    output: OutputId,
    window: WindowId,
)
    requires
        d.outputs.dom().finite(),
        d.anchored(),
        d.disconnected(output) is Ok,
    ensures
        has_window(d.disconnected(output)->Ok_0, window) == has_window(d, window),
{
    let k = desktop::key(output);
    let removed = d.outputs[k];
    let left = d.outputs.remove(k);
    let homeless = outputs::occupied(removed.workspaces);
    let after = d.without_output(output);
    occupied_holds(removed.workspaces, window);
    if left.dom() == Set::<u64>::empty() {
        join_holds(d.detached, homeless, window);
        assert forall|j: u64| #[trigger] d.outputs.contains_key(j) implies j == k by {
            if j != k {
                assert(left.dom().contains(j));
            }
        }
        assert forall|j: u64| !after.outputs.contains_key(j) by {
            assert(!left.dom().contains(j));
        }
        assert(d.outputs.contains_key(k));
    } else {
        let heir = d.heir(output);
        assert(left.contains_key(heir)) by {
            if d.primary_output == Some(output) {
                ranking::ranking_ranks(left.dom(), |id: u64| 0);
                let keys = ranking::ascending(left.dom());
                if keys.len() == 0 {
                    assert(left.dom() =~= Set::<u64>::empty());
                }
                assert(keys.to_set().contains(keys[0]));
            }
        }
        let target = left[heir];
        let change = viewport::ChangeView::Migrate {
            source: Some((removed.output.stable_key, removed.output.logical_size)),
            key: target.output.stable_key,
            size: target.output.logical_size,
        };
        changed_holds(homeless, change, window);
        let moved = desktop::each_changed(homeless, change);
        let at = if target.workspaces.len() > 0 {
            target.workspaces.len() - 1
        } else {
            0
        };
        join_holds(target.workspaces.take(at) + moved, target.workspaces.skip(at), window);
        join_holds(target.workspaces.take(at), moved, window);
        join_holds(target.workspaces.take(at), target.workspaces.skip(at), window);
        assert(target.workspaces.take(at) + target.workspaces.skip(at) =~= target.workspaces);
        assert(holds(after.outputs[heir].workspaces, window) == (holds(target.workspaces, window)
            || holds(removed.workspaces, window)));
        assert(after.outputs.contains_key(heir));
        if has_window(d, window) && !holds(d.detached, window) {
            let j = choose|j: u64| #[trigger]
                d.outputs.contains_key(j) && holds(d.outputs[j].workspaces, window);
            if j != k && j != heir {
                assert(after.outputs.contains_key(j));
                assert(after.outputs[j] == d.outputs[j]);
            }
        }
        if has_window(after, window) && !holds(after.detached, window) {
            let j = choose|j: u64| #[trigger]
                after.outputs.contains_key(j) && holds(after.outputs[j].workspaces, window);
            assert(d.outputs.contains_key(j) && d.outputs.contains_key(k));
            if j != heir {
                assert(after.outputs[j] == d.outputs[j]);
            }
        }
    }
    assert(has_window(after, window) == has_window(d, window));
    assert(after.outputs.dom().subset_of(d.outputs.dom()));
    vstd::set_lib::lemma_set_subset_finite(d.outputs.dom(), after.outputs.dom());
    normalization_keeps_windows(after, window);
}

/// An output whose workspaces hold one more window.
proof fn adding_holds(
    d: desktop::DesktopView,
    k: u64,
    set: outputs::SetView,
    after: desktop::DesktopView,
    extra: bool,
    window: WindowId,
)
    requires
        d.outputs.contains_key(k),
        after.outputs == d.outputs.insert(k, set),
        after.detached == d.detached,
        holds(set.workspaces, window) == (holds(d.outputs[k].workspaces, window) || extra),
    ensures
        has_window(after, window) == (has_window(d, window) || extra),
{
    assert(after.outputs.contains_key(k));
    if has_window(d, window) && !holds(d.detached, window) {
        let j = choose|j: u64| #[trigger]
            d.outputs.contains_key(j) && holds(d.outputs[j].workspaces, window);
        assert(after.outputs.contains_key(j));
        assert(holds(after.outputs[j].workspaces, window));
    }
    if has_window(after, window) && !holds(after.detached, window) {
        let j = choose|j: u64| #[trigger]
            after.outputs.contains_key(j) && holds(after.outputs[j].workspaces, window);
        assert(d.outputs.contains_key(j));
        if j != k {
            assert(holds(d.outputs[j].workspaces, window));
        }
    }
}

proof fn insert_holds(
    list: Seq<workspace::WorkspaceView>,
    i: int,
    ws: workspace::WorkspaceView,
    window: WindowId,
)
    requires
        0 <= i <= list.len(),
    ensures
        holds(list.insert(i, ws), window) == (holds(list, window) || ws.has(window)),
{
    let a = list.take(i);
    let b = list.skip(i);
    assert(list.insert(i, ws) =~= a.push(ws) + b);
    assert(list =~= a + b);
    join_holds(a.push(ws), b, window);
    push_holds(a, ws, window);
    join_holds(a, b, window);
}

proof fn remove_holds(list: Seq<workspace::WorkspaceView>, i: int, window: WindowId)
    requires
        0 <= i < list.len(),
    ensures
        holds(list, window) == (holds(list.remove(i), window) || list[i].has(window)),
{
    insert_holds(list.remove(i), i, list[i], window);
    assert(list.remove(i).insert(i, list[i]) =~= list);
}

/// Whether a place is a place of the desktop.
pub open spec fn known(d: desktop::DesktopView, place: (Option<u64>, int)) -> bool {
    match place.0 {
        Some(k) => d.outputs.contains_key(k) && 0 <= place.1 < d.outputs[k].workspaces.len(),
        None => 0 <= place.1 < d.detached.len(),
    }
}

/// Replacing a workspace by one that has the same windows keeps all windows.
proof fn with_at_holds(
    d: desktop::DesktopView,
    place: (Option<u64>, int),
    ws: workspace::WorkspaceView,
    window: WindowId,
)
    requires
        known(d, place),
        ws.has(window) == d.at(place).has(window),
    ensures
        has_window(d.with_at(place, ws), window) == has_window(d, window),
{
    match place.0 {
        Some(k) => {
            let list = d.outputs[k].workspaces;
            update_holds(list, place.1, ws, window);
            replacing_holds(
                d,
                k,
                outputs::SetView { workspaces: list.update(place.1, ws), ..d.outputs[k] },
                d.with_at(place, ws),
                window,
            );
        },
        None => {
            update_holds(d.detached, place.1, ws, window);
            outputs_hold_alike(d, d.with_at(place, ws), window);
        },
    }
}

proof fn update_holds(
    list: Seq<workspace::WorkspaceView>,
    i: int,
    ws: workspace::WorkspaceView,
    window: WindowId,
)
    requires
        0 <= i < list.len(),
        ws.has(window) == list[i].has(window),
    ensures
        holds(list.update(i, ws), window) == holds(list, window),
{
    let after = list.update(i, ws);
    if holds(list, window) {
        let j = choose|j: int| 0 <= j < list.len() && (#[trigger] list[j]).has(window);
        assert(after[j].has(window));
    }
    if holds(after, window) {
        let j = choose|j: int| 0 <= j < after.len() && (#[trigger] after[j]).has(window);
        assert(list[j].has(window));
    }
}

/// Desktops with the same outputs hold the same windows but for the detached ones.
proof fn outputs_hold_alike(a: desktop::DesktopView, b: desktop::DesktopView, window: WindowId)
    requires
        a.outputs == b.outputs,
    ensures
        has_window(a, window) || holds(b.detached, window) <==> has_window(b, window) || holds(
            a.detached,
            window,
        ),
{
    if has_window(a, window) && !holds(a.detached, window) {
        let j = choose|j: u64| #[trigger]
            a.outputs.contains_key(j) && holds(a.outputs[j].workspaces, window);
        assert(b.outputs.contains_key(j));
    }
    if has_window(b, window) && !holds(b.detached, window) {
        let j = choose|j: u64| #[trigger]
            b.outputs.contains_key(j) && holds(b.outputs[j].workspaces, window);
        assert(a.outputs.contains_key(j));
    }
}

proof fn showing_holds(d: desktop::DesktopView, place: (Option<u64>, int), window: WindowId)
    requires
        known(d, place),
    ensures
        has_window(d.showing(place), window) == has_window(d, window),
{
    match place.0 {
        Some(k) => {
            replacing_holds(
                d,
                k,
                outputs::SetView { active: place.1 as usize, ..d.outputs[k] },
                d.showing(place),
                window,
            );
        },
        None => {},
    }
}

proof fn adopted_holds(d: desktop::DesktopView, place: (Option<u64>, int), window: WindowId)
    requires
        known(d, place),
    ensures
        has_window(d.adopted(place), window) == has_window(d, window),
        d.adopted(place).outputs.dom() == d.outputs.dom(),
        known(d.adopted(place), place),
{
    match d.output_at(place) {
        Some(output) => {
            let ws = workspace::WorkspaceView {
                original_output: Some(output.stable_key),
                ..d.at(place)
            };
            with_at_holds(d, place, ws, window);
            with_at_dom(d, place, ws);
        },
        None => {},
    }
}

proof fn with_at_dom(
    d: desktop::DesktopView,
    place: (Option<u64>, int),
    ws: workspace::WorkspaceView,
)
    requires
        known(d, place),
    ensures
        d.with_at(place, ws).outputs.dom() == d.outputs.dom(),
        known(d.with_at(place, ws), place),
        d.with_at(place, ws).at(place) == ws,
        forall|other: (Option<u64>, int)|
            known(d, other) ==> #[trigger] known(d.with_at(place, ws), other),
        forall|other: (Option<u64>, int)|
            known(d, other) && other != place ==> #[trigger] d.with_at(place, ws).at(other)
                == d.at(other),
{
    assert(d.with_at(place, ws).outputs.dom() =~= d.outputs.dom());
}

proof fn relocation_keeps_windows(
    d: desktop::DesktopView,
    workspace: WorkspaceId,
    target_output: OutputId,
    target_index: Option<usize>,
    activate: bool,
    window: WindowId,
)
    requires
        d.outputs.dom().finite(),
        d.relocated(workspace, target_output, target_index, activate) is Ok,
    ensures
        has_window(
            d.relocated(workspace, target_output, target_index, activate)->Ok_0,
            window,
        ) == has_window(d, window),
        d.relocated(workspace, target_output, target_index, activate)->Ok_0.outputs.dom()
            == d.outputs.dom(),
{
    d.place_is_known(workspace);
    let place = d.place(workspace)->0;
    let target = desktop::key(target_output);
    let output = d.outputs[target].output;
    let change = viewport::ChangeView::Migrate {
        source: d.viewport_at(place),
        key: output.stable_key,
        size: output.logical_size,
    };
    let ws = workspace::WorkspaceView {
        original_output: Some(output.stable_key),
        ..d.at(place).changed(change)
    };
    changing_keeps_windows(d.at(place), change, window);
    assert(ws.has(window) == d.at(place).has(window));
    let left = d.without_at(place);
    match place.0 {
        Some(k) => {
            remove_holds(d.outputs[k].workspaces, place.1, window);
            assert(d.outputs =~= left.outputs.insert(k, d.outputs[k]));
            adding_holds(left, k, d.outputs[k], d, d.at(place).has(window), window);
        },
        None => {
            remove_holds(d.detached, place.1, window);
            outputs_hold_alike(d, left, window);
        },
    }
    assert(left.outputs.dom() =~= d.outputs.dom());
    assert(left.outputs.contains_key(target)) by {
        assert(left.outputs.dom().contains(target));
    }
    let after = left.with_inserted(ws, target, target_index, activate);
    let set = left.outputs[target];
    let wanted = match target_index {
        Some(index) => index as int,
        None => transactions::after(set.active) as int,
    };
    let index = transactions::smaller(
        wanted,
        transactions::before(set.workspaces.len() as int),
    );
    insert_holds(set.workspaces, index, ws, window);
    adding_holds(left, target, after.outputs[target], after, ws.has(window), window);
    assert(after.outputs.dom() =~= d.outputs.dom());
}

/// Whether every workspace of the desktop has finitely many tiled windows.
pub open spec fn tiles_are_finite(d: desktop::DesktopView) -> bool {
    forall|place: (Option<u64>, int)|
        known(d, place) ==> (#[trigger] d.at(place)).tiled.dom().finite()
}

/// What a window leaves and what it joins: all other windows are kept, and the window is in the
/// workspace that it joins.
proof fn handing_over_keeps_windows(
    d: desktop::DesktopView,
    window: WindowId,
    from: (Option<u64>, int),
    to: (Option<u64>, int),
    hint: Direction,
    answers: Seq<Option<Point>>,
    other: WindowId,
)
    requires
        d.at(from).tiled.dom().finite(),
        d.at(to).tiled.dom().finite(),
        d.handed_over(window, from, to, hint, answers) is Ok,
    ensures
        ({
            let (left, joined) = d.handed_over(window, from, to, hint, answers)->Ok_0;
            &&& joined.has(window)
            &&& other != window ==> left.has(other) == d.at(from).has(other)
            &&& other != window ==> joined.has(other) == d.at(to).has(other)
        }),
{
    let source = d.at(from);
    let target = d.at(to);
    match source.mode_of(window) {
        Some(WindowMode::Tiled) => {
            let remove = WindowTransaction::Remove { id: window };
            let insert = WindowTransaction::InsertTiled {
                id: window,
                size: source.tiled[window.0].geometry.size,
                anchor: target.focus_point(),
                seed_direction: target.layout_direction_hint,
                hint,
            };
            if other != window {
                layout_laws::other_windows_are_kept(
                    d.solver,
                    source,
                    remove,
                    answers,
                    window,
                    other,
                );
                layout_laws::other_windows_are_kept(
                    d.solver,
                    target,
                    insert,
                    answers,
                    window,
                    other,
                );
            }
            let prepared = d.solver.prepared(target, insert)->Ok_0;
            assert(prepared.workspace.tiled.dom() =~= target.tiled.dom().insert(window.0));
            stability::pushing_keeps(
                d.solver.gap,
                d.solver.operation_limit,
                prepared.workspace.tiled,
                window,
                prepared.seed,
                answers,
                0,
            );
        },
        _ => {},
    }
}

/// No transaction on workspaces loses a window or makes one up.
pub proof fn windows_survive_transactions(
    d: desktop::DesktopView,
    transaction: desktop::TransactionView,
    answers: Seq<Option<Point>>,
    window: WindowId,
)
    requires
        d.outputs.dom().finite(),
        tiles_are_finite(d),
        d.applied(transaction, answers) is Ok,
    ensures
        has_window(d.applied(transaction, answers)->Ok_0.0, window) == has_window(d, window),
{
    let after = d.transacted(transaction, answers)->Ok_0.0;
    assert(has_window(after, window) == has_window(d, window) && after.outputs.dom()
        == d.outputs.dom()) by {
        match transaction {
            desktop::TransactionView::Focus { output, workspace } => {
                d.place_is_known(workspace);
                showing_holds(d, d.place(workspace)->0, window);
                assert(after.outputs.dom() =~= d.outputs.dom());
            },
            desktop::TransactionView::Move {
                workspace,
                target_output,
                target_index,
                activate,
            } => {
                relocation_keeps_windows(
                    d,
                    workspace,
                    target_output,
                    target_index,
                    activate,
                    window,
                );
            },
            desktop::TransactionView::SetName { workspace, name } => {
                d.place_is_known(workspace);
                let place = d.place(workspace)->0;
                let ws = workspace::WorkspaceView { name, ..d.at(place) };
                with_at_holds(d, place, ws, window);
                with_at_dom(d, place, ws);
            },
            desktop::TransactionView::SendWindow { window: sent, target, activate, hint } => {
                sending_keeps_windows(d, sent, target, activate, hint, answers, window);
            },
        }
    }
    normalization_keeps_windows(after, window);
}

proof fn sending_keeps_windows(
    d: desktop::DesktopView,
    sent: WindowId,
    target: WorkspaceId,
    activate: bool,
    hint: Direction,
    answers: Seq<Option<Point>>,
    window: WindowId,
)
    requires
        d.outputs.dom().finite(),
        tiles_are_finite(d),
        d.sent(sent, target, activate, hint, answers) is Ok,
    ensures
        has_window(d.sent(sent, target, activate, hint, answers)->Ok_0, window) == has_window(d, window),
        d.sent(sent, target, activate, hint, answers)->Ok_0.outputs.dom() == d.outputs.dom(),
{
    let source = d.owner(sent)->Ok_0;
    d.place_is_known(target);
    d.place_is_known(source);
    let to = d.place(target)->0;
    if source == target {
        showing_holds(d, to, window);
        assert(d.showing(to).outputs.dom() =~= d.outputs.dom());
    } else {
        let from = d.place(source)->0;
        assert(from != to);
        assert(known(d, from) && known(d, to));
        let (left, joined) = d.handed_over(sent, from, to, hint, answers)->Ok_0;
        handing_over_keeps_windows(d, sent, from, to, hint, answers, window);
        let first = d.with_at(from, left);
        with_at_dom(d, from, left);
        assert(known(first, to));
        assert(first.at(to) == d.at(to));
        let second = first.with_at(to, joined);
        with_at_dom(first, to, joined);
        if window != sent {
            with_at_holds(d, from, left, window);
            with_at_holds(first, to, joined, window);
        } else {
            place_holds(d, from, window);
            place_holds(second, to, window);
        }
        adopted_holds(second, to, window);
        let third = second.adopted(to);
        showing_holds(third, to, window);
        assert(third.showing(to).outputs.dom() =~= d.outputs.dom());
    }
}

/// A window at a place is on the desktop.
proof fn place_holds(d: desktop::DesktopView, place: (Option<u64>, int), window: WindowId)
    requires
        known(d, place),
        d.at(place).has(window),
    ensures
        has_window(d, window),
{
    match place.0 {
        Some(k) => {
            assert(d.outputs[k].workspaces[place.1].has(window));
            assert(holds(d.outputs[k].workspaces, window));
        },
        None => {
            assert(d.detached[place.1].has(window));
        },
    }
}

/// A window transaction loses no window but the one that it is about, and makes up no other.
pub proof fn other_windows_survive_window_transactions(
    d: desktop::DesktopView,
    workspace: WorkspaceId,
    transaction: WindowTransaction,
    answers: Seq<Option<Point>>,
    id: WindowId,
    other: WindowId,
)
    requires
        d.outputs.dom().finite(),
        tiles_are_finite(d),
        d.applied_window(workspace, transaction, answers) is Ok,
        id == (match transaction {
            WindowTransaction::InsertTiled { id, .. } => id,
            WindowTransaction::MoveTiledFinished { id, .. } => id,
            WindowTransaction::MoveFloating { id, .. } => id,
            WindowTransaction::SetMode { id, .. } => id,
            WindowTransaction::Remove { id } => id,
        }),
        other != id,
    ensures
        has_window(d.applied_window(workspace, transaction, answers)->Ok_0, other) == has_window(
            d,
            other,
        ),
{
    d.place_is_known(workspace);
    let place = d.place(workspace)->0;
    assert(known(d, place));
    let before = d.at(place);
    let ws = d.solver.applied(before, transaction, answers)->Ok_0.0;
    layout_laws::other_windows_are_kept(d.solver, before, transaction, answers, id, other);
    let stored = match d.viewport_at(place) {
        Some((key, size)) => ws.changed(viewport::ChangeView::Store { key, size }).followed(size),
        None => ws,
    };
    match d.viewport_at(place) {
        Some((key, size)) => {
            changing_keeps_windows(ws, viewport::ChangeView::Store { key, size }, other);
        },
        None => {},
    }
    assert(stored.has(other) == before.has(other));
    with_at_holds(d, place, stored, other);
    with_at_dom(d, place, stored);
    let after = d.with_at(place, stored);
    adopted_holds(after, place, other);
    normalization_keeps_windows(d.laid_out(place, transaction, ws), other);
}

} // verus!
