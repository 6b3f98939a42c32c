//! Where workspaces go when outputs come and go, and what the outputs show.

use crate::desktop;
use crate::model::{OutputId, WorkspaceId};
use crate::outputs;
use crate::ranking;
use crate::viewport;
use crate::workspace;
use vstd::prelude::*;

verus! {

/// Whether a list has two workspaces in this order.
pub open spec fn follow(
    list: Seq<workspace::WorkspaceView>,
    x: workspace::WorkspaceView,
    y: workspace::WorkspaceView,
) -> bool {
    exists|a: int, b: int| 0 <= a < b < list.len() && #[trigger] list[a] == x && #[trigger] list[b] == y
}

proof fn following_is_extended(
    list: Seq<workspace::WorkspaceView>,
    x: workspace::WorkspaceView,
    y: workspace::WorkspaceView,
)
    requires
        list.len() > 0,
        follow(list.drop_last(), x, y),
    ensures
        follow(list, x, y),
{
    let front = list.drop_last();
    let (a, b) = choose|a: int, b: int|
        0 <= a < b < front.len() && #[trigger] front[a] == x && #[trigger] front[b] == y;
    assert(list[a] == x && list[b] == y);
}

/// The occupied workspaces of a list are those of its workspaces that have a name or a window, in
/// their order.
pub proof fn occupied_workspaces_keep_their_order(list: Seq<workspace::WorkspaceView>)
    ensures
        ({
            let kept = outputs::occupied(list);
            &&& forall|ws: workspace::WorkspaceView| #[trigger]
                kept.contains(ws) <==> list.contains(ws) && ws.occupied()
            &&& forall|i: int, j: int|
                0 <= i < j < kept.len() ==> follow(list, #[trigger] kept[i], #[trigger] kept[j])
        }),
    decreases list.len(),
{
    let kept = outputs::occupied(list);
    if list.len() > 0 {
        let front = list.drop_last();
        let rest = outputs::occupied(front);
        occupied_workspaces_keep_their_order(front);
        assert forall|ws: workspace::WorkspaceView| #[trigger]
            kept.contains(ws) <==> list.contains(ws) && ws.occupied() by {
            if list.contains(ws) && ws.occupied() {
                let k = choose|k: int| 0 <= k < list.len() && list[k] == ws;
                if k < front.len() {
                    assert(front[k] == ws);
                    assert(rest.contains(ws));
                    let m = choose|m: int| 0 <= m < rest.len() && rest[m] == ws;
                    assert(kept[m] == ws);
                } else {
                    assert(kept[kept.len() - 1] == ws);
                }
            }
            if kept.contains(ws) {
                let k = choose|k: int| 0 <= k < kept.len() && kept[k] == ws;
                if k < rest.len() {
                    assert(rest[k] == ws);
                    assert(rest.contains(ws));
                    let m = choose|m: int| 0 <= m < front.len() && front[m] == ws;
                    assert(list[m] == ws);
                } else {
                    assert(list[list.len() - 1] == ws);
                }
            }
        }
        assert forall|i: int, j: int| 0 <= i < j < kept.len() implies follow(
            list,
            #[trigger] kept[i],
            #[trigger] kept[j],
        ) by {
            assert(kept[i] == rest[i]);
            if j < rest.len() {
                assert(follow(front, rest[i], rest[j]));
                following_is_extended(list, rest[i], rest[j]);
            } else {
                assert(rest.contains(rest[i]));
                let a = choose|a: int| 0 <= a < front.len() && front[a] == rest[i];
                assert(list[a] == kept[i] && list[list.len() - 1] == kept[j]);
            }
        }
    } else {
        assert(kept =~= list);
    }
}

/// When the workspaces of an output are parted from others, those of other outputs stay in their
/// order, and what is shown goes on being shown, unless it leaves.
proof fn strangers_stay(
    kept: Seq<workspace::WorkspaceView>,
    rest: Seq<workspace::WorkspaceView>,
    taken: Seq<workspace::WorkspaceView>,
    active: int,
    key: Seq<char>,
)
    requires
        0 <= active,
    ensures
        ({
            let (stays, leaves, shown) = desktop::parted(kept, rest, taken, active, key);
            &&& forall|ws: workspace::WorkspaceView| #[trigger]
                stays.contains(ws) <==> kept.contains(ws) || (rest.contains(ws)
                    && ws.original_output != Some(key))
            &&& forall|ws: workspace::WorkspaceView| #[trigger]
                leaves.contains(ws) <==> taken.contains(ws) || (rest.contains(ws)
                    && ws.original_output == Some(key) && ws.occupied())
            &&& kept.len() <= stays.len() && stays.take(kept.len() as int) == kept
            &&& 0 <= shown <= active
            &&& active < kept.len() ==> shown == active
            &&& kept.len() <= active < kept.len() + rest.len() && rest[active
                - kept.len()].original_output != Some(key) ==> kept.len() <= shown < stays.len()
                && stays[shown] == rest[active - kept.len()]
        }),
    decreases rest.len(),
{
    let (stays, leaves, shown) = desktop::parted(kept, rest, taken, active, key);
    if rest.len() == 0 {
        assert(kept.take(kept.len() as int) =~= kept);
    } else {
        let head = rest[0];
        let tail = rest.drop_first();
        assert forall|ws: workspace::WorkspaceView| #[trigger]
            rest.contains(ws) <==> ws == head || tail.contains(ws) by {
            if rest.contains(ws) {
                let k = choose|k: int| 0 <= k < rest.len() && rest[k] == ws;
                if k > 0 {
                    assert(tail[k - 1] == ws);
                }
            }
            if tail.contains(ws) {
                let k = choose|k: int| 0 <= k < tail.len() && tail[k] == ws;
                assert(rest[k + 1] == ws);
            }
            assert(rest[0] == head);
        }
        if head.original_output == Some(key) {
            let more = if head.occupied() {
                taken.push(head)
            } else {
                taken
            };
            let next = if kept.len() <= active && active > 0 {
                active - 1
            } else {
                active
            };
            strangers_stay(kept, tail, more, next, key);
            assert forall|ws: workspace::WorkspaceView| #[trigger]
                leaves.contains(ws) <==> taken.contains(ws) || (rest.contains(ws)
                    && ws.original_output == Some(key) && ws.occupied()) by {
                pushed_contains(taken, head, ws);
            }
        } else {
            strangers_stay(kept.push(head), tail, taken, active, key);
            assert forall|ws: workspace::WorkspaceView| #[trigger]
                stays.contains(ws) <==> kept.contains(ws) || (rest.contains(ws)
                    && ws.original_output != Some(key)) by {
                pushed_contains(kept, head, ws);
            }
            assert(stays.take(kept.len() as int) =~= kept) by {
                assert(stays.take(kept.push(head).len() as int) == kept.push(head));
                assert forall|j: int| 0 <= j < kept.len() implies stays[j] == kept[j] by {
                    assert(stays.take(kept.push(head).len() as int)[j] == kept.push(head)[j]);
                }
            }
            if active == kept.len() {
                assert(shown == active);
                assert(stays.take(kept.push(head).len() as int)[active] == kept.push(head)[active]);
            }
        }
    }
}

proof fn pushed_contains(
    list: Seq<workspace::WorkspaceView>,
    one: workspace::WorkspaceView,
    ws: workspace::WorkspaceView,
)
    ensures
        list.push(one).contains(ws) <==> list.contains(ws) || ws == one,
{
    let longer = list.push(one);
    if list.contains(ws) {
        let k = choose|k: int| 0 <= k < list.len() && list[k] == ws;
        assert(longer[k] == ws);
    }
    if longer.contains(ws) {
        let k = choose|k: int| 0 <= k < longer.len() && longer[k] == ws;
        if k < list.len() {
            assert(list[k] == ws);
        }
    }
    assert(longer[list.len() as int] == one);
}

/// An output that is connected beside others gets from the primary output the occupied workspaces
/// that belong to it, and no others; those that belong elsewhere stay there. It shows the workspace
/// that it showed when it was disconnected, where it has it back, and the first one otherwise. The
/// primary output stays the primary one and goes on showing what it showed, unless that leaves; all
/// other outputs stay as they are.
pub proof fn connected_outputs_get_their_workspaces(
    d: desktop::DesktopView,
    output: outputs::OutputView,
    primary: OutputId,
    i: int,
    other: u64,
)
    requires
        d.primary_output == Some(primary),
        d.outputs.contains_key(primary.0 as u64),
        !d.outputs.contains_key(output.id.0 as u64),
        0 <= i < d.outputs[primary.0 as u64].workspaces.len(),
        d.outputs[primary.0 as u64].workspaces.len() < usize::MAX,
        d.outputs.contains_key(other),
        other != primary.0 as u64,
    ensures
        ({
            let after = d.with_output(output);
            let (had, now) = (d.outputs[primary.0 as u64], after.outputs[primary.0 as u64]);
            let new = after.outputs[output.id.0 as u64];
            let ws = had.workspaces[i];
            let belongs = ws.original_output == Some(output.stable_key);
            &&& after.outputs.dom() == d.outputs.dom().insert(output.id.0 as u64)
            &&& new.output == output
            &&& now.output == had.output
            &&& !belongs ==> now.workspaces.contains(ws)
            &&& belongs ==> !now.workspaces.contains(ws)
            &&& belongs && ws.occupied() ==> exists|j: int|
                0 <= j < new.workspaces.len() && (#[trigger] new.workspaces[j]).id == ws.id
                    && new.workspaces[j].name == ws.name && new.workspaces[j].tiled == ws.tiled
            &&& forall|j: int|
                0 <= j < new.workspaces.len() ==> exists|m: int|
                    0 <= m < had.workspaces.len() && (#[trigger] had.workspaces[m]).id == (
                    #[trigger] new.workspaces[j]).id && had.workspaces[m].original_output == Some(
                        output.stable_key,
                    )
            &&& i == had.active && !belongs ==> now.active < now.workspaces.len()
                && now.workspaces[now.active as int] == ws
            &&& new.workspaces.len() < usize::MAX ==> {
                let last = d.last_active[output.stable_key];
                if d.last_active.contains_key(output.stable_key) && exists|j: int|
                    0 <= j < new.workspaces.len() && (#[trigger] new.workspaces[j]).id == last {
                    new.active < new.workspaces.len() && new.workspaces[new.active as int].id
                        == last
                } else {
                    new.active == 0
                }
            }
            &&& after.primary_output == Some(primary)
            &&& after.outputs[other] == d.outputs[other]
            &&& after.detached == d.detached
            &&& after.last_active == d.last_active.remove(output.stable_key)
        }),
{
    let after = d.with_output(output);
    let p = primary.0 as u64;
    let had = d.outputs[p];
    let empty = Seq::<workspace::WorkspaceView>::empty();
    assert(d.outputs.dom() != Set::<u64>::empty()) by {
        assert(d.outputs.dom().contains(p));
    }
    strangers_stay(empty, had.workspaces, empty, had.active as int, output.stable_key);
    let (stays, leaves, shown) = desktop::parted(
        empty,
        had.workspaces,
        empty,
        had.active as int,
        output.stable_key,
    );
    occupied_workspaces_keep_their_order(leaves);
    let gone = outputs::occupied(leaves);
    let new = after.outputs[output.id.0 as u64];
    let ws = had.workspaces[i];
    assert(had.workspaces.contains(ws));
    assert(stays.contains(ws) <==> ws.original_output != Some(output.stable_key));
    if ws.original_output == Some(output.stable_key) && ws.occupied() {
        assert(leaves.contains(ws));
        assert(gone.contains(ws));
        let j = choose|j: int| 0 <= j < gone.len() && gone[j] == ws;
        assert(new.workspaces[j].id == ws.id);
    }
    assert forall|j: int| 0 <= j < new.workspaces.len() implies exists|m: int|
        0 <= m < had.workspaces.len() && (#[trigger] had.workspaces[m]).id == (
        #[trigger] new.workspaces[j]).id && had.workspaces[m].original_output == Some(
            output.stable_key,
        ) by {
        assert(gone.contains(gone[j]));
        assert(leaves.contains(gone[j]));
        assert(had.workspaces.contains(gone[j]));
        let m = choose|m: int| 0 <= m < had.workspaces.len() && had.workspaces[m] == gone[j];
        assert(had.workspaces[m].id == new.workspaces[j].id);
    }
    assert(after.outputs.dom() =~= d.outputs.dom().insert(output.id.0 as u64));
    if d.last_active.contains_key(output.stable_key) {
        desktop::first_with_id_place(new.workspaces, d.last_active[output.stable_key]);
    }
}

/// The first output that is connected is the primary one, and gets all workspaces that wait
/// detached and have a name or a window.
pub proof fn first_outputs_get_everything(
    d: desktop::DesktopView,
    output: outputs::OutputView,
    i: int,
)
    requires
        d.outputs.dom() == Set::<u64>::empty(),
        d.primary_output is None,
        0 <= i < d.detached.len(),
        d.detached[i].occupied(),
    ensures
        ({
            let after = d.with_output(output);
            let new = after.outputs[output.id.0 as u64];
            &&& after.primary_output == Some(output.id)
            &&& after.outputs.dom() == Set::<u64>::empty().insert(output.id.0 as u64)
            &&& after.detached.len() == 0
            &&& exists|j: int|
                0 <= j < new.workspaces.len() && (#[trigger] new.workspaces[j]).id
                    == d.detached[i].id && new.workspaces[j].tiled == d.detached[i].tiled
        }),
{
    let after = d.with_output(output);
    let new = after.outputs[output.id.0 as u64];
    occupied_workspaces_keep_their_order(d.detached);
    let kept = outputs::occupied(d.detached);
    assert(d.detached.contains(d.detached[i]));
    assert(kept.contains(d.detached[i]));
    let j = choose|j: int| 0 <= j < kept.len() && kept[j] == d.detached[i];
    assert(new.workspaces[j].id == d.detached[i].id);
    assert(after.outputs.dom() =~= Set::<u64>::empty().insert(output.id.0 as u64));
}

/// When an output is disconnected and others stay, the primary output stays the primary one, unless
/// it is the one that goes: the one with the smallest id is then. The primary output takes the
/// occupied workspaces of the one that goes, in front of its last, in their order; it goes on
/// showing what it showed. All others stay as they are. What the output showed is remembered for
/// when it comes back.
pub proof fn disconnected_outputs_leave_their_workspaces(
    d: desktop::DesktopView,
    output: OutputId,
    heir: u64,
    other: u64,
)
    requires
        d.outputs.dom().finite(),
        d.primary_output is Some,
        d.outputs.contains_key((d.primary_output->0).0 as u64),
        d.outputs.contains_key(output.0 as u64),
        d.outputs.contains_key(heir),
        heir != output.0 as u64,
        d.primary_output == Some(output) ==> forall|k: u64| #[trigger]
            d.outputs.contains_key(k) && k != output.0 as u64 ==> heir <= k,
        d.primary_output != Some(output) ==> (d.primary_output->0).0 as u64 == heir,
        heir <= u32::MAX,
        d.outputs[heir].workspaces.len() > 0,
        d.outputs[heir].active < d.outputs[heir].workspaces.len() - 1,
        d.outputs.contains_key(other),
        other != heir,
        other != output.0 as u64,
    ensures
        ({
            let after = d.without_output(output);
            let gone = d.outputs[output.0 as u64];
            let (had, now) = (d.outputs[heir], after.outputs[heir]);
            let moved = outputs::occupied(gone.workspaces);
            let n = had.workspaces.len() - 1;
            &&& after.outputs.dom() == d.outputs.dom().remove(output.0 as u64)
            &&& after.primary_output == Some(OutputId(heir as u32))
            &&& now.output == had.output
            &&& now.workspaces.len() == had.workspaces.len() + moved.len()
            &&& forall|i: int| 0 <= i < n ==> (#[trigger] now.workspaces[i]) == had.workspaces[i]
            &&& forall|i: int|
                0 <= i < moved.len() ==> {
                    let there = #[trigger] now.workspaces[n + i];
                    &&& there.id == moved[i].id
                    &&& there.name == moved[i].name
                    &&& there.tiled == moved[i].tiled
                    &&& there.floating.dom() == moved[i].floating.dom()
                    &&& there.original_output == moved[i].original_output
                }
            &&& now.workspaces.last() == had.workspaces.last()
            &&& now.active == had.active
            &&& after.outputs[other] == d.outputs[other]
            &&& after.detached == d.detached
            &&& gone.active < gone.workspaces.len() ==> after.last_active.contains_key(
                gone.output.stable_key,
            ) && after.last_active[gone.output.stable_key] == gone.workspaces[
                gone.active as int
            ].id
        }),
{
    let k = output.0 as u64;
    let left = d.outputs.remove(k);
    assert(left.dom().contains(heir));
    assert(left.dom() =~= d.outputs.dom().remove(k));
    ranking::ranking_ranks(left.dom(), |id: u64| 0);
    let keys = ranking::ascending(left.dom());
    assert(d.heir(output) == heir) by {
        if d.primary_output == Some(output) {
            assert(keys.to_set().contains(heir));
            let m = choose|m: int| 0 <= m < keys.len() && keys[m] == heir;
            assert(keys.to_set().contains(keys[0]));
            assert(d.outputs.contains_key(keys[0]));
            if m > 0 {
                assert(ranking::precedes(0, keys[0], 0, keys[m]));
            }
        }
    }
    let after = d.without_output(output);
    let gone = d.outputs[k];
    let moved = outputs::occupied(gone.workspaces);
    let had = d.outputs[heir];
    let now = after.outputs[heir];
    let n = had.workspaces.len() - 1;
    assert forall|i: int| 0 <= i < moved.len() implies {
        let there = #[trigger] now.workspaces[n + i];
        &&& there.id == moved[i].id
        &&& there.name == moved[i].name
        &&& there.tiled == moved[i].tiled
        &&& there.floating.dom() == moved[i].floating.dom()
        &&& there.original_output == moved[i].original_output
    } by {
        let change = viewport::ChangeView::Migrate {
            source: Some((gone.output.stable_key, gone.output.logical_size)),
            key: had.output.stable_key,
            size: had.output.logical_size,
        };
        assert(now.workspaces[n + i] == moved[i].changed(change));
        assert(moved[i].changed(change).floating.dom() =~= moved[i].floating.dom());
    }
    assert(after.outputs.dom() =~= d.outputs.dom().remove(k));
}

/// When the last output is disconnected, its occupied workspaces wait detached, behind those that
/// did already, and there is no primary output.
pub proof fn last_outputs_detach_their_workspaces(d: desktop::DesktopView, output: OutputId)
    requires
        d.outputs.dom() == Set::<u64>::empty().insert(output.0 as u64),
    ensures
        ({
            let after = d.without_output(output);
            let gone = d.outputs[output.0 as u64];
            &&& after.outputs.dom() == Set::<u64>::empty()
            &&& after.primary_output is None
            &&& after.detached == d.detached + outputs::occupied(gone.workspaces)
            &&& gone.active < gone.workspaces.len() ==> after.last_active.contains_key(
                gone.output.stable_key,
            ) && after.last_active[gone.output.stable_key] == gone.workspaces[
                gone.active as int
            ].id
        }),
{
    assert(d.outputs.remove(output.0 as u64).dom() =~= Set::<u64>::empty());
}

/// Whether an output is acceptable is a matter of its geometry alone: both sizes are positive, and so
/// is the scale. An output is refused just for that, or since its id or its stable key is taken.
pub proof fn outputs_are_refused_for_a_reason(d: desktop::DesktopView, output: outputs::OutputView)
    ensures
        ({
            let id_taken = d.outputs.contains_key(output.id.0 as u64);
            let bad_size = output.physical_size.width <= 0 || output.physical_size.height <= 0
                || output.logical_size.width <= 0 || output.logical_size.height <= 0;
            let bad_scale = output.native_scale.0 == 0;
            let key_taken = exists|k: u64| #[trigger]
                d.outputs.contains_key(k) && d.outputs[k].output.stable_key == output.stable_key;
            match d.connected(output) {
                Ok(_) => !id_taken && !bad_size && !bad_scale && !key_taken,
                Err(fault) => {
                    &&& id_taken ==> fault == desktop::DesktopFault::UnknownOutput(output.id)
                    &&& !id_taken && bad_size ==> fault == desktop::DesktopFault::InvalidOutputSize
                    &&& !id_taken && !bad_size && bad_scale ==> fault
                        == desktop::DesktopFault::InvalidOutputScale
                    &&& !id_taken && !bad_size && !bad_scale && key_taken ==> fault
                        == desktop::DesktopFault::DuplicateOutputStableKey(output.stable_key)
                },
            }
        }),
{
}

/// Normalization takes from an output no workspace with a name or a window and not the one that it
/// shows, takes every other empty one but the last, and adds an empty one at the end just where the
/// last is occupied or there is none.
pub proof fn normalization_takes_what_is_empty(set: outputs::SetView, id: u32)
    requires
        set.active < set.workspaces.len(),
    ensures
        ({
            let after = set.normalized(id).0;
            &&& forall|ws: workspace::WorkspaceView| #[trigger]
                set.workspaces.contains(ws) && ws.occupied() ==> after.workspaces.contains(ws)
            &&& after.workspaces.contains(set.workspaces[set.active as int])
            &&& forall|ws: workspace::WorkspaceView| #[trigger]
                after.workspaces.contains(ws) ==> set.workspaces.contains(ws) || ws
                    == after.workspaces.last()
            &&& after.workspaces.len() > 0 && !after.workspaces.last().occupied()
            &&& set.workspaces.last().occupied() ==> after.workspaces.last().id == WorkspaceId(id)
                && after.workspaces.last().original_output == Some(set.output.stable_key)
            &&& !set.workspaces.last().occupied() ==> after.workspaces.last()
                == set.workspaces.last() && set.normalized(id).1 == id
            &&& forall|j: int|
                0 <= j < after.workspaces.len() - 1 ==> (#[trigger] after.workspaces[j]).occupied()
                    || j == after.active
        }),
{
    let empty = Seq::<workspace::WorkspaceView>::empty();
    pruning_takes_what_is_empty(empty, set.workspaces, set.active as int);
    let (kept, shown) = outputs::pruned(empty, set.workspaces, set.active as int);
    outputs::pruned_bound(empty, set.workspaces, set.active as int);
    let after = set.normalized(id).0;
    let blank = workspace::WorkspaceView {
        original_output: Some(set.output.stable_key),
        ..workspace::WorkspaceView::blank(WorkspaceId(id))
    };
    assert(!blank.occupied()) by {
        assert(blank.tiled.dom() =~= Set::<u64>::empty());
        assert(blank.floating.dom() =~= Set::<u64>::empty());
    }
    assert forall|ws: workspace::WorkspaceView| #[trigger]
        set.workspaces.contains(ws) && ws.occupied() implies after.workspaces.contains(ws) by {
        assert(kept.contains(ws));
        pushed_contains(kept, blank, ws);
    }
    let seen = set.workspaces[set.active as int];
    assert(kept.contains(seen));
    pushed_contains(kept, blank, seen);
    assert forall|ws: workspace::WorkspaceView| #[trigger]
        after.workspaces.contains(ws) implies set.workspaces.contains(ws) || ws
        == after.workspaces.last() by {
        pushed_contains(kept, blank, ws);
    }
}

proof fn pruning_takes_what_is_empty(
    kept: Seq<workspace::WorkspaceView>,
    rest: Seq<workspace::WorkspaceView>,
    active: int,
)
    requires
        0 <= active < kept.len() + rest.len(),
        forall|j: int| 0 <= j < kept.len() && rest.len() > 0 ==> (#[trigger] kept[j]).occupied()
            || j == active,
    ensures
        ({
            let (list, shown) = outputs::pruned(kept, rest, active);
            &&& forall|ws: workspace::WorkspaceView| #[trigger]
                list.contains(ws) ==> kept.contains(ws) || rest.contains(ws)
            &&& forall|ws: workspace::WorkspaceView| #[trigger]
                kept.contains(ws) ==> list.contains(ws)
            &&& forall|ws: workspace::WorkspaceView| #[trigger]
                rest.contains(ws) && ws.occupied() ==> list.contains(ws)
            &&& active >= kept.len() ==> list.contains(rest[active - kept.len()])
            &&& rest.len() > 0 ==> list.len() > 0 && list.last() == rest.last()
            &&& 0 <= shown < list.len()
            &&& rest.len() > 0 ==> forall|j: int|
                0 <= j < list.len() - 1 ==> (#[trigger] list[j]).occupied() || j == shown
        }),
    decreases rest.len(),
{
    let (list, shown) = outputs::pruned(kept, rest, active);
    if rest.len() > 0 {
        let head = rest[0];
        let tail = rest.drop_first();
        assert forall|ws: workspace::WorkspaceView| #[trigger]
            rest.contains(ws) <==> ws == head || tail.contains(ws) by {
            if rest.contains(ws) {
                let k = choose|k: int| 0 <= k < rest.len() && rest[k] == ws;
                if k > 0 {
                    assert(tail[k - 1] == ws);
                }
            }
            if tail.contains(ws) {
                let k = choose|k: int| 0 <= k < tail.len() && tail[k] == ws;
                assert(rest[k + 1] == ws);
            }
            assert(rest[0] == head);
        }
        if !head.occupied() && kept.len() != active && rest.len() != 1 {
            pruning_takes_what_is_empty(
                kept,
                tail,
                if kept.len() < active {
                    active - 1
                } else {
                    active
                },
            );
        } else {
            let more = kept.push(head);
            if rest.len() > 1 {
                assert forall|j: int| 0 <= j < more.len() && tail.len() > 0 implies (
                #[trigger] more[j]).occupied() || j == active by {
                    if j < kept.len() {
                        assert(more[j] == kept[j]);
                    }
                }
            }
            pruning_takes_what_is_empty(more, tail, active);
            assert forall|ws: workspace::WorkspaceView| #[trigger]
                list.contains(ws) implies kept.contains(ws) || rest.contains(ws) by {
                pushed_contains(kept, head, ws);
            }
            assert forall|ws: workspace::WorkspaceView| #[trigger]
                kept.contains(ws) implies list.contains(ws) by {
                pushed_contains(kept, head, ws);
            }
            pushed_contains(kept, head, head);
            assert(list.contains(head));
            if rest.len() == 1 {
                assert(tail =~= Seq::empty());
                assert(list == more);
                assert forall|j: int| 0 <= j < list.len() - 1 implies (#[trigger] list[j]).occupied()
                    || j == shown by {
                    assert(list[j] == kept[j]);
                }
            }
        }
    }
}

} // verus!
