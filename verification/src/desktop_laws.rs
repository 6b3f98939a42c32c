//! What the desktop keeps through all transactions.

use crate::desktop;
use crate::directional_focus;
use crate::geometry::{Direction, Point, Size};
use crate::layout::WindowTransaction;
use crate::model::{CameraPolicy, OutputId, WindowId, WorkspaceId};
use crate::outputs;
use crate::outputs::{OutputTransform, Scale120};
use crate::ranking;
use crate::workspace;
use vstd::prelude::*;

verus! {

/// Every operation that succeeds leaves a desktop that keeps all invariants.
pub proof fn operations_keep_the_desktop_valid(
    before: desktop::DesktopView,
    output: outputs::OutputView,
    id: OutputId,
    transaction: desktop::TransactionView,
    workspace: WorkspaceId,
    window_transaction: WindowTransaction,
    window: WindowId,
    answers: Seq<Option<Point>>,
    direction: Direction,
    scores: Seq<Option<directional_focus::FocusScore>>,
    size: Size,
    scale: Scale120,
    transform: OutputTransform,
    gap: i64,
    policy: CameraPolicy,
)
    requires
        before.valid(),
    ensures
        before.connected(output) matches Ok(after) ==> after.valid(),
        before.disconnected(id) matches Ok(after) ==> after.valid(),
        before.applied(transaction, answers) matches Ok((after, _)) ==> after.valid(),
        before.applied_window(workspace, window_transaction, answers) matches Ok(after)
            ==> after.valid(),
        before.focused_window(window) matches Ok((after, _)) ==> after.valid(),
        before.focused_toward(workspace, direction, scores) matches Ok((after, _))
            ==> after.valid(),
        before.configured(id, size, size, scale, transform) matches Ok(after) ==> after.valid(),
        before.reconfigured(gap, policy, answers) matches Ok(after) ==> after.valid(),
{
}

proof fn outputs_fault_free(d: desktop::DesktopView, keys: Seq<u64>, n: int, i: int)
    requires
        d.outputs_fault(keys, n) is None,
        0 <= i < n,
    ensures
        d.output_fault(keys, i) is None,
    decreases n,
{
    if i < n - 1 {
        outputs_fault_free(d, keys, n - 1, i);
    }
}

proof fn identity_fault_free(all: Seq<workspace::WorkspaceView>, n: int, i: int)
    requires
        claimed_ok(all, n),
        0 <= i < n,
    ensures
        desktop::identity_fault(all, i) is None,
    decreases n,
{
    if i < n - 1 {
        identity_fault_free(all, n - 1, i);
    }
}

spec fn claimed_ok(all: Seq<workspace::WorkspaceView>, n: int) -> bool {
    desktop::claimed(all, n) is Ok
}

/// In a valid desktop every output is known under its own id and has a stable key that no
/// other has, a valid size and scale, a workspace that it shows, and an empty one at the end.
pub proof fn valid_outputs(d: desktop::DesktopView, k: u64)
    requires
        d.valid(),
        d.outputs.dom().finite(),
        d.outputs.contains_key(k),
    ensures
        d.outputs[k].output.id.0 == k,
        d.outputs[k].output.physical_size.valid(),
        d.outputs[k].output.logical_size.valid(),
        d.outputs[k].output.native_scale.0 > 0,
        d.outputs[k].active < d.outputs[k].workspaces.len(),
        !d.outputs[k].workspaces.last().occupied(),
        forall|j: u64| #[trigger]
            d.outputs.contains_key(j) && j != k ==> d.outputs[j].output.stable_key
                != d.outputs[k].output.stable_key,
        d.primary_output is Some,
        d.outputs.contains_key(desktop::key(d.primary_output->0)),
{
    let keys = d.keys();
    ranking::ranking_ranks(d.outputs.dom(), |id: u64| 0);
    assert(keys.to_set().contains(k));
    let i = choose|i: int| 0 <= i < keys.len() && keys[i] == k;
    outputs_fault_free(d, keys, keys.len() as int, i);
    assert forall|j: u64| #[trigger]
        d.outputs.contains_key(j) && j != k implies d.outputs[j].output.stable_key
        != d.outputs[k].output.stable_key by {
        assert(keys.to_set().contains(j));
        let m = choose|m: int| 0 <= m < keys.len() && keys[m] == j;
        outputs_fault_free(d, keys, keys.len() as int, m);
        if m < i {
            assert(d.outputs[keys[m]].output.stable_key != d.outputs[keys[i]].output.stable_key);
        } else {
            assert(d.outputs[keys[i]].output.stable_key != d.outputs[keys[m]].output.stable_key);
        }
    }
    assert(d.outputs.dom().contains(k));
}

/// In a valid desktop no two workspaces share an id or a name, and each is coherent.
pub proof fn valid_workspaces(d: desktop::DesktopView, i: int, j: int)
    requires
        d.valid(),
        0 <= i < d.all().len(),
        0 <= j < d.all().len(),
    ensures
        desktop::coherent(d.all()[i]),
        i != j ==> d.all()[i].id != d.all()[j].id,
        i != j && d.all()[i].name is Some ==> d.all()[i].name != d.all()[j].name,
{
    let all = d.all();
    let n = all.len() as int;
    identity_fault_free(all, n, i);
    identity_fault_free(all, n, j);
    if i < j {
        assert(all[i].id != all[j].id);
    } else if j < i {
        assert(all[j].id != all[i].id);
    }
}

proof fn claim_covers(
    owners: Map<u64, WorkspaceId>,
    list: Seq<u64>,
    n: int,
    id: WorkspaceId,
)
    requires
        desktop::claim(owners, list, n, id) is Ok,
        0 <= n <= list.len(),
    ensures
        ({
            let after = desktop::claim(owners, list, n, id)->Ok_0;
            &&& forall|w: u64| #[trigger]
                owners.contains_key(w) ==> after.contains_key(w) && after[w] == owners[w]
            &&& forall|k: int|
                0 <= k < n ==> after.contains_key(#[trigger] list[k]) && after[list[k]] == id
                    && !owners.contains_key(list[k])
        }),
    decreases n,
{
    if n > 0 {
        claim_covers(owners, list, n - 1, id);
    }
}

proof fn claimed_covers(all: Seq<workspace::WorkspaceView>, n: int, i: int, w: u64)
    requires
        desktop::claimed(all, n) is Ok,
        0 <= i < n <= all.len(),
        desktop::windows_of(all[i]).contains(w),
    ensures
        desktop::claimed(all, n)->Ok_0.contains_key(w),
        desktop::claimed(all, n)->Ok_0[w] == all[i].id,
    decreases n,
{
    let owners = desktop::claimed(all, n - 1)->Ok_0;
    let list = desktop::windows_of(all[n - 1]);
    claim_covers(owners, list, list.len() as int, all[n - 1].id);
    if i < n - 1 {
        claimed_covers(all, n - 1, i, w);
    } else {
        let k = choose|k: int| 0 <= k < list.len() && list[k] == w;
        assert(list[k] == w);
    }
}

/// A workspace lists every window that it has.
pub proof fn windows_are_listed(ws: workspace::WorkspaceView, window: WindowId)
    requires
        ws.tiled.dom().finite(),
        ws.floating.dom().finite(),
        ws.has(window),
    ensures
        desktop::windows_of(ws).contains(window.0),
{
    ranking::ranking_ranks(ws.tiled.dom(), |id: u64| 0);
    ranking::ranking_ranks(ws.floating.dom(), |id: u64| 0);
    let tiled = ranking::ascending(ws.tiled.dom());
    let floating = ranking::ascending(ws.floating.dom());
    let list = desktop::windows_of(ws);
    if ws.tiled.contains_key(window.0) {
        assert(tiled.to_set().contains(window.0));
        let k = choose|k: int| 0 <= k < tiled.len() && tiled[k] == window.0;
        assert(list[k] == window.0);
    } else if ws.floating.contains_key(window.0) {
        assert(floating.to_set().contains(window.0));
        let k = choose|k: int| 0 <= k < floating.len() && floating[k] == window.0;
        assert(list[tiled.len() + k] == window.0);
    } else if ws.is_maximized(window) {
        assert(list[(tiled.len() + floating.len()) as int] == window.0);
    } else {
        assert(list[list.len() - 1] == window.0);
    }
}

/// In a valid desktop no window is in two workspaces.
pub proof fn windows_have_one_workspace(d: desktop::DesktopView, i: int, j: int, window: WindowId)
    requires
        d.valid(),
        0 <= i < d.all().len(),
        0 <= j < d.all().len(),
        d.all()[i].tiled.dom().finite(),
        d.all()[i].floating.dom().finite(),
        d.all()[j].tiled.dom().finite(),
        d.all()[j].floating.dom().finite(),
        d.all()[i].has(window),
        d.all()[j].has(window),
    ensures
        i == j,
{
    let all = d.all();
    let n = all.len() as int;
    windows_are_listed(all[i], window);
    windows_are_listed(all[j], window);
    claimed_covers(all, n, i, window.0);
    claimed_covers(all, n, j, window.0);
    valid_workspaces(d, i, j);
}

proof fn claimed_once(all: Seq<workspace::WorkspaceView>, n: int, i: int)
    requires
        desktop::claimed(all, n) is Ok,
        0 <= i < n <= all.len(),
    ensures
        desktop::windows_of(all[i]).no_duplicates(),
    decreases n,
{
    if i < n - 1 {
        claimed_once(all, n - 1, i);
    } else {
        let owners = desktop::claimed(all, n - 1)->Ok_0;
        let list = desktop::windows_of(all[i]);
        claim_needs_once(owners, list, list.len() as int, all[i].id);
        assert(list.take(list.len() as int) =~= list);
    }
}

proof fn claim_needs_once(
    owners: Map<u64, WorkspaceId>,
    list: Seq<u64>,
    n: int,
    id: WorkspaceId,
)
    requires
        desktop::claim(owners, list, n, id) is Ok,
        0 <= n <= list.len(),
    ensures
        list.take(n).no_duplicates(),
    decreases n,
{
    if n > 0 {
        claim_needs_once(owners, list, n - 1, id);
        claim_covers(owners, list, n - 1, id);
        let before = list.take(n - 1);
        assert(forall|k: int| 0 <= k < n - 1 ==> before[k] == #[trigger] list.take(n)[k]);
        assert forall|a: int, b: int| 0 <= a < n && 0 <= b < n && a != b implies list.take(n)[a]
            != list.take(n)[b] by {
            assert(list[a] == list.take(n)[a] && list[b] == list.take(n)[b]);
            if a < n - 1 && b < n - 1 {
                assert(before[a] != before[b]);
            }
        }
    }
}

/// In a valid desktop every window has one mode: it is tiled, floating, maximized or fullscreen,
/// and no two of these.
pub proof fn modes_are_exclusive(d: desktop::DesktopView, i: int, window: WindowId)
    requires
        d.valid(),
        0 <= i < d.all().len(),
        d.all()[i].tiled.dom().finite(),
        d.all()[i].floating.dom().finite(),
    ensures
        ({
            let ws = d.all()[i];
            &&& ws.tiled.contains_key(window.0) ==> !ws.floating.contains_key(window.0)
                && !ws.is_maximized(window) && !ws.is_fullscreen(window)
            &&& ws.floating.contains_key(window.0) ==> !ws.is_maximized(window)
                && !ws.is_fullscreen(window)
            &&& ws.is_maximized(window) ==> !ws.is_fullscreen(window)
        }),
{
    let ws = d.all()[i];
    let list = desktop::windows_of(ws);
    let tiled = ranking::ascending(ws.tiled.dom());
    let floating = ranking::ascending(ws.floating.dom());
    ranking::ranking_ranks(ws.tiled.dom(), |id: u64| 0);
    ranking::ranking_ranks(ws.floating.dom(), |id: u64| 0);
    claimed_once(d.all(), d.all().len() as int, i);
    let a = if ws.tiled.contains_key(window.0) {
        assert(tiled.to_set().contains(window.0));
        tiled.index_of(window.0)
    } else {
        -1
    };
    let b = if ws.floating.contains_key(window.0) {
        assert(floating.to_set().contains(window.0));
        tiled.len() + floating.index_of(window.0)
    } else {
        -1
    };
    let c = (tiled.len() + floating.len()) as int;
    if a >= 0 {
        assert(list[a] == window.0);
    }
    if b >= 0 {
        assert(list[b] == window.0);
    }
    if ws.is_maximized(window) {
        assert(list[c] == window.0);
    }
    if ws.is_fullscreen(window) {
        assert(list[list.len() - 1] == window.0);
    }
}

/// Whether an output shows one of its workspaces, has an empty one at the end, and no other
/// empty one but the one that it shows.
pub open spec fn tidy(set: outputs::SetView) -> bool {
    &&& set.active < set.workspaces.len()
    &&& !set.workspaces.last().occupied()
    &&& forall|i: int|
        0 <= i < set.workspaces.len() - 1 && !(#[trigger] set.workspaces[i]).occupied() ==> i
            == set.active
}

proof fn pruning_tidies(
    kept: Seq<workspace::WorkspaceView>,
    rest: Seq<workspace::WorkspaceView>,
    active: int,
)
    requires
        active >= 0,
        forall|i: int|
            0 <= i < kept.len() && !(#[trigger] kept[i]).occupied() ==> i == active || (rest.len()
                == 0 && i == kept.len() - 1),
    ensures
        ({
            let (list, shown) = outputs::pruned(kept, rest, active);
            &&& shown >= 0
            &&& shown <= active
            &&& list.len() <= kept.len() + rest.len()
            &&& forall|i: int|
                0 <= i < list.len() && !(#[trigger] list[i]).occupied() ==> i == shown || i
                    == list.len() - 1
        }),
    decreases rest.len(),
{
    if rest.len() > 0 {
        if !rest[0].occupied() && kept.len() != active && rest.len() != 1 {
            let shown = if kept.len() < active {
                active - 1
            } else {
                active
            };
            assert forall|i: int| 0 <= i < kept.len() && !(#[trigger] kept[i]).occupied() implies i
                == shown || (rest.drop_first().len() == 0 && i == kept.len() - 1) by {}
            pruning_tidies(kept, rest.drop_first(), shown);
        } else {
            let more = kept.push(rest[0]);
            assert forall|i: int| 0 <= i < more.len() && !(#[trigger] more[i]).occupied() implies i
                == active || (rest.drop_first().len() == 0 && i == more.len() - 1) by {
                if i < kept.len() {
                    assert(more[i] == kept[i]);
                }
            }
            pruning_tidies(more, rest.drop_first(), active);
        }
    }
}

/// Normalization leaves an output tidy.
pub proof fn normalization_tidies(set: outputs::SetView, id: u32)
    requires
        set.workspaces.len() < usize::MAX,
    ensures
        tidy(set.normalized(id).0),
        set.normalized(id).0.output == set.output,
{
    pruning_tidies(Seq::empty(), set.workspaces, set.active as int);
    let (kept, active) = outputs::pruned(Seq::empty(), set.workspaces, set.active as int);
    let after = set.normalized(id).0;
    assert forall|i: int|
        0 <= i < after.workspaces.len() - 1 && !(
        #[trigger] after.workspaces[i]).occupied() implies i == after.active by {
        if i < kept.len() {
            assert(after.workspaces[i] == kept[i]);
        }
    }
}

proof fn pruning_keeps_tidy(
    kept: Seq<workspace::WorkspaceView>,
    rest: Seq<workspace::WorkspaceView>,
    active: int,
)
    requires
        forall|i: int|
            0 <= i < rest.len() - 1 && !(#[trigger] rest[i]).occupied() ==> kept.len() + i
                == active,
    ensures
        outputs::pruned(kept, rest, active) == (kept + rest, active),
    decreases rest.len(),
{
    if rest.len() == 0 {
        assert(kept + rest =~= kept);
    } else {
        let more = kept.push(rest[0]);
        let tail = rest.drop_first();
        assert(more + tail =~= kept + rest);
        assert forall|i: int| 0 <= i < tail.len() - 1 && !(#[trigger] tail[i]).occupied() implies
            more.len() + i == active by {
            assert(tail[i] == rest[i + 1]);
        }
        if rest.len() > 1 && !rest[0].occupied() {
            assert(kept.len() + 0 == active);
        }
        pruning_keeps_tidy(more, tail, active);
    }
}

/// Normalization changes nothing about an output that is tidy, and creates no workspace for it.
pub proof fn tidy_is_normal(set: outputs::SetView, id: u32)
    requires
        tidy(set),
    ensures
        set.normalized(id) == (set, id),
{
    let empty = Seq::<workspace::WorkspaceView>::empty();
    pruning_keeps_tidy(empty, set.workspaces, set.active as int);
    assert(empty + set.workspaces =~= set.workspaces);
}

} // verus!
