//! Workspaces that come home: when an output is connected again, the workspaces that it had
//! return to it from the primary output, and it shows the one that it showed.

use crate::desktop;
use crate::geometry::Size;
use crate::model::{OutputId, WindowId, WorkspaceId};
use crate::outputs;
use crate::ranking;
use crate::survival;
use crate::viewport;
use crate::workspace;
use vstd::prelude::*;

verus! {

/// The occupied workspaces of a list that belong to the output `key`.
pub open spec fn belonging(list: Seq<workspace::WorkspaceView>, key: Seq<char>) -> Seq<
    workspace::WorkspaceView,
>
    decreases list.len(),
{
    if list.len() == 0 {
        list
    } else {
        let rest = belonging(list.drop_last(), key);
        if list.last().occupied() && list.last().original_output == Some(key) {
            rest.push(list.last())
        } else {
            rest
        }
    }
}

proof fn belonging_joins(
    a: Seq<workspace::WorkspaceView>,
    b: Seq<workspace::WorkspaceView>,
    key: Seq<char>,
)
    ensures
        belonging(a + b, key) == belonging(a, key) + belonging(b, key),
        outputs::occupied(a + b) == outputs::occupied(a) + outputs::occupied(b),
    decreases b.len(),
{
    if b.len() == 0 {
        assert(a + b =~= a);
        assert(belonging(a, key) + belonging(b, key) =~= belonging(a, key));
        assert(outputs::occupied(a) + outputs::occupied(b) =~= outputs::occupied(a));
    } else {
        belonging_joins(a, b.drop_last(), key);
        assert((a + b).drop_last() =~= a + b.drop_last());
        assert((a + b).last() == b.last());
        assert(belonging(a + b, key) =~= belonging(a, key) + belonging(b, key));
        assert(outputs::occupied(a + b) =~= outputs::occupied(a) + outputs::occupied(b));
    }
}

proof fn belonging_steps(
    kept: Seq<workspace::WorkspaceView>,
    ws: workspace::WorkspaceView,
    key: Seq<char>,
)
    ensures
        belonging(kept.push(ws), key) == (if ws.occupied() && ws.original_output == Some(key) {
            belonging(kept, key).push(ws)
        } else {
            belonging(kept, key)
        }),
        outputs::occupied(kept.push(ws)) == (if ws.occupied() {
            outputs::occupied(kept).push(ws)
        } else {
            outputs::occupied(kept)
        }),
{
    assert(kept.push(ws).drop_last() =~= kept);
}

/// Pruning keeps the occupied workspaces in their order.
proof fn pruning_keeps_occupied(
    kept: Seq<workspace::WorkspaceView>,
    rest: Seq<workspace::WorkspaceView>,
    active: int,
    key: Seq<char>,
)
    ensures
        ({
            let list = outputs::pruned(kept, rest, active).0;
            &&& belonging(list, key) == belonging(kept, key) + belonging(rest, key)
            &&& outputs::occupied(list) == outputs::occupied(kept) + outputs::occupied(rest)
        }),
    decreases rest.len(),
{
    if rest.len() == 0 {
        assert(belonging(kept, key) + belonging(rest, key) =~= belonging(kept, key));
        assert(outputs::occupied(kept) + outputs::occupied(rest) =~= outputs::occupied(kept));
    } else {
        let head = seq![rest[0]];
        let tail = rest.drop_first();
        let empty = Seq::<workspace::WorkspaceView>::empty();
        assert(rest =~= head + tail);
        belonging_joins(head, tail, key);
        assert(head =~= empty.push(rest[0]));
        belonging_steps(empty, rest[0], key);
        if !rest[0].occupied() && kept.len() != active && rest.len() != 1 {
            let shown = if kept.len() < active {
                active - 1
            } else {
                active
            };
            pruning_keeps_occupied(kept, tail, shown, key);
            assert(belonging(head, key) =~= empty);
            assert(outputs::occupied(head) =~= empty);
            assert(belonging(rest, key) =~= belonging(tail, key));
            assert(outputs::occupied(rest) =~= outputs::occupied(tail));
        } else {
            pruning_keeps_occupied(kept.push(rest[0]), tail, active, key);
            belonging_steps(kept, rest[0], key);
            let list = outputs::pruned(kept, rest, active).0;
            assert(belonging(list, key) =~= belonging(kept, key) + belonging(rest, key));
            assert(outputs::occupied(list) =~= outputs::occupied(kept) + outputs::occupied(rest));
        }
    }
}

/// Normalization keeps the occupied workspaces of an output in their order.
pub proof fn normalization_keeps_occupied(set: outputs::SetView, id: u32, key: Seq<char>)
    ensures
        outputs::occupied(set.normalized(id).0.workspaces) == outputs::occupied(set.workspaces),
        belonging(set.normalized(id).0.workspaces, key) == belonging(set.workspaces, key),
{
    let empty = Seq::<workspace::WorkspaceView>::empty();
    pruning_keeps_occupied(empty, set.workspaces, set.active as int, key);
    let (kept, _) = outputs::pruned(empty, set.workspaces, set.active as int);
    let blank = workspace::WorkspaceView {
        original_output: Some(set.output.stable_key),
        ..workspace::WorkspaceView::blank(WorkspaceId(id))
    };
    assert(!blank.occupied()) by {
        assert(blank.tiled.dom() =~= Set::<u64>::empty());
        assert(blank.floating.dom() =~= Set::<u64>::empty());
    }
    belonging_steps(kept, blank, key);
    assert(belonging(empty, key) + belonging(set.workspaces, key) =~= belonging(
        set.workspaces,
        key,
    ));
    assert(outputs::occupied(empty) + outputs::occupied(set.workspaces) =~= outputs::occupied(
        set.workspaces,
    ));
}

proof fn pruning_keeps_shown(
    kept: Seq<workspace::WorkspaceView>,
    rest: Seq<workspace::WorkspaceView>,
    active: int,
)
    requires
        0 <= active < kept.len() + rest.len(),
    ensures
        ({
            let (list, shown) = outputs::pruned(kept, rest, active);
            0 <= shown < list.len() && list[shown] == (kept + rest)[active]
        }),
    decreases rest.len(),
{
    if rest.len() > 0 {
        let tail = rest.drop_first();
        if !rest[0].occupied() && kept.len() != active && rest.len() != 1 {
            let shown = if kept.len() < active {
                active - 1
            } else {
                active
            };
            pruning_keeps_shown(kept, tail, shown);
            assert((kept + tail)[shown] == (kept + rest)[active]);
        } else {
            pruning_keeps_shown(kept.push(rest[0]), tail, active);
            assert(kept.push(rest[0]) + tail =~= kept + rest);
        }
    }
}

/// Normalization leaves an output showing the workspace that it shows.
pub proof fn normalization_keeps_shown(set: outputs::SetView, id: u32)
    requires
        set.active < set.workspaces.len(),
    ensures
        set.normalized(id).0.active < set.normalized(id).0.workspaces.len(),
        set.normalized(id).0.workspaces[set.normalized(id).0.active as int]
            == set.workspaces[set.active as int],
{
    let empty = Seq::<workspace::WorkspaceView>::empty();
    pruning_keeps_shown(empty, set.workspaces, set.active as int);
    outputs::pruned_bound(empty, set.workspaces, set.active as int);
    assert(empty + set.workspaces =~= set.workspaces);
}

proof fn parting_takes(
    kept: Seq<workspace::WorkspaceView>,
    rest: Seq<workspace::WorkspaceView>,
    taken: Seq<workspace::WorkspaceView>,
    active: int,
    key: Seq<char>,
)
    ensures
        desktop::parted(kept, rest, taken, active, key).1 == taken + belonging(rest, key),
    decreases rest.len(),
{
    if rest.len() == 0 {
        assert(taken + belonging(rest, key) =~= taken);
    } else {
        let head = seq![rest[0]];
        let tail = rest.drop_first();
        let empty = Seq::<workspace::WorkspaceView>::empty();
        assert(rest =~= head + tail);
        belonging_joins(head, tail, key);
        assert(head =~= empty.push(rest[0]));
        belonging_steps(empty, rest[0], key);
        if rest[0].original_output == Some(key) {
            let more = if rest[0].occupied() {
                taken.push(rest[0])
            } else {
                taken
            };
            let shown = if kept.len() <= active && active > 0 {
                active - 1
            } else {
                active
            };
            parting_takes(kept, tail, more, shown, key);
            assert(more + belonging(tail, key) =~= taken + belonging(rest, key));
        } else {
            parting_takes(kept.push(rest[0]), tail, taken, active, key);
            assert(belonging(rest, key) =~= belonging(tail, key));
        }
    }
}

proof fn strangers_do_not_belong(list: Seq<workspace::WorkspaceView>, key: Seq<char>)
    requires
        forall|i: int| 0 <= i < list.len() ==> (#[trigger] list[i]).original_output != Some(key),
    ensures
        belonging(list, key) == Seq::<workspace::WorkspaceView>::empty(),
    decreases list.len(),
{
    if list.len() > 0 {
        assert(list.last() == list[list.len() - 1]);
        strangers_do_not_belong(list.drop_last(), key);
    }
}

proof fn all_belong(list: Seq<workspace::WorkspaceView>, key: Seq<char>)
    requires
        forall|i: int|
            0 <= i < list.len() ==> (#[trigger] list[i]).occupied() && list[i].original_output
                == Some(key),
    ensures
        belonging(list, key) == list,
        outputs::occupied(list) == list,
    decreases list.len(),
{
    if list.len() > 0 {
        assert(list.last() == list[list.len() - 1]);
        all_belong(list.drop_last(), key);
        assert(list =~= list.drop_last().push(list.last()));
    }
}

proof fn occupied_are_occupied(list: Seq<workspace::WorkspaceView>)
    ensures
        forall|i: int|
            0 <= i < outputs::occupied(list).len() ==> (#[trigger] outputs::occupied(
                list,
            )[i]).occupied(),
    decreases list.len(),
{
    if list.len() > 0 {
        let rest = outputs::occupied(list.drop_last());
        let all = outputs::occupied(list);
        occupied_are_occupied(list.drop_last());
        assert forall|i: int| 0 <= i < all.len() implies (#[trigger] all[i]).occupied() by {
            if i < rest.len() {
                assert(all[i] == rest[i]);
            }
        }
    }
}

/// What normalization of the first `n` outputs makes of one of them; with the id that a new
/// workspace of it gets.
proof fn normalized_one(d: desktop::DesktopView, keys: Seq<u64>, n: int, i: int) -> (id: u32)
    requires
        0 <= i < n <= keys.len(),
        keys.no_duplicates(),
        forall|j: int| 0 <= j < keys.len() ==> d.outputs.contains_key(#[trigger] keys[j]),
    ensures
        d.normalized_outputs(keys, n).outputs.contains_key(keys[i]),
        d.normalized_outputs(keys, n).outputs[keys[i]] == d.outputs[keys[i]].normalized(id).0,
    decreases n,
{
    let before = d.normalized_outputs(keys, n - 1);
    if i == n - 1 {
        untouched(d, keys, n - 1, keys[i]);
        before.next_workspace_id
    } else {
        let id = normalized_one(d, keys, n - 1, i);
        assert(keys[i] != keys[n - 1]);
        id
    }
}

proof fn untouched(d: desktop::DesktopView, keys: Seq<u64>, n: int, k: u64)
    requires
        0 <= n <= keys.len(),
        forall|j: int| 0 <= j < n ==> keys[j] != k,
    ensures
        d.normalized_outputs(keys, n).outputs.contains_key(k) == d.outputs.contains_key(k),
        d.normalized_outputs(keys, n).outputs[k] == d.outputs[k],
        d.normalized_outputs(keys, n).last_active == d.last_active,
        d.normalized_outputs(keys, n).primary_output == d.primary_output,
    decreases n,
{
    if n > 0 {
        untouched(d, keys, n - 1, k);
    }
}

proof fn bookkeeping_untouched(d: desktop::DesktopView, keys: Seq<u64>, n: int)
    ensures
        d.normalized_outputs(keys, n).last_active == d.last_active,
        d.normalized_outputs(keys, n).primary_output == d.primary_output,
    decreases n,
{
    if n > 0 {
        bookkeeping_untouched(d, keys, n - 1);
    }
}

/// What normalization makes of an output.
pub proof fn normalized_output(d: desktop::DesktopView, k: u64) -> (id: u32)
    requires
        d.outputs.dom().finite(),
        d.outputs.contains_key(k),
    ensures
        d.normalized().outputs.contains_key(k),
        d.normalized().outputs[k] == d.outputs[k].normalized(id).0,
        d.normalized().last_active == d.last_active,
        d.normalized().primary_output == d.primary_output,
{
    let keys = d.keys();
    ranking::ranking_ranks(d.outputs.dom(), |id: u64| 0);
    assert(keys.to_set().contains(k));
    let i = choose|i: int| 0 <= i < keys.len() && keys[i] == k;
    assert forall|j: int| 0 <= j < keys.len() implies d.outputs.contains_key(#[trigger] keys[j]) by {
        assert(keys.to_set().contains(keys[j]));
    }
    bookkeeping_untouched(d, keys, keys.len() as int);
    normalized_one(d, keys, keys.len() as int, i)
}

/// The workspaces of an output as they are when it has been disconnected and connected again:
/// migrated to the primary output and back.
pub open spec fn there_and_back(
    list: Seq<workspace::WorkspaceView>,
    home: Seq<char>,
    home_size: Size,
    away: Seq<char>,
    away_size: Size,
    new_size: Size,
) -> Seq<workspace::WorkspaceView> {
    desktop::each_changed(
        desktop::each_changed(
            outputs::occupied(list),
            viewport::ChangeView::Migrate {
                source: Some((home, home_size)),
                key: away,
                size: away_size,
            },
        ),
        viewport::ChangeView::Migrate {
            source: Some((away, away_size)),
            key: home,
            size: new_size,
        },
    )
}

/// An output that is not the primary one and is disconnected and connected again, perhaps with
/// another id and size, gets back the occupied workspaces that it had, in their order, with
/// their floating windows migrated there and back. The occupied ones among them must belong to
/// it, and no workspace of the primary output may.
pub proof fn workspaces_come_home(
    d: desktop::DesktopView,
    output: OutputId,
    again: outputs::OutputView,
)
    requires
        d.outputs.dom().finite(),
        d.anchored(),
        d.outputs.contains_key(desktop::key(output)),
        d.primary_output != Some(output),
        again.stable_key == d.outputs[desktop::key(output)].output.stable_key,
        forall|i: int|
            0 <= i < d.outputs[desktop::key(output)].workspaces.len() && (
            #[trigger] d.outputs[desktop::key(output)].workspaces[i]).occupied()
                ==> d.outputs[desktop::key(output)].workspaces[i].original_output == Some(
                again.stable_key,
            ),
        forall|i: int|
            0 <= i < d.outputs[desktop::key(d.primary_output->0)].workspaces.len() ==> (
            #[trigger] d.outputs[desktop::key(d.primary_output->0)].workspaces[i]).original_output
                != Some(again.stable_key),
        d.disconnected(output) is Ok,
        d.disconnected(output)->Ok_0.connected(again) is Ok,
    ensures
        ({
            let home = d.outputs[desktop::key(output)];
            let away = d.outputs[desktop::key(d.primary_output->0)].output;
            let after = d.disconnected(output)->Ok_0.connected(again)->Ok_0;
            outputs::occupied(after.outputs[desktop::key(again.id)].workspaces) == there_and_back(
                home.workspaces,
                home.output.stable_key,
                home.output.logical_size,
                away.stable_key,
                away.logical_size,
                again.logical_size,
            )
        }),
        // It shows the workspace that it showed, where that is occupied.
        ({
            let home = d.outputs[desktop::key(output)];
            let after = d.disconnected(output)->Ok_0.connected(again)->Ok_0;
            home.active < home.workspaces.len() && home.workspaces[home.active as int].occupied()
                && home.workspaces.len() < usize::MAX ==> after.shown(again.id) is Some
                && after.shown(again.id)->0.id == home.workspaces[home.active as int].id
        }),
{
    let key = again.stable_key;
    let k = desktop::key(output);
    let p = desktop::key(d.primary_output->0);
    let home = d.outputs[k];
    let target = d.outputs[p];
    let homeless = outputs::occupied(home.workspaces);
    let there = viewport::ChangeView::Migrate {
        source: Some((home.output.stable_key, home.output.logical_size)),
        key: target.output.stable_key,
        size: target.output.logical_size,
    };
    let moved = desktop::each_changed(homeless, there);
    let gone = d.without_output(output);
    let left = d.outputs.remove(k);
    assert(left.dom().contains(p));
    assert(d.outputs.contains_key(p));
    assert(left.dom() != Set::<u64>::empty());
    let at = if target.workspaces.len() > 0 {
        target.workspaces.len() - 1
    } else {
        0
    };
    let list = target.workspaces.take(at) + moved + target.workspaces.skip(at);
    assert(gone.outputs[p].workspaces == list);
    assert(gone.outputs.dom().subset_of(d.outputs.dom()));
    vstd::set_lib::lemma_set_subset_finite(d.outputs.dom(), gone.outputs.dom());
    let id = normalized_output(gone, p);
    let mid = d.disconnected(output)->Ok_0;
    assert(mid == gone.normalized());

    // The workspaces that return are those that went.
    occupied_belong_home(home.workspaces, key);
    assert forall|i: int| 0 <= i < moved.len() implies (#[trigger] moved[i]).occupied()
        && moved[i].original_output == Some(key) by {
        assert(homeless[i].occupied() && homeless[i].original_output == Some(key));
        survival::changing_keeps_windows(homeless[i], there, WindowId(0));
    }
    all_belong(moved, key);
    strangers_do_not_belong(target.workspaces.take(at), key);
    strangers_do_not_belong(target.workspaces.skip(at), key);
    belonging_joins(target.workspaces.take(at) + moved, target.workspaces.skip(at), key);
    belonging_joins(target.workspaces.take(at), moved, key);
    assert(belonging(list, key) =~= moved);
    normalization_keeps_occupied(gone.outputs[p], id, key);
    assert(belonging(mid.outputs[p].workspaces, key) == moved);
    parting_takes(
        Seq::empty(),
        mid.outputs[p].workspaces,
        Seq::empty(),
        mid.outputs[p].active as int,
        key,
    );
    assert(mid.outputs.dom().contains(p));
    let (rest, taken) = mid.yielded(key);
    assert(taken =~= moved);

    // They are migrated back and kept by normalization.
    let back = viewport::ChangeView::Migrate {
        source: Some((target.output.stable_key, target.output.logical_size)),
        key,
        size: again.logical_size,
    };
    assert(mid.primary_viewport() == Some(
        (target.output.stable_key, target.output.logical_size),
    ));
    let returned = desktop::each_changed(moved, back);
    let added = mid.with_output(again);
    let kk = desktop::key(again.id);
    assert(added.outputs[kk].workspaces == returned);
    assert(mid.outputs.dom() == gone.outputs.dom()) by {
        same_outputs(gone);
    }
    assert(added.outputs.dom() =~= mid.outputs.dom().insert(kk));
    let id2 = normalized_output(added, kk);
    normalization_keeps_occupied(added.outputs[kk], id2, key);
    assert forall|i: int| 0 <= i < returned.len() implies (#[trigger] returned[i]).occupied()
        && returned[i].original_output == Some(key) by {
        assert(moved[i].occupied() && moved[i].original_output == Some(key));
        survival::changing_keeps_windows(moved[i], back, WindowId(0));
    }
    all_belong(returned, key);

    // The workspace that was shown is remembered and found.
    if home.active < home.workspaces.len() && home.workspaces[home.active as int].occupied()
        && home.workspaces.len() < usize::MAX {
        let shown = home.workspaces[home.active as int];
        occupied_contains(home.workspaces, home.active as int);
        let i = choose|i: int| 0 <= i < homeless.len() && homeless[i] == shown;
        assert(returned[i].id == shown.id);
        desktop::first_with_id_place(returned, shown.id);
        occupied_is_shorter(home.workspaces);
        assert(mid.last_active[key] == shown.id);
        normalization_keeps_shown(added.outputs[kk], id2);
    }
}

proof fn occupied_belong_home(list: Seq<workspace::WorkspaceView>, key: Seq<char>)
    requires
        forall|i: int|
            0 <= i < list.len() && (#[trigger] list[i]).occupied() ==> list[i].original_output
                == Some(key),
    ensures
        forall|i: int|
            0 <= i < outputs::occupied(list).len() ==> (#[trigger] outputs::occupied(
                list,
            )[i]).occupied() && outputs::occupied(list)[i].original_output == Some(key),
    decreases list.len(),
{
    if list.len() > 0 {
        assert(list.last() == list[list.len() - 1]);
        occupied_belong_home(list.drop_last(), key);
    }
}

proof fn occupied_contains(list: Seq<workspace::WorkspaceView>, i: int)
    requires
        0 <= i < list.len(),
        list[i].occupied(),
    ensures
        outputs::occupied(list).contains(list[i]),
    decreases list.len(),
{
    if i < list.len() - 1 {
        let rest = outputs::occupied(list.drop_last());
        occupied_contains(list.drop_last(), i);
        let j = choose|j: int| 0 <= j < rest.len() && rest[j] == list[i];
        assert(outputs::occupied(list)[j] == list[i]);
    } else {
        let all = outputs::occupied(list);
        assert(all[all.len() - 1] == list[i]);
    }
}

proof fn occupied_is_shorter(list: Seq<workspace::WorkspaceView>)
    ensures
        outputs::occupied(list).len() <= list.len(),
    decreases list.len(),
{
    if list.len() > 0 {
        occupied_is_shorter(list.drop_last());
    }
}

proof fn same_outputs(d: desktop::DesktopView)
    requires
        d.outputs.dom().finite(),
    ensures
        d.normalized().outputs.dom() == d.outputs.dom(),
{
    let keys = d.keys();
    ranking::ranking_ranks(d.outputs.dom(), |id: u64| 0);
    assert forall|j: int| 0 <= j < keys.len() implies d.outputs.contains_key(#[trigger] keys[j]) by {
        assert(keys.to_set().contains(keys[j]));
    }
    same_outputs_up_to(d, keys, keys.len() as int);
}

proof fn same_outputs_up_to(d: desktop::DesktopView, keys: Seq<u64>, n: int)
    requires
        0 <= n <= keys.len(),
        forall|j: int| 0 <= j < keys.len() ==> d.outputs.contains_key(#[trigger] keys[j]),
    ensures
        d.normalized_outputs(keys, n).outputs.dom() == d.outputs.dom(),
    decreases n,
{
    if n > 0 {
        same_outputs_up_to(d, keys, n - 1);
        assert(d.outputs.contains_key(keys[n - 1]));
        assert(d.normalized_outputs(keys, n).outputs.dom() =~= d.outputs.dom());
    }
}

/// A workspace that goes to another output and comes back has the windows that it had, at the
/// places on the canvas that they had, and each floating window has the rectangle that it had,
/// where that fits its output.
pub proof fn coming_home_restores(
    ws: workspace::WorkspaceView,
    home: Seq<char>,
    home_size: Size,
    away: Seq<char>,
    away_size: Size,
    k: u64,
)
    requires
        home != away,
        ws.floating.contains_key(k),
        viewport::clamped_rect(ws.floating[k].viewport.rect, home_size)
            == ws.floating[k].viewport.rect,
    ensures
        ({
            let there = ws.changed(
                viewport::ChangeView::Migrate {
                    source: Some((home, home_size)),
                    key: away,
                    size: away_size,
                },
            );
            let back = there.changed(
                viewport::ChangeView::Migrate {
                    source: Some((away, away_size)),
                    key: home,
                    size: home_size,
                },
            );
            &&& back.id == ws.id
            &&& back.name == ws.name
            &&& back.tiled == ws.tiled
            &&& back.floating.dom() == ws.floating.dom()
            &&& back.floating[k].window == ws.floating[k].window
            &&& back.floating[k].viewport.rect == ws.floating[k].viewport.rect
            &&& back.camera == ws.camera
            &&& back.focused_window == ws.focused_window
        }),
{
    let there = ws.changed(
        viewport::ChangeView::Migrate {
            source: Some((home, home_size)),
            key: away,
            size: away_size,
        },
    );
    let back = there.changed(
        viewport::ChangeView::Migrate {
            source: Some((away, away_size)),
            key: home,
            size: home_size,
        },
    );
    viewport::migration_returns(ws.floating[k].viewport, home, home_size, away, away_size);
    assert(back.floating.dom() =~= ws.floating.dom());
}

/// The workspaces of the last output wait detached, and all of them go to the next output that
/// is connected, whichever it is.
pub proof fn detached_workspaces_return(
    d: desktop::DesktopView,
    output: OutputId,
    next: outputs::OutputView,
)
    requires
        d.outputs.dom() == Set::<u64>::empty().insert(desktop::key(output)),
        d.disconnected(output) is Ok,
        d.disconnected(output)->Ok_0.connected(next) is Ok,
    ensures
        ({
            let waiting = d.disconnected(output)->Ok_0;
            let after = waiting.connected(next)->Ok_0;
            let home = d.outputs[desktop::key(output)];
            &&& waiting.outputs.dom() == Set::<u64>::empty()
            &&& waiting.detached == outputs::occupied(d.detached) + outputs::occupied(
                home.workspaces,
            )
            &&& outputs::occupied(after.outputs[desktop::key(next.id)].workspaces)
                == desktop::each_changed(
                waiting.detached,
                viewport::ChangeView::Migrate {
                    source: None,
                    key: next.stable_key,
                    size: next.logical_size,
                },
            )
        }),
{
    let k = desktop::key(output);
    let home = d.outputs[k];
    let gone = d.without_output(output);
    let left = d.outputs.remove(k);
    assert(left.dom() =~= Set::<u64>::empty());
    assert(d.outputs.dom().contains(k));
    let keys = gone.keys();
    ranking::ranking_ranks(gone.outputs.dom(), |id: u64| 0);
    assert(keys.len() == 0) by {
        if keys.len() > 0 {
            assert(keys.to_set().contains(keys[0]));
        }
    }
    let waiting = d.disconnected(output)->Ok_0;
    let homeless = outputs::occupied(home.workspaces);
    belonging_joins(d.detached, homeless, next.stable_key);
    occupied_are_occupied(home.workspaces);
    occupied_twice(home.workspaces);
    assert(waiting.detached == outputs::occupied(d.detached) + homeless);
    occupied_twice(d.detached);
    belonging_joins(outputs::occupied(d.detached), homeless, next.stable_key);
    assert(outputs::occupied(waiting.detached) =~= waiting.detached);
    let change = viewport::ChangeView::Migrate {
        source: None,
        key: next.stable_key,
        size: next.logical_size,
    };
    let returned = desktop::each_changed(waiting.detached, change);
    let added = waiting.with_output(next);
    let kk = desktop::key(next.id);
    assert(added.outputs[kk].workspaces == returned);
    assert(added.outputs.dom() =~= Set::<u64>::empty().insert(kk));
    let id = normalized_output(added, kk);
    normalization_keeps_occupied(added.outputs[kk], id, next.stable_key);
    changed_stay_occupied(waiting.detached, change);
}

proof fn occupied_twice(list: Seq<workspace::WorkspaceView>)
    ensures
        outputs::occupied(outputs::occupied(list)) == outputs::occupied(list),
    decreases list.len(),
{
    if list.len() > 0 {
        let rest = outputs::occupied(list.drop_last());
        occupied_twice(list.drop_last());
        belonging_steps(rest, list.last(), Seq::empty());
    }
}

proof fn changed_stay_occupied(list: Seq<workspace::WorkspaceView>, change: viewport::ChangeView)
    requires
        outputs::occupied(list) == list,
    ensures
        outputs::occupied(desktop::each_changed(list, change)) == desktop::each_changed(
            list,
            change,
        ),
{
    occupied_are_occupied(list);
    let after = desktop::each_changed(list, change);
    assert forall|i: int| 0 <= i < after.len() implies (#[trigger] after[i]).occupied() by {
        assert(outputs::occupied(list)[i] == list[i]);
        survival::changing_keeps_windows(list[i], change, WindowId(0));
    }
    all_occupied(after);
}

proof fn all_occupied(list: Seq<workspace::WorkspaceView>)
    requires
        forall|i: int| 0 <= i < list.len() ==> (#[trigger] list[i]).occupied(),
    ensures
        outputs::occupied(list) == list,
    decreases list.len(),
{
    if list.len() > 0 {
        assert(list.last() == list[list.len() - 1]);
        all_occupied(list.drop_last());
        assert(list =~= list.drop_last().push(list.last()));
    }
}

} // verus!
