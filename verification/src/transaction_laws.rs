//! What a transaction on workspaces does to the desktop as a whole.

use crate::desktop;
use crate::desktop_laws;
use crate::geometry::{Direction, Point};
use crate::layout;
use crate::layout::WindowTransaction;
use crate::model::{OutputId, TiledWindow, WindowId, WindowMode, WorkspaceId};
use crate::outputs;
use crate::ranking;
use crate::stability;
use crate::survival;
use crate::tidiness;
use crate::transactions;
use crate::viewport;
use crate::workspace;
use vstd::prelude::*;

verus! {

/// Whether a workspace has finitely many windows.
pub open spec fn finite(ws: workspace::WorkspaceView) -> bool {
    ws.tiled.dom().finite() && ws.floating.dom().finite()
}

spec fn list_finite(list: Seq<workspace::WorkspaceView>) -> bool {
    forall|i: int| 0 <= i < list.len() ==> finite(#[trigger] list[i])
}

/// Whether a desktop has finitely many outputs, and each of its workspaces finitely many windows.
pub open spec fn all_finite(d: desktop::DesktopView) -> bool {
    &&& d.outputs.dom().finite()
    &&& forall|k: u64, i: int|
        d.outputs.contains_key(k) && 0 <= i < d.outputs[k].workspaces.len() ==> finite(
            #[trigger] d.outputs[k].workspaces[i],
        )
    &&& forall|i: int| 0 <= i < d.detached.len() ==> finite(#[trigger] d.detached[i])
}

proof fn lists_are_finite(d: desktop::DesktopView)
    requires
        all_finite(d),
    ensures
        forall|k: u64| #[trigger] d.outputs.contains_key(k) ==> list_finite(d.outputs[k].workspaces),
        list_finite(d.detached),
{
    assert forall|k: u64| #[trigger] d.outputs.contains_key(k) implies list_finite(
        d.outputs[k].workspaces,
    ) by {
        assert forall|i: int| 0 <= i < d.outputs[k].workspaces.len() implies finite(
            #[trigger] d.outputs[k].workspaces[i],
        ) by {}
    }
}

proof fn finite_lists_suffice(d: desktop::DesktopView)
    requires
        d.outputs.dom().finite(),
        forall|k: u64| #[trigger] d.outputs.contains_key(k) ==> list_finite(d.outputs[k].workspaces),
        list_finite(d.detached),
    ensures
        all_finite(d),
{
    assert forall|k: u64, i: int|
        d.outputs.contains_key(k) && 0 <= i < d.outputs[k].workspaces.len() implies finite(
        #[trigger] d.outputs[k].workspaces[i],
    ) by {
        assert(list_finite(d.outputs[k].workspaces));
    }
}

proof fn finite_at(d: desktop::DesktopView, place: (Option<u64>, int))
    requires
        all_finite(d),
        survival::known(d, place),
    ensures
        finite(d.at(place)),
{
    match place.0 {
        Some(k) => {
            assert(finite(d.outputs[k].workspaces[place.1]));
        },
        None => {
            assert(finite(d.detached[place.1]));
        },
    }
}

proof fn replacing_keeps_finite(
    d: desktop::DesktopView,
    place: (Option<u64>, int),
    ws: workspace::WorkspaceView,
)
    requires
        all_finite(d),
        survival::known(d, place),
        finite(ws),
    ensures
        all_finite(d.with_at(place, ws)),
        survival::known(d.with_at(place, ws), place),
        forall|other: (Option<u64>, int)|
            survival::known(d, other) ==> #[trigger] survival::known(d.with_at(place, ws), other),
{
    let after = d.with_at(place, ws);
    assert(after.outputs.dom() =~= d.outputs.dom());
    assert forall|k: u64, i: int|
        after.outputs.contains_key(k) && 0 <= i < after.outputs[k].workspaces.len() implies finite(
        #[trigger] after.outputs[k].workspaces[i],
    ) by {
        assert(d.outputs.contains_key(k));
        if after.outputs[k].workspaces[i] != ws {
            assert(finite(d.outputs[k].workspaces[i]));
        }
    }
    assert forall|i: int| 0 <= i < after.detached.len() implies finite(#[trigger] after.detached[i]) by {
        if after.detached[i] != ws {
            assert(finite(d.detached[i]));
        }
    }
}

proof fn showing_keeps_finite(d: desktop::DesktopView, place: (Option<u64>, int))
    requires
        all_finite(d),
        survival::known(d, place),
    ensures
        all_finite(d.showing(place)),
{
    let after = d.showing(place);
    assert(after.outputs.dom() =~= d.outputs.dom());
    assert forall|k: u64, i: int|
        after.outputs.contains_key(k) && 0 <= i < after.outputs[k].workspaces.len() implies finite(
        #[trigger] after.outputs[k].workspaces[i],
    ) by {
        assert(finite(d.outputs[k].workspaces[i]));
    }
}

proof fn adopting_keeps_finite(d: desktop::DesktopView, place: (Option<u64>, int))
    requires
        all_finite(d),
        survival::known(d, place),
    ensures
        all_finite(d.adopted(place)),
        survival::known(d.adopted(place), place),
{
    if let Some(output) = d.output_at(place) {
        finite_at(d, place);
        replacing_keeps_finite(
            d,
            place,
            workspace::WorkspaceView {
                original_output: Some(output.stable_key),
                ..d.at(place)
            },
        );
    }
}

proof fn changing_keeps_finite(ws: workspace::WorkspaceView, change: viewport::ChangeView)
    requires
        finite(ws),
    ensures
        finite(ws.changed(change)),
{
    assert(ws.changed(change).floating.dom() =~= ws.floating.dom());
}

proof fn relocation_keeps_finite(
    d: desktop::DesktopView,
    workspace: WorkspaceId,
    target_output: OutputId,
    target_index: Option<usize>,
    activate: bool,
)
    requires
        all_finite(d),
    ensures
        d.relocated(workspace, target_output, target_index, activate) matches Ok(after)
            ==> all_finite(after),
{
    if let Ok(after) = d.relocated(workspace, target_output, target_index, activate) {
        let target = desktop::key(target_output);
        let place = d.place(workspace)->0;
        d.place_is_known(workspace);
        finite_at(d, place);
        let output = d.outputs[target].output;
        let change = viewport::ChangeView::Migrate {
            source: d.viewport_at(place),
            key: output.stable_key,
            size: output.logical_size,
        };
        changing_keeps_finite(d.at(place), change);
        let ws = workspace::WorkspaceView {
            original_output: Some(output.stable_key),
            ..d.at(place).changed(change)
        };
        let middle = d.without_at(place);
        assert(middle.outputs.dom() =~= d.outputs.dom());
        lists_are_finite(d);
        assert forall|k: u64| #[trigger] middle.outputs.contains_key(k) implies list_finite(
            middle.outputs[k].workspaces,
        ) by {
            assert(list_finite(d.outputs[k].workspaces));
            let (was, left) = (d.outputs[k].workspaces, middle.outputs[k].workspaces);
            assert forall|i: int| 0 <= i < left.len() implies finite(#[trigger] left[i]) by {
                if place.0 == Some(k) && i >= place.1 {
                    assert(left[i] == was[i + 1]);
                } else {
                    assert(left[i] == was[i]);
                }
            }
        }
        assert(list_finite(middle.detached)) by {
            assert forall|i: int| 0 <= i < middle.detached.len() implies finite(
                #[trigger] middle.detached[i],
            ) by {
                if place.0 is None && i >= place.1 {
                    assert(middle.detached[i] == d.detached[i + 1]);
                } else {
                    assert(middle.detached[i] == d.detached[i]);
                }
            }
        }
        assert(after.outputs.dom() =~= d.outputs.dom());
        let set = middle.outputs[target];
        assert(middle.outputs.contains_key(target));
        let wanted = match target_index {
            Some(index) => index as int,
            None => transactions::after(set.active) as int,
        };
        let at = transactions::smaller(wanted, transactions::before(set.workspaces.len() as int));
        assert forall|k: u64| #[trigger] after.outputs.contains_key(k) implies list_finite(
            after.outputs[k].workspaces,
        ) by {
            assert(middle.outputs.contains_key(k));
            if k == target {
                let (was, more) = (set.workspaces, after.outputs[k].workspaces);
                assert(more == was.insert(at, ws));
                assert forall|i: int| 0 <= i < more.len() implies finite(#[trigger] more[i]) by {
                    if i < at {
                        assert(more[i] == was[i]);
                    } else if i > at {
                        assert(more[i] == was[i - 1]);
                    }
                }
            }
        }
        finite_lists_suffice(after);
    }
}

proof fn layout_keeps_finite(
    solver: layout::SolverView,
    ws: workspace::WorkspaceView,
    transaction: WindowTransaction,
    answers: Seq<Option<Point>>,
)
    requires
        finite(ws),
        transaction is Remove || transaction is InsertTiled,
    ensures
        solver.applied(ws, transaction, answers) matches Ok((after, _)) ==> finite(after),
{
    if let Ok((after, _)) = solver.applied(ws, transaction, answers) {
        let prepared = solver.prepared(ws, transaction)->Ok_0;
        if let WindowTransaction::InsertTiled { id, .. } = transaction {
            assert(prepared.workspace.tiled.dom() =~= ws.tiled.dom().insert(id.0));
            stability::pushing_keeps(
                solver.gap,
                solver.operation_limit,
                prepared.workspace.tiled,
                id,
                prepared.seed,
                answers,
                0,
            );
        } else {
            assert(after.tiled.dom().subset_of(ws.tiled.dom()));
            assert(after.floating.dom().subset_of(ws.floating.dom()));
            vstd::set_lib::lemma_set_subset_finite(ws.tiled.dom(), after.tiled.dom());
            vstd::set_lib::lemma_set_subset_finite(ws.floating.dom(), after.floating.dom());
        }
    }
}

proof fn handing_over_keeps_finite(
    d: desktop::DesktopView,
    window: WindowId,
    from: (Option<u64>, int),
    to: (Option<u64>, int),
    hint: Direction,
    answers: Seq<Option<Point>>,
)
    requires
        finite(d.at(from)),
        finite(d.at(to)),
    ensures
        d.handed_over(window, from, to, hint, answers) matches Ok((left, joined)) ==> finite(left)
            && finite(joined),
{
    if let Ok((left, joined)) = d.handed_over(window, from, to, hint, answers) {
        let source = d.at(from);
        let target = d.at(to);
        match source.mode_of(window) {
            Some(WindowMode::Tiled) => {
                layout_keeps_finite(
                    d.solver,
                    source,
                    WindowTransaction::Remove { id: window },
                    answers,
                );
                layout_keeps_finite(
                    d.solver,
                    target,
                    WindowTransaction::InsertTiled {
                        id: window,
                        size: source.tiled[window.0].geometry.size,
                        anchor: target.focus_point(),
                        seed_direction: target.layout_direction_hint,
                        hint,
                    },
                    answers,
                );
            },
            Some(WindowMode::Floating) => {
                assert(left.floating.dom() =~= source.floating.dom().remove(window.0));
                assert(joined.floating.dom() =~= target.floating.dom().insert(window.0));
            },
            _ => {},
        }
    }
}

proof fn steps_keep_finite(
    d: desktop::DesktopView,
    transaction: desktop::TransactionView,
    answers: Seq<Option<Point>>,
)
    requires
        all_finite(d),
    ensures
        d.transacted(transaction, answers) matches Ok((after, _)) ==> all_finite(after),
{
    if d.transacted(transaction, answers) is Ok {
        match transaction {
            desktop::TransactionView::Focus { workspace, .. } => {
                d.place_is_known(workspace);
                showing_keeps_finite(d, d.place(workspace)->0);
            },
            desktop::TransactionView::Move { workspace, target_output, target_index, activate } => {
                relocation_keeps_finite(d, workspace, target_output, target_index, activate);
            },
            desktop::TransactionView::SetName { workspace, name } => {
                d.place_is_known(workspace);
                let place = d.place(workspace)->0;
                finite_at(d, place);
                replacing_keeps_finite(
                    d,
                    place,
                    workspace::WorkspaceView { name, ..d.at(place) },
                );
            },
            desktop::TransactionView::SendWindow { window, target, hint, .. } => {
                let source = d.owner(window)->Ok_0;
                let to = d.place(target)->0;
                d.place_is_known(target);
                if source == target {
                    showing_keeps_finite(d, to);
                } else {
                    let from = d.place(source)->0;
                    d.place_is_known(source);
                    finite_at(d, from);
                    finite_at(d, to);
                    handing_over_keeps_finite(d, window, from, to, hint, answers);
                    let (left, joined) = d.handed_over(window, from, to, hint, answers)->Ok_0;
                    replacing_keeps_finite(d, from, left);
                    let first = d.with_at(from, left);
                    assert(survival::known(first, to));
                    replacing_keeps_finite(first, to, joined);
                    let second = first.with_at(to, joined);
                    adopting_keeps_finite(second, to);
                    showing_keeps_finite(second.adopted(to), to);
                }
            },
        }
    }
}

proof fn pruning_keeps_finite(
    kept: Seq<workspace::WorkspaceView>,
    rest: Seq<workspace::WorkspaceView>,
    active: int,
)
    requires
        list_finite(kept),
        list_finite(rest),
    ensures
        list_finite(outputs::pruned(kept, rest, active).0),
    decreases rest.len(),
{
    if rest.len() > 0 {
        let tail = rest.drop_first();
        assert forall|i: int| 0 <= i < tail.len() implies finite(#[trigger] tail[i]) by {
            assert(finite(rest[i + 1]));
        }
        if !rest[0].occupied() && kept.len() != active && rest.len() != 1 {
            pruning_keeps_finite(
                kept,
                tail,
                if kept.len() < active {
                    active - 1
                } else {
                    active
                },
            );
        } else {
            pruning_keeps_finite(kept.push(rest[0]), tail, active);
        }
    }
}

proof fn leaving_keeps_finite(list: Seq<workspace::WorkspaceView>)
    requires
        list_finite(list),
    ensures
        list_finite(outputs::occupied(list)),
    decreases list.len(),
{
    if list.len() > 0 {
        assert forall|i: int| 0 <= i < list.drop_last().len() implies finite(
            #[trigger] list.drop_last()[i],
        ) by {
            assert(finite(list[i]));
        }
        assert(finite(list[list.len() - 1]));
        leaving_keeps_finite(list.drop_last());
    }
}

proof fn normalizing_keeps_finite(d: desktop::DesktopView, keys: Seq<u64>, n: int)
    requires
        all_finite(d),
        0 <= n <= keys.len(),
        forall|i: int| 0 <= i < keys.len() ==> d.outputs.contains_key(#[trigger] keys[i]),
    ensures
        all_finite(d.normalized_outputs(keys, n)),
        d.normalized_outputs(keys, n).outputs.dom() == d.outputs.dom(),
    decreases n,
{
    if n > 0 {
        normalizing_keeps_finite(d, keys, n - 1);
        let before = d.normalized_outputs(keys, n - 1);
        let after = d.normalized_outputs(keys, n);
        let k = keys[n - 1];
        assert(before.outputs.contains_key(k));
        lists_are_finite(before);
        let set = before.outputs[k];
        let empty = Seq::<workspace::WorkspaceView>::empty();
        pruning_keeps_finite(empty, set.workspaces, set.active as int);
        let kept = outputs::pruned(empty, set.workspaces, set.active as int).0;
        let list = after.outputs[k].workspaces;
        assert(list_finite(list)) by {
            assert forall|i: int| 0 <= i < list.len() implies finite(#[trigger] list[i]) by {
                if i < kept.len() {
                    assert(list[i] == kept[i]);
                } else {
                    assert(list[i].tiled == Map::<u64, TiledWindow>::empty());
                }
            }
        }
        assert(after.outputs.dom() =~= d.outputs.dom());
        assert forall|j: u64| #[trigger] after.outputs.contains_key(j) implies list_finite(
            after.outputs[j].workspaces,
        ) by {
            assert(before.outputs.contains_key(j));
        }
        finite_lists_suffice(after);
    }
}

proof fn transactions_keep_finite(
    d: desktop::DesktopView,
    transaction: desktop::TransactionView,
    answers: Seq<Option<Point>>,
)
    requires
        all_finite(d),
    ensures
        d.applied(transaction, answers) matches Ok((after, _)) ==> all_finite(after),
{
    if d.applied(transaction, answers) is Ok {
        steps_keep_finite(d, transaction, answers);
        let middle = (d.transacted(transaction, answers)->Ok_0).0;
        let keys = middle.keys();
        ranking::ranking_ranks(middle.outputs.dom(), |id: u64| 0);
        assert forall|i: int| 0 <= i < keys.len() implies middle.outputs.contains_key(
            #[trigger] keys[i],
        ) by {
            assert(keys.to_set().contains(keys[i]));
        }
        normalizing_keeps_finite(middle, keys, keys.len() as int);
        let after = middle.normalized_outputs(keys, keys.len() as int);
        lists_are_finite(after);
        leaving_keeps_finite(after.detached);
        finite_lists_suffice(middle.normalized());
    }
}

proof fn gathered_are_finite(d: desktop::DesktopView, keys: Seq<u64>, n: int)
    requires
        all_finite(d),
        0 <= n <= keys.len(),
        forall|i: int| 0 <= i < keys.len() ==> d.outputs.contains_key(#[trigger] keys[i]),
    ensures
        list_finite(d.gathered(keys, n)),
    decreases n,
{
    if n > 0 {
        gathered_are_finite(d, keys, n - 1);
        lists_are_finite(d);
        assert(d.outputs.contains_key(keys[n - 1]));
    }
}

/// A transaction on workspaces that succeeds leaves a valid desktop: every output has one empty
/// workspace without a name at the end, no other such workspace but the one that it shows, and shows
/// one of its workspaces. No two workspaces, on outputs or detached, share an id, a name or a window.
/// The desktop has the windows that it had.
pub proof fn transactions_keep_the_desktop(
    before: desktop::DesktopView,
    transaction: desktop::TransactionView,
    answers: Seq<Option<Point>>,
    i: int,
    j: int,
    window: WindowId,
)
    requires
        before.valid(),
        all_finite(before),
        tidiness::roomy(before),
    ensures
        before.applied(transaction, answers) matches Ok((after, _)) ==> {
            &&& after.valid()
            &&& tidiness::all_tidy(after)
            &&& 0 <= i < j < after.all().len() ==> {
                &&& after.all()[i].id != after.all()[j].id
                &&& after.all()[i].name is Some ==> after.all()[i].name != after.all()[j].name
                &&& !(after.all()[i].has(window) && after.all()[j].has(window))
            }
            &&& survival::has_window(after, window) == survival::has_window(before, window)
        },
{
    if let Ok((after, _)) = before.applied(transaction, answers) {
        tidiness::transactions_tidy(before, transaction, answers);
        transactions_keep_finite(before, transaction, answers);
        assert forall|place: (Option<u64>, int)| survival::known(before, place) implies (
        #[trigger] before.at(place)).tiled.dom().finite() by {
            finite_at(before, place);
        }
        survival::windows_survive_transactions(before, transaction, answers, window);
        let keys = after.keys();
        ranking::ranking_ranks(after.outputs.dom(), |id: u64| 0);
        assert forall|n: int| 0 <= n < keys.len() implies after.outputs.contains_key(
            #[trigger] keys[n],
        ) by {
            assert(keys.to_set().contains(keys[n]));
        }
        gathered_are_finite(after, keys, keys.len() as int);
        if 0 <= i < j < after.all().len() {
            lists_are_finite(after);
            assert(list_finite(after.all()));
            assert(finite(after.all()[i]) && finite(after.all()[j]));
            desktop_laws::valid_workspaces(after, i, j);
            if after.all()[i].has(window) && after.all()[j].has(window) {
                desktop_laws::windows_have_one_workspace(after, i, j, window);
            }
        }
    }
}

} // verus!
