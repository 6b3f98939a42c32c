//! Desktops stay settled: whatever is done to one, outputs can still be connected and
//! disconnected, and no workspace ever gets an id that another has had.

use crate::assurance;
use crate::counting;
use crate::desktop;
use crate::desktop_laws;
use crate::directional_focus;
use crate::geometry::{Direction, Point, Size};
use crate::layout;
use crate::layout::WindowTransaction;
use crate::model;
use crate::model::{CameraPolicy, OutputId, WindowId, WindowMode, WorkspaceId};
use crate::outputs;
use crate::outputs::{OutputTransform, Scale120};
use crate::ranking;
use crate::survival;
use crate::transactions;
use crate::viewport;
use crate::workspace;
use vstd::prelude::*;

verus! {

/// Whether a workspace has an id below a bound and, if it is coherent, places of valid sizes.
spec fn fit(ws: workspace::WorkspaceView, next: int) -> bool {
    &&& desktop::coherent(ws) ==> assurance::remembers_sizes(ws)
    &&& ws.id.0 < next
}

spec fn list_fit(list: Seq<workspace::WorkspaceView>, next: int) -> bool {
    forall|i: int| 0 <= i < list.len() ==> fit(#[trigger] list[i], next)
}

spec fn all_fit(d: desktop::DesktopView, next: int) -> bool {
    &&& d.outputs.dom().finite()
    &&& forall|k: u64| #[trigger]
        d.outputs.contains_key(k) ==> list_fit(d.outputs[k].workspaces, next)
    &&& list_fit(d.detached, next)
}

spec fn all_proper(d: desktop::DesktopView) -> bool {
    &&& forall|k: u64, i: int|
        d.outputs.contains_key(k) && 0 <= i < d.outputs[k].workspaces.len() ==> assurance::proper(
            #[trigger] d.outputs[k].workspaces[i],
        )
    &&& forall|i: int| 0 <= i < d.detached.len() ==> assurance::proper(#[trigger] d.detached[i])
}

proof fn settled_are_fit(d: desktop::DesktopView)
    requires
        assurance::settled(d),
    ensures
        all_fit(d, d.next_workspace_id as int),
        all_proper(d),
{
    let next = d.next_workspace_id as int;
    let late = assurance::from_id(next);
    let improper = assurance::improper();
    assert forall|k: u64, i: int|
        d.outputs.contains_key(k) && 0 <= i < d.outputs[k].workspaces.len() implies
        assurance::proper(#[trigger] d.outputs[k].workspaces[i])
        && d.outputs[k].workspaces[i].id.0 < next by {
        let list = d.outputs[k].workspaces;
        if improper(list[i]) {
            counting::tally_counts(list, i, improper);
        }
        if late(list[i]) {
            counting::tally_counts(list, i, late);
        }
    }
    assert forall|i: int| 0 <= i < d.detached.len() implies assurance::proper(
        #[trigger] d.detached[i],
    ) && d.detached[i].id.0 < next by {
        if improper(d.detached[i]) {
            counting::tally_counts(d.detached, i, improper);
        }
        if late(d.detached[i]) {
            counting::tally_counts(d.detached, i, late);
        }
    }
    assert forall|k: u64| #[trigger] d.outputs.contains_key(k) implies list_fit(
        d.outputs[k].workspaces,
        next,
    ) by {
        assert forall|i: int| 0 <= i < d.outputs[k].workspaces.len() implies fit(
            #[trigger] d.outputs[k].workspaces[i],
            next,
        ) by {
            assert(assurance::proper(d.outputs[k].workspaces[i]));
        }
    }
}

proof fn gathered_are_fit(d: desktop::DesktopView, keys: Seq<u64>, n: int, next: int)
    requires
        all_fit(d, next),
        0 <= n <= keys.len(),
        forall|i: int| 0 <= i < keys.len() ==> d.outputs.contains_key(#[trigger] keys[i]),
    ensures
        list_fit(d.gathered(keys, n), next),
    decreases n,
{
    if n > 0 {
        gathered_are_fit(d, keys, n - 1, next);
        assert(d.outputs.contains_key(keys[n - 1]));
    }
}

proof fn fit_are_settled(d: desktop::DesktopView)
    requires
        all_fit(d, d.next_workspace_id as int),
        d.valid(),
    ensures
        assurance::settled(d),
{
    let next = d.next_workspace_id as int;
    let keys = d.keys();
    ranking::ranking_ranks(d.outputs.dom(), |id: u64| 0);
    assert forall|i: int| 0 <= i < keys.len() implies d.outputs.contains_key(#[trigger] keys[i]) by {
        assert(keys.to_set().contains(keys[i]));
    }
    gathered_are_fit(d, keys, keys.len() as int, next);
    assert(list_fit(d.all(), next));
    assert forall|i: int| 0 <= i < d.all().len() implies assurance::remembers_sizes(
        #[trigger] d.all()[i],
    ) by {
        desktop_laws::valid_workspaces(d, i, i);
        assert(fit(d.all()[i], next));
    }
    assurance::claimed_desktops_are_sound(d);
    let late = assurance::from_id(next);
    counting::all_tally(d, late);
    if counting::tally(d.all(), late) > 0 {
        let i = counting::tally_witness(d.all(), late);
        assert(fit(d.all()[i], next));
    }
}

proof fn pruned_are_fit(
    kept: Seq<workspace::WorkspaceView>,
    rest: Seq<workspace::WorkspaceView>,
    active: int,
    next: int,
)
    requires
        list_fit(kept, next),
        list_fit(rest, next),
    ensures
        list_fit(outputs::pruned(kept, rest, active).0, next),
    decreases rest.len(),
{
    if rest.len() > 0 {
        assert(fit(rest[0], next));
        let tail = rest.drop_first();
        assert forall|i: int| 0 <= i < tail.len() implies fit(#[trigger] tail[i], next) by {
            assert(fit(rest[i + 1], next));
        }
        if !rest[0].occupied() && kept.len() != active && rest.len() != 1 {
            pruned_are_fit(
                kept,
                tail,
                if kept.len() < active {
                    active - 1
                } else {
                    active
                },
                next,
            );
        } else {
            pruned_are_fit(kept.push(rest[0]), tail, active, next);
        }
    }
}

proof fn occupied_are_fit(list: Seq<workspace::WorkspaceView>, next: int)
    requires
        list_fit(list, next),
    ensures
        list_fit(outputs::occupied(list), next),
    decreases list.len(),
{
    if list.len() > 0 {
        assert(fit(list[list.len() - 1], next));
        assert forall|i: int| 0 <= i < list.drop_last().len() implies fit(
            #[trigger] list.drop_last()[i],
            next,
        ) by {
            assert(fit(list[i], next));
        }
        occupied_are_fit(list.drop_last(), next);
    }
}

proof fn normalizing_keeps_fit(d: desktop::DesktopView, keys: Seq<u64>, n: int)
    requires
        0 <= n <= keys.len(),
        forall|i: int| 0 <= i < keys.len() ==> d.outputs.contains_key(#[trigger] keys[i]),
        all_fit(d, d.next_workspace_id as int),
        d.next_workspace_id + n <= u32::MAX,
    ensures
        ({
            let after = d.normalized_outputs(keys, n);
            &&& all_fit(after, after.next_workspace_id as int)
            &&& d.next_workspace_id <= after.next_workspace_id <= d.next_workspace_id + n
            &&& after.outputs.dom() == d.outputs.dom()
        }),
    decreases n,
{
    if n > 0 {
        normalizing_keeps_fit(d, keys, n - 1);
        let before = d.normalized_outputs(keys, n - 1);
        let after = d.normalized_outputs(keys, n);
        let (k, id) = (keys[n - 1], before.next_workspace_id);
        assert(before.outputs.contains_key(k));
        let set = before.outputs[k];
        let empty = Seq::<workspace::WorkspaceView>::empty();
        pruned_are_fit(empty, set.workspaces, set.active as int, id as int);
        assurance::placeholders_are_proper(id, set.output.stable_key);
        let next = after.next_workspace_id as int;
        let list = after.outputs[k].workspaces;
        assert(list_fit(list, next)) by {
            let kept = outputs::pruned(empty, set.workspaces, set.active as int).0;
            assert forall|i: int| 0 <= i < list.len() implies fit(#[trigger] list[i], next) by {
                if i < kept.len() {
                    assert(list[i] == kept[i]);
                    assert(fit(kept[i], id as int));
                } else {
                    assert(list[i] == assurance::placeholder(id, set.output.stable_key));
                }
            }
        }
        assert forall|j: u64| #[trigger] after.outputs.contains_key(j) implies list_fit(
            after.outputs[j].workspaces,
            next,
        ) by {
            if j != k {
                assert(before.outputs.contains_key(j));
                bounds_grow(before.outputs[j].workspaces, id as int, next);
            }
        }
        bounds_grow(before.detached, id as int, next);
        assert(after.outputs.dom() =~= d.outputs.dom());
    }
}

proof fn bounds_grow(list: Seq<workspace::WorkspaceView>, next: int, later: int)
    requires
        list_fit(list, next),
        next <= later,
    ensures
        list_fit(list, later),
{
    assert forall|i: int| 0 <= i < list.len() implies fit(#[trigger] list[i], later) by {
        assert(fit(list[i], next));
    }
}

proof fn normalization_keeps_fit(d: desktop::DesktopView)
    requires
        all_fit(d, d.next_workspace_id as int),
        d.next_workspace_id + d.outputs.dom().len() <= u32::MAX,
    ensures
        all_fit(d.normalized(), d.normalized().next_workspace_id as int),
        d.next_workspace_id <= d.normalized().next_workspace_id,
{
    let keys = d.keys();
    ranking::ranking_ranks(d.outputs.dom(), |id: u64| 0);
    keys.unique_seq_to_set();
    assert forall|i: int| 0 <= i < keys.len() implies d.outputs.contains_key(#[trigger] keys[i]) by {
        assert(keys.to_set().contains(keys[i]));
    }
    normalizing_keeps_fit(d, keys, keys.len() as int);
    let after = d.normalized_outputs(keys, keys.len() as int);
    occupied_are_fit(after.detached, after.next_workspace_id as int);
}

proof fn replacing_keeps_fit(
    d: desktop::DesktopView,
    place: (Option<u64>, int),
    ws: workspace::WorkspaceView,
    next: int,
)
    requires
        all_fit(d, next),
        survival::known(d, place),
        fit(ws, next),
    ensures
        all_fit(d.with_at(place, ws), next),
        d.with_at(place, ws).outputs.dom() == d.outputs.dom(),
        survival::known(d.with_at(place, ws), place),
        d.with_at(place, ws).at(place) == ws,
        forall|other: (Option<u64>, int)|
            survival::known(d, other) ==> #[trigger] survival::known(d.with_at(place, ws), other),
{
    let after = d.with_at(place, ws);
    assert(after.outputs.dom() =~= d.outputs.dom());
    match place.0 {
        Some(k) => {
            let list = d.outputs[k].workspaces;
            let changed = list.update(place.1, ws);
            assert(list_fit(changed, next)) by {
                assert forall|i: int| 0 <= i < changed.len() implies fit(#[trigger] changed[i], next) by {
                    if i != place.1 {
                        assert(fit(list[i], next));
                    }
                }
            }
            assert forall|j: u64| #[trigger] after.outputs.contains_key(j) implies list_fit(
                after.outputs[j].workspaces,
                next,
            ) by {
                assert(d.outputs.contains_key(j));
            }
        },
        None => {
            let changed = d.detached.update(place.1, ws);
            assert forall|i: int| 0 <= i < changed.len() implies fit(#[trigger] changed[i], next) by {
                if i != place.1 {
                    assert(fit(d.detached[i], next));
                }
            }
        },
    }
}

proof fn fit_at(d: desktop::DesktopView, place: (Option<u64>, int), next: int)
    requires
        all_fit(d, next),
        survival::known(d, place),
    ensures
        fit(d.at(place), next),
{
    match place.0 {
        Some(k) => {
            assert(list_fit(d.outputs[k].workspaces, next));
            assert(fit(d.outputs[k].workspaces[place.1], next));
        },
        None => {
            assert(fit(d.detached[place.1], next));
        },
    }
}

proof fn proper_at(d: desktop::DesktopView, place: (Option<u64>, int))
    requires
        all_proper(d),
        survival::known(d, place),
    ensures
        assurance::proper(d.at(place)),
{
    match place.0 {
        Some(k) => {
            assert(assurance::proper(d.outputs[k].workspaces[place.1]));
        },
        None => {
            assert(assurance::proper(d.detached[place.1]));
        },
    }
}

proof fn showing_keeps_fit(d: desktop::DesktopView, place: (Option<u64>, int), next: int)
    requires
        all_fit(d, next),
        survival::known(d, place),
    ensures
        all_fit(d.showing(place), next),
        d.showing(place).outputs.dom() == d.outputs.dom(),
{
    let after = d.showing(place);
    assert(after.outputs.dom() =~= d.outputs.dom());
    assert forall|j: u64| #[trigger] after.outputs.contains_key(j) implies list_fit(
        after.outputs[j].workspaces,
        next,
    ) by {
        assert(d.outputs.contains_key(j));
    }
}

proof fn adopting_keeps_fit(d: desktop::DesktopView, place: (Option<u64>, int), next: int)
    requires
        all_fit(d, next),
        survival::known(d, place),
    ensures
        all_fit(d.adopted(place), next),
        d.adopted(place).outputs.dom() == d.outputs.dom(),
        survival::known(d.adopted(place), place),
{
    if let Some(output) = d.output_at(place) {
        let ws = workspace::WorkspaceView {
            original_output: Some(output.stable_key),
            ..d.at(place)
        };
        fit_at(d, place, next);
        assert(forall|id: WindowId| ws.has(id) == d.at(place).has(id));
        replacing_keeps_fit(d, place, ws, next);
    }
}

/// What a workspace keeps but for its tiled windows, its focus and its name: whatever they are,
/// its places have the sizes that they had.
proof fn sizes_do_not_rest_on_the_focus(a: workspace::WorkspaceView, b: workspace::WorkspaceView)
    requires
        assurance::remembers_sizes(a),
        b.floating == a.floating,
        b.maximized == a.maximized,
        b.fullscreen == a.fullscreen,
    ensures
        assurance::remembers_sizes(b),
{
}

/// A transaction leaves a workspace its id, and all places of valid sizes if what comes out is
/// coherent.
proof fn transactions_keep_sizes(
    solver: layout::SolverView,
    ws: workspace::WorkspaceView,
    transaction: WindowTransaction,
    answers: Seq<Option<Point>>,
)
    requires
        assurance::proper(ws),
    ensures
        solver.applied(ws, transaction, answers) matches Ok((after, _)) ==> after.id == ws.id
            && (desktop::floating_coherent(after.floating) ==> assurance::remembers_sizes(after)),
{
    if let Ok((after, _)) = solver.applied(ws, transaction, answers) {
        match transaction {
            WindowTransaction::SetMode { id, mode, viewport_size } => {
                let k = id.0;
                match ws.mode_of(id) {
                    Some(WindowMode::Tiled) => {
                        assert(ws.tiled.contains_key(k));
                    },
                    Some(WindowMode::Floating) => {
                        assert(ws.floating.contains_key(k));
                    },
                    _ => {},
                }
                assert(assurance::sized_restore(ws.base_of(id)));
                assert forall|j: u64| #[trigger] after.floating.contains_key(j) implies
                    assurance::sized(after.floating[j].viewport) by {
                    if j != k {
                        assert(ws.floating.contains_key(j));
                    }
                }
            },
            WindowTransaction::MoveFloating { id, target, viewport_size } => {
                assert(ws.floating.contains_key(id.0));
                assert forall|j: u64| #[trigger]
                    after.floating.contains_key(j)
                        && after.floating[j].viewport.rect.size.valid() implies assurance::sized(
                    after.floating[j].viewport,
                ) by {
                    assert(ws.floating.contains_key(j));
                }
            },
            WindowTransaction::Remove { id } => {
                assert forall|j: u64| #[trigger] after.floating.contains_key(j) implies
                    assurance::sized(after.floating[j].viewport) by {
                    assert(ws.floating.contains_key(j));
                }
            },
            _ => {},
        }
    }
}

proof fn storing_keeps_fit(
    ws: workspace::WorkspaceView,
    key: Seq<char>,
    size: Size,
    next: int,
)
    requires
        desktop::floating_coherent(ws.floating) ==> assurance::remembers_sizes(ws),
        ws.id.0 < next,
    ensures
        fit(ws.changed(viewport::ChangeView::Store { key, size }).followed(size), next),
{
    let change = viewport::ChangeView::Store { key, size };
    let stored = ws.changed(change);
    let after = stored.followed(size);
    if desktop::coherent(after) {
        assert forall|k: u64| #[trigger] ws.floating.contains_key(k) implies
            ws.floating[k].window.0 == k && ws.floating[k].viewport.rect.size.valid() by {
            assert(after.floating.contains_key(k));
        }
        assurance::changes_keep_sizes(ws, change);
        sizes_do_not_rest_on_the_focus(stored, after);
    }
}

/// A window transaction keeps a desktop settled.
pub(crate) proof fn window_transactions_keep_settled(
    d: desktop::DesktopView,
    workspace: WorkspaceId,
    transaction: WindowTransaction,
    answers: Seq<Option<Point>>,
)
    requires
        assurance::settled(d),
        d.next_workspace_id + d.outputs.dom().len() <= u32::MAX,
    ensures
        d.applied_window(workspace, transaction, answers) matches Ok(after)
            ==> assurance::settled(after) && d.next_workspace_id <= after.next_workspace_id,
{
    if let Ok(result) = d.applied_window(workspace, transaction, answers) {
        let next = d.next_workspace_id as int;
        let place = d.place(workspace)->0;
        let ws = (d.solver.applied(d.at(place), transaction, answers)->Ok_0).0;
        settled_are_fit(d);
        d.place_is_known(workspace);
        fit_at(d, place, next);
        proper_at(d, place);
        transactions_keep_sizes(d.solver, d.at(place), transaction, answers);
        let stored = match d.viewport_at(place) {
            Some((key, size)) => ws.changed(viewport::ChangeView::Store { key, size }).followed(
                size,
            ),
            None => ws,
        };
        if let Some((key, size)) = d.viewport_at(place) {
            storing_keeps_fit(ws, key, size, next);
        }
        assert(fit(stored, next));
        replacing_keeps_fit(d, place, stored, next);
        adopting_keeps_fit(d.with_at(place, stored), place, next);
        let after = d.laid_out(place, transaction, ws);
        normalization_keeps_fit(after);
        fit_are_settled(result);
    }
}

proof fn lists_without_are_fit(list: Seq<workspace::WorkspaceView>, i: int, next: int)
    requires
        list_fit(list, next),
        0 <= i < list.len(),
    ensures
        list_fit(list.remove(i), next),
{
    let left = list.remove(i);
    assert forall|j: int| 0 <= j < left.len() implies fit(#[trigger] left[j], next) by {
        if j < i {
            assert(fit(list[j], next));
        } else {
            assert(fit(list[j + 1], next));
        }
    }
}

proof fn lists_with_are_fit(
    list: Seq<workspace::WorkspaceView>,
    i: int,
    ws: workspace::WorkspaceView,
    next: int,
)
    requires
        list_fit(list, next),
        fit(ws, next),
        0 <= i <= list.len(),
    ensures
        list_fit(list.insert(i, ws), next),
{
    let more = list.insert(i, ws);
    assert forall|j: int| 0 <= j < more.len() implies fit(#[trigger] more[j], next) by {
        if j < i {
            assert(fit(list[j], next));
        } else if j > i {
            assert(fit(list[j - 1], next));
        }
    }
}

proof fn relocation_keeps_fit(
    d: desktop::DesktopView,
    workspace: WorkspaceId,
    target_output: OutputId,
    target_index: Option<usize>,
    activate: bool,
)
    requires
        all_fit(d, d.next_workspace_id as int),
        all_proper(d),
    ensures
        d.relocated(workspace, target_output, target_index, activate) matches Ok(after) ==> all_fit(
            after,
            d.next_workspace_id as int,
        ) && after.outputs.dom() == d.outputs.dom() && after.next_workspace_id
            == d.next_workspace_id,
{
    if let Ok(after) = d.relocated(workspace, target_output, target_index, activate) {
        let next = d.next_workspace_id as int;
        let target = desktop::key(target_output);
        let place = d.place(workspace)->0;
        d.place_is_known(workspace);
        proper_at(d, place);
        fit_at(d, place, next);
        let output = d.outputs[target].output;
        let change = viewport::ChangeView::Migrate {
            source: d.viewport_at(place),
            key: output.stable_key,
            size: output.logical_size,
        };
        let moved = d.at(place).changed(change);
        let ws = workspace::WorkspaceView { original_output: Some(output.stable_key), ..moved };
        assurance::changes_keep_sizes(d.at(place), change);
        sizes_do_not_rest_on_the_focus(moved, ws);
        let middle = d.without_at(place);
        match place.0 {
            Some(k) => {
                assert(list_fit(d.outputs[k].workspaces, next));
                lists_without_are_fit(d.outputs[k].workspaces, place.1, next);
            },
            None => {
                lists_without_are_fit(d.detached, place.1, next);
            },
        }
        assert(middle.outputs.dom() =~= d.outputs.dom());
        assert forall|j: u64| #[trigger] middle.outputs.contains_key(j) implies list_fit(
            middle.outputs[j].workspaces,
            next,
        ) by {
            assert(d.outputs.contains_key(j));
        }
        assert(middle.outputs.contains_key(target));
        let set = middle.outputs[target];
        let wanted = match target_index {
            Some(index) => index as int,
            None => transactions::after(set.active) as int,
        };
        let index = transactions::smaller(
            wanted,
            transactions::before(set.workspaces.len() as int),
        );
        lists_with_are_fit(set.workspaces, index, ws, next);
        assert(after.outputs.dom() =~= d.outputs.dom());
        assert forall|j: u64| #[trigger] after.outputs.contains_key(j) implies list_fit(
            after.outputs[j].workspaces,
            next,
        ) by {
            assert(middle.outputs.contains_key(j));
        }
    }
}

proof fn carried_are_sized(
    d: desktop::DesktopView,
    place: viewport::ViewportView,
    from: (Option<u64>, int),
    to: (Option<u64>, int),
)
    requires
        assurance::sized(place),
    ensures
        assurance::sized(d.carried(place, from, to)),
{
    if let Some((key, size)) = d.viewport_at(to) {
        let change = viewport::ChangeView::Migrate { source: d.viewport_at(from), key, size };
        assurance::sizes_survive_changes(place, change);
        assert(d.carried(place, from, to) == place.changed(change));
    }
}

proof fn carried_restores_are_sized(
    d: desktop::DesktopView,
    restore: model::RestoreView,
    from: (Option<u64>, int),
    to: (Option<u64>, int),
)
    requires
        assurance::sized_restore(restore),
    ensures
        assurance::sized_restore(d.carried_restore(restore, from, to)),
{
    if let model::RestoreView::Floating { viewport } = restore {
        carried_are_sized(d, viewport, from, to);
    }
}

proof fn handing_over_keeps_fit(
    d: desktop::DesktopView,
    window: WindowId,
    from: (Option<u64>, int),
    to: (Option<u64>, int),
    hint: Direction,
    answers: Seq<Option<Point>>,
    next: int,
)
    requires
        assurance::proper(d.at(from)),
        assurance::proper(d.at(to)),
        d.at(from).id.0 < next,
        d.at(to).id.0 < next,
    ensures
        d.handed_over(window, from, to, hint, answers) matches Ok((left, joined)) ==> fit(left, next)
            && fit(joined, next),
{
    if let Ok((left, joined)) = d.handed_over(window, from, to, hint, answers) {
        let source = d.at(from);
        let target = d.at(to);
        match source.mode_of(window) {
            Some(WindowMode::Tiled) => {
                transactions_keep_sizes(
                    d.solver,
                    source,
                    WindowTransaction::Remove { id: window },
                    answers,
                );
                transactions_keep_sizes(
                    d.solver,
                    target,
                    WindowTransaction::InsertTiled {
                        id: window,
                        size: source.tiled[window.0].geometry.size,
                        anchor: target.focus_point(),
                        seed_direction: target.layout_direction_hint,
                        hint,
                    },
                    answers,
                );
            },
            Some(WindowMode::Floating) => {
                assert(source.floating.contains_key(window.0));
                carried_are_sized(d, source.floating[window.0].viewport, from, to);
                assert forall|j: u64| #[trigger] left.floating.contains_key(j) implies
                    assurance::sized(left.floating[j].viewport) by {
                    assert(source.floating.contains_key(j));
                }
                assert forall|j: u64| #[trigger] joined.floating.contains_key(j) implies
                    assurance::sized(joined.floating[j].viewport) by {
                    if j != window.0 {
                        assert(target.floating.contains_key(j));
                    }
                }
            },
            Some(WindowMode::Maximized) => {
                carried_restores_are_sized(d, source.maximized->0.restore, from, to);
            },
            _ => {
                match source.fullscreen->0.restore {
                    model::FullscreenRestoreView::Tiled { .. } => {},
                    model::FullscreenRestoreView::Floating { viewport } => {
                        carried_are_sized(d, viewport, from, to);
                    },
                    model::FullscreenRestoreView::Maximized { restore } => {
                        carried_restores_are_sized(d, restore, from, to);
                    },
                }
            },
        }
    }
}

proof fn sending_keeps_fit(
    d: desktop::DesktopView,
    window: WindowId,
    target: WorkspaceId,
    activate: bool,
    hint: Direction,
    answers: Seq<Option<Point>>,
)
    requires
        all_fit(d, d.next_workspace_id as int),
        all_proper(d),
    ensures
        d.sent(window, target, activate, hint, answers) matches Ok(after) ==> all_fit(
            after,
            d.next_workspace_id as int,
        ) && after.outputs.dom() == d.outputs.dom() && after.next_workspace_id
            == d.next_workspace_id,
{
    if d.sent(window, target, activate, hint, answers) is Ok {
        let next = d.next_workspace_id as int;
        let source = d.owner(window)->Ok_0;
        let to = d.place(target)->0;
        d.place_is_known(target);
        if source == target {
            showing_keeps_fit(d, to, next);
        } else {
            let from = d.place(source)->0;
            d.place_is_known(source);
            proper_at(d, from);
            proper_at(d, to);
            fit_at(d, from, next);
            fit_at(d, to, next);
            handing_over_keeps_fit(d, window, from, to, hint, answers, next);
            let (left, joined) = d.handed_over(window, from, to, hint, answers)->Ok_0;
            replacing_keeps_fit(d, from, left, next);
            let first = d.with_at(from, left);
            assert(survival::known(first, to));
            replacing_keeps_fit(first, to, joined, next);
            let second = first.with_at(to, joined);
            adopting_keeps_fit(second, to, next);
            showing_keeps_fit(second.adopted(to), to, next);
        }
    }
}

/// A transaction on workspaces keeps a desktop settled.
pub(crate) proof fn transactions_keep_settled(
    d: desktop::DesktopView,
    transaction: desktop::TransactionView,
    answers: Seq<Option<Point>>,
)
    requires
        assurance::settled(d),
        d.next_workspace_id + d.outputs.dom().len() <= u32::MAX,
    ensures
        d.applied(transaction, answers) matches Ok((after, _)) ==> assurance::settled(after)
            && d.next_workspace_id <= after.next_workspace_id,
{
    if let Ok((result, _)) = d.applied(transaction, answers) {
        let next = d.next_workspace_id as int;
        settled_are_fit(d);
        let after = (d.transacted(transaction, answers)->Ok_0).0;
        match transaction {
            desktop::TransactionView::Focus { workspace, .. } => {
                d.place_is_known(workspace);
                showing_keeps_fit(d, d.place(workspace)->0, next);
            },
            desktop::TransactionView::Move { workspace, target_output, target_index, activate } => {
                relocation_keeps_fit(d, workspace, target_output, target_index, activate);
            },
            desktop::TransactionView::SetName { workspace, name } => {
                let place = d.place(workspace)->0;
                d.place_is_known(workspace);
                proper_at(d, place);
                fit_at(d, place, next);
                let ws = workspace::WorkspaceView { name, ..d.at(place) };
                sizes_do_not_rest_on_the_focus(d.at(place), ws);
                replacing_keeps_fit(d, place, ws, next);
            },
            desktop::TransactionView::SendWindow { window, target, activate, hint } => {
                sending_keeps_fit(d, window, target, activate, hint, answers);
            },
        }
        assert(all_fit(after, next));
        normalization_keeps_fit(after);
        fit_are_settled(result);
    }
}

/// A change of the focus keeps a desktop settled.
pub(crate) proof fn focusing_keeps_settled(
    d: desktop::DesktopView,
    window: WindowId,
    workspace: WorkspaceId,
    direction: Direction,
    scores: Seq<Option<directional_focus::FocusScore>>,
)
    requires
        assurance::settled(d),
        d.next_workspace_id + d.outputs.dom().len() <= u32::MAX,
    ensures
        d.focused_window(window) matches Ok((after, _)) ==> assurance::settled(after)
            && d.next_workspace_id <= after.next_workspace_id,
        d.focused_toward(workspace, direction, scores) matches Ok((after, _))
            ==> assurance::settled(after) && after.next_workspace_id == d.next_workspace_id,
{
    let next = d.next_workspace_id as int;
    settled_are_fit(d);
    if let Ok((after, id)) = d.focused_window(window) {
        let place = d.place(id)->0;
        d.place_is_known(id);
        proper_at(d, place);
        fit_at(d, place, next);
        let ws = d.at(place).focused(window);
        let seen = match d.viewport_at(place) {
            Some((_, size)) => ws.followed(size),
            None => ws,
        };
        sizes_do_not_rest_on_the_focus(d.at(place), seen);
        replacing_keeps_fit(d, place, seen, next);
        showing_keeps_fit(d.with_at(place, seen), place, next);
        normalization_keeps_fit(d.with_at(place, seen).showing(place));
        fit_are_settled(after);
    }
    if let Ok((after, Some(target))) = d.focused_toward(workspace, direction, scores) {
        let place = d.place(workspace)->0;
        d.place_is_known(workspace);
        proper_at(d, place);
        fit_at(d, place, next);
        let ws = d.at(place);
        let tiled = ws.mode_of(ws.focused_window->0) == Some(WindowMode::Tiled);
        let focused = workspace::WorkspaceView {
            layout_direction_hint: if tiled {
                direction
            } else {
                ws.layout_direction_hint
            },
            ..ws.focused(target)
        };
        let seen = match d.viewport_at(place) {
            Some((_, size)) => focused.followed(size),
            None => focused,
        };
        sizes_do_not_rest_on_the_focus(ws, seen);
        replacing_keeps_fit(d, place, seen, next);
        fit_are_settled(after);
    }
}

/// A change of an output's geometry keeps a desktop settled.
pub(crate) proof fn configuring_keeps_settled(
    d: desktop::DesktopView,
    output: OutputId,
    physical_size: Size,
    logical_size: Size,
    native_scale: Scale120,
    transform: OutputTransform,
)
    requires
        assurance::settled(d),
    ensures
        d.configured(output, physical_size, logical_size, native_scale, transform) matches Ok(after)
            ==> assurance::settled(after) && after.next_workspace_id == d.next_workspace_id,
{
    if let Ok(after) = d.configured(output, physical_size, logical_size, native_scale, transform) {
        let next = d.next_workspace_id as int;
        let k = desktop::key(output);
        settled_are_fit(d);
        assert(d.outputs.contains_key(k));
        let set = d.outputs[k];
        let change = viewport::ChangeView::Remap {
            key: set.output.stable_key,
            before: set.output.logical_size,
            after: logical_size,
        };
        let list = desktop::each_changed(set.workspaces, change);
        assert(list_fit(list, next)) by {
            assert(list_fit(set.workspaces, next));
            assert forall|i: int| 0 <= i < list.len() implies fit(#[trigger] list[i], next) by {
                assert(fit(set.workspaces[i], next));
                assert(assurance::proper(d.outputs[k].workspaces[i]));
                assurance::changes_keep_sizes(set.workspaces[i], change);
            }
        }
        assert(after.outputs.dom() =~= d.outputs.dom());
        assert forall|j: u64| #[trigger] after.outputs.contains_key(j) implies list_fit(
            after.outputs[j].workspaces,
            next,
        ) by {
            assert(d.outputs.contains_key(j));
        }
        fit_are_settled(after);
    }
}

spec fn list_sized(list: Seq<workspace::WorkspaceView>) -> bool {
    forall|i: int| 0 <= i < list.len() ==> assurance::remembers_sizes(#[trigger] list[i])
}

proof fn reflowing_keeps_fit(
    d: desktop::DesktopView,
    all: Seq<workspace::WorkspaceView>,
    n: int,
    policy: CameraPolicy,
    answers: Seq<Option<Point>>,
    next: int,
)
    requires
        all_fit(d, next),
        all_sized(d),
    ensures
        d.reflowed(all, n, policy, answers) matches Ok((after, _)) ==> all_fit(after, next)
            && all_sized(after) && after.next_workspace_id == d.next_workspace_id,
    decreases n,
{
    if n > 0 && d.reflowed(all, n, policy, answers) is Ok {
        reflowing_keeps_fit(d, all, n - 1, policy, answers, next);
        let (before, used) = d.reflowed(all, n - 1, policy, answers)->Ok_0;
        let (after, _) = d.reflowed(all, n, policy, answers)->Ok_0;
        let id = all[n - 1].id;
        before.place_is_known(id);
        let place = before.place(id)->0;
        fit_at(before, place, next);
        let seen = after.at(place);
        let old_ws = before.at(place);
        assert(assurance::remembers_sizes(old_ws)) by {
            if let Some(k) = place.0 {
                assert(list_sized(before.outputs[k].workspaces));
            }
        }
        sizes_do_not_rest_on_the_focus(old_ws, seen);
        replacing_keeps_fit(before, place, seen, next);
        assert(after == before.with_at(place, seen));
        assert forall|k: u64| #[trigger] after.outputs.contains_key(k) implies list_sized(
            after.outputs[k].workspaces,
        ) by {
            assert(list_sized(before.outputs[k].workspaces));
        }
    }
}

spec fn all_sized(d: desktop::DesktopView) -> bool {
    &&& forall|k: u64| #[trigger]
        d.outputs.contains_key(k) ==> list_sized(d.outputs[k].workspaces)
    &&& list_sized(d.detached)
}

/// A camera that has been set keeps a desktop settled.
pub(crate) proof fn cameras_keep_settled(
    d: desktop::DesktopView,
    id: WorkspaceId,
    camera: model::CameraState,
)
    requires
        assurance::settled(d),
        d.place(id) is Some,
        d.with_at(
            d.place(id)->0,
            (workspace::WorkspaceView { camera, ..d.at(d.place(id)->0) }),
        ).valid(),
    ensures
        assurance::settled(
            d.with_at(
                d.place(id)->0,
                (workspace::WorkspaceView { camera, ..d.at(d.place(id)->0) }),
            ),
        ),
{
    let next = d.next_workspace_id as int;
    let place = d.place(id)->0;
    let ws = workspace::WorkspaceView { camera, ..d.at(place) };
    settled_are_fit(d);
    d.place_is_known(id);
    proper_at(d, place);
    fit_at(d, place, next);
    sizes_do_not_rest_on_the_focus(d.at(place), ws);
    replacing_keeps_fit(d, place, ws, next);
    fit_are_settled(d.with_at(place, ws));
}

/// A new layout of everything keeps a desktop settled.
pub(crate) proof fn reconfiguring_keeps_settled(
    d: desktop::DesktopView,
    gap: i64,
    policy: CameraPolicy,
    answers: Seq<Option<Point>>,
)
    requires
        assurance::settled(d),
    ensures
        d.reconfigured(gap, policy, answers) matches Ok(after) ==> assurance::settled(after)
            && after.next_workspace_id == d.next_workspace_id,
{
    if let Ok(after) = d.reconfigured(gap, policy, answers) {
        let next = d.next_workspace_id as int;
        settled_are_fit(d);
        let fresh = desktop::DesktopView { solver: layout::SolverView::with_gap(gap), ..d };
        assert forall|k: u64| #[trigger] fresh.outputs.contains_key(k) implies list_sized(
            fresh.outputs[k].workspaces,
        ) && list_fit(fresh.outputs[k].workspaces, next) by {
            assert(d.outputs.contains_key(k));
            assert forall|i: int| 0 <= i < d.outputs[k].workspaces.len() implies
                assurance::remembers_sizes(#[trigger] d.outputs[k].workspaces[i]) by {
                assert(assurance::proper(d.outputs[k].workspaces[i]));
            }
        }
        reflowing_keeps_fit(fresh, d.all(), d.all().len() as int, policy, answers, next);
        fit_are_settled(after);
    }
}

/// Every operation that succeeds keeps a desktop settled, as long as there are ids for new
/// workspaces. So whatever has been done to a desktop, outputs can still be connected and
/// disconnected. The next id never goes back, and all workspaces have ids below it: no workspace
/// ever gets the id of another.
pub proof fn operations_keep_the_desktop_settled(
    before: desktop::DesktopView,
    transaction: desktop::TransactionView,
    workspace: WorkspaceId,
    window_transaction: WindowTransaction,
    window: WindowId,
    answers: Seq<Option<Point>>,
    direction: Direction,
    scores: Seq<Option<directional_focus::FocusScore>>,
    id: OutputId,
    physical_size: Size,
    logical_size: Size,
    scale: Scale120,
    transform: OutputTransform,
    gap: i64,
    policy: CameraPolicy,
)
    requires
        assurance::settled(before),
        before.next_workspace_id + before.outputs.dom().len() <= u32::MAX,
    ensures
        before.applied(transaction, answers) matches Ok((after, _)) ==> assurance::settled(after)
            && before.next_workspace_id <= after.next_workspace_id,
        before.applied_window(workspace, window_transaction, answers) matches Ok(after)
            ==> assurance::settled(after) && before.next_workspace_id <= after.next_workspace_id,
        before.focused_window(window) matches Ok((after, _)) ==> assurance::settled(after)
            && before.next_workspace_id <= after.next_workspace_id,
        before.focused_toward(workspace, direction, scores) matches Ok((after, _))
            ==> assurance::settled(after) && before.next_workspace_id <= after.next_workspace_id,
        before.configured(id, physical_size, logical_size, scale, transform) matches Ok(after)
            ==> assurance::settled(after) && before.next_workspace_id <= after.next_workspace_id,
        before.reconfigured(gap, policy, answers) matches Ok(after) ==> assurance::settled(after)
            && before.next_workspace_id <= after.next_workspace_id,
{
    transactions_keep_settled(before, transaction, answers);
    window_transactions_keep_settled(before, workspace, window_transaction, answers);
    focusing_keeps_settled(before, window, workspace, direction, scores);
    configuring_keeps_settled(before, id, physical_size, logical_size, scale, transform);
    reconfiguring_keeps_settled(before, gap, policy, answers);
}

} // verus!
