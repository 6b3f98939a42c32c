//! Outputs stay tidy: whatever is done to a desktop, each output has one empty workspace at the end,
//! and no other but the one that it shows.

use crate::assurance;
use crate::counting;
use crate::desktop;
use crate::desktop_laws;
use crate::directional_focus;
use crate::geometry::{Direction, Point, Size};
use crate::homecoming;
use crate::layout;
use crate::layout::WindowTransaction;
use crate::model::{CameraPolicy, OutputId, TiledWindow, WindowId, WorkspaceId};
use crate::outputs;
use crate::outputs::{OutputTransform, Scale120};
use crate::push;
use crate::ranking;
use crate::stability;
use crate::survival;
use crate::viewport;
use crate::workspace;
use vstd::prelude::*;

verus! {

/// Whether every output of a desktop is tidy.
pub open spec fn all_tidy(d: desktop::DesktopView) -> bool {
    forall|k: u64| #[trigger] d.outputs.contains_key(k) ==> desktop_laws::tidy(d.outputs[k])
}

/// Whether the workspaces of a desktop can be counted, however two of its lists are put together.
pub open spec fn countable(d: desktop::DesktopView) -> bool {
    &&& d.outputs.dom().finite()
    &&& d.detached.len() < usize::MAX
    &&& forall|k: u64, j: u64| #[trigger]
        d.outputs.contains_key(k) && #[trigger] d.outputs.contains_key(j)
            ==> d.outputs[k].workspaces.len() + d.outputs[j].workspaces.len() < usize::MAX
}

/// Whether the tiled windows of all workspaces can be counted.
pub open spec fn finite_tiles(d: desktop::DesktopView) -> bool {
    &&& forall|k: u64, i: int|
        d.outputs.contains_key(k) && 0 <= i < d.outputs[k].workspaces.len()
            ==> (#[trigger] d.outputs[k].workspaces[i]).tiled.dom().finite()
    &&& forall|i: int| 0 <= i < d.detached.len() ==> (#[trigger] d.detached[i]).tiled.dom().finite()
}

/// Whether every output of a desktop has room for a workspace more.
pub open spec fn roomy(d: desktop::DesktopView) -> bool {
    &&& d.outputs.dom().finite()
    &&& forall|k: u64| #[trigger]
        d.outputs.contains_key(k) ==> d.outputs[k].workspaces.len() + 1 < usize::MAX
}

spec fn short(d: desktop::DesktopView) -> bool {
    &&& d.outputs.dom().finite()
    &&& forall|k: u64| #[trigger]
        d.outputs.contains_key(k) ==> d.outputs[k].workspaces.len() < usize::MAX
}

proof fn countable_is_short(d: desktop::DesktopView)
    requires
        countable(d),
    ensures
        short(d),
        roomy(d),
{
    assert forall|k: u64| #[trigger] d.outputs.contains_key(k) implies d.outputs[k].workspaces.len()
        + 1 < usize::MAX by {
        assert(d.outputs.contains_key(k) && d.outputs.contains_key(k));
    }
}

proof fn normalization_tidies_all(d: desktop::DesktopView)
    requires
        short(d),
    ensures
        all_tidy(d.normalized()),
{
    let after = d.normalized();
    let keys = d.keys();
    ranking::ranking_ranks(d.outputs.dom(), |id: u64| 0);
    assert forall|i: int| 0 <= i < keys.len() implies d.outputs.contains_key(#[trigger] keys[i]) by {
        assert(keys.to_set().contains(keys[i]));
    }
    normalizing_keeps_keys(d, keys, keys.len() as int);
    assert forall|k: u64| #[trigger] after.outputs.contains_key(k) implies desktop_laws::tidy(
        after.outputs[k],
    ) by {
        assert(d.outputs.contains_key(k));
        let id = homecoming::normalized_output(d, k);
        desktop_laws::normalization_tidies(d.outputs[k], id);
    }
}

proof fn normalizing_keeps_keys(d: desktop::DesktopView, keys: Seq<u64>, n: int)
    requires
        0 <= n <= keys.len(),
        forall|i: int| 0 <= i < keys.len() ==> d.outputs.contains_key(#[trigger] keys[i]),
    ensures
        d.normalized_outputs(keys, n).outputs.dom() == d.outputs.dom(),
    decreases n,
{
    if n > 0 {
        normalizing_keeps_keys(d, keys, n - 1);
        assert(d.outputs.contains_key(keys[n - 1]));
        assert(d.normalized_outputs(keys, n).outputs.dom() =~= d.outputs.dom());
    }
}

proof fn replacing_keeps_short(
    d: desktop::DesktopView,
    place: (Option<u64>, int),
    ws: workspace::WorkspaceView,
)
    requires
        short(d),
        survival::known(d, place),
    ensures
        short(d.with_at(place, ws)),
        survival::known(d.with_at(place, ws), place),
        forall|other: (Option<u64>, int)|
            survival::known(d, other) ==> #[trigger] survival::known(d.with_at(place, ws), other),
{
    let after = d.with_at(place, ws);
    assert(after.outputs.dom() =~= d.outputs.dom());
    assert forall|k: u64| #[trigger] after.outputs.contains_key(k) implies
        after.outputs[k].workspaces.len() < usize::MAX by {
        assert(d.outputs.contains_key(k));
    }
}

proof fn showing_keeps_short(d: desktop::DesktopView, place: (Option<u64>, int))
    requires
        short(d),
        survival::known(d, place),
    ensures
        short(d.showing(place)),
{
    let after = d.showing(place);
    assert(after.outputs.dom() =~= d.outputs.dom());
    assert forall|k: u64| #[trigger] after.outputs.contains_key(k) implies
        after.outputs[k].workspaces.len() < usize::MAX by {
        assert(d.outputs.contains_key(k));
    }
}

proof fn adopting_keeps_short(d: desktop::DesktopView, place: (Option<u64>, int))
    requires
        short(d),
        survival::known(d, place),
    ensures
        short(d.adopted(place)),
        survival::known(d.adopted(place), place),
{
    if let Some(output) = d.output_at(place) {
        replacing_keeps_short(
            d,
            place,
            workspace::WorkspaceView {
                original_output: Some(output.stable_key),
                ..d.at(place)
            },
        );
    }
}

proof fn transactions_stay_short(
    d: desktop::DesktopView,
    transaction: desktop::TransactionView,
    answers: Seq<Option<Point>>,
)
    requires
        roomy(d),
    ensures
        d.transacted(transaction, answers) matches Ok((after, _)) ==> short(after),
{
    if let Ok((after, _)) = d.transacted(transaction, answers) {
        match transaction {
            desktop::TransactionView::Focus { workspace, .. } => {
                d.place_is_known(workspace);
                showing_keeps_short(d, d.place(workspace)->0);
            },
            desktop::TransactionView::Move { workspace, target_output, .. } => {
                d.place_is_known(workspace);
                let place = d.place(workspace)->0;
                let target = desktop::key(target_output);
                let middle = d.without_at(place);
                assert(middle.outputs.dom() =~= d.outputs.dom());
                assert(after.outputs.dom() =~= d.outputs.dom());
                assert forall|k: u64| #[trigger] after.outputs.contains_key(k) implies
                    after.outputs[k].workspaces.len() < usize::MAX by {
                    assert(d.outputs.contains_key(k) && d.outputs.contains_key(target));
                    assert(middle.outputs[k].workspaces.len() <= d.outputs[k].workspaces.len());
                    assert(after.outputs[k].workspaces.len() <= middle.outputs[k].workspaces.len()
                        + 1);
                }
            },
            desktop::TransactionView::SetName { workspace, name } => {
                d.place_is_known(workspace);
                let place = d.place(workspace)->0;
                replacing_keeps_short(
                    d,
                    place,
                    workspace::WorkspaceView { name, ..d.at(place) },
                );
            },
            desktop::TransactionView::SendWindow { window, target, activate, hint } => {
                let source = d.owner(window)->Ok_0;
                let to = d.place(target)->0;
                d.place_is_known(target);
                if source == target {
                    showing_keeps_short(d, to);
                } else {
                    let from = d.place(source)->0;
                    d.place_is_known(source);
                    let (left, joined) = d.handed_over(window, from, to, hint, answers)->Ok_0;
                    replacing_keeps_short(d, from, left);
                    let first = d.with_at(from, left);
                    assert(survival::known(first, to));
                    replacing_keeps_short(first, to, joined);
                    let second = first.with_at(to, joined);
                    adopting_keeps_short(second, to);
                    showing_keeps_short(second.adopted(to), to);
                }
            },
        }
    }
}

/// A transaction on workspaces leaves every output tidy.
pub proof fn transactions_tidy(
    before: desktop::DesktopView,
    transaction: desktop::TransactionView,
    answers: Seq<Option<Point>>,
)
    requires
        roomy(before),
    ensures
        before.applied(transaction, answers) matches Ok((after, _)) ==> all_tidy(after),
{
    if before.applied(transaction, answers) is Ok {
        transactions_stay_short(before, transaction, answers);
        normalization_tidies_all((before.transacted(transaction, answers)->Ok_0).0);
    }
}

proof fn disconnecting_stays_short(d: desktop::DesktopView, output: OutputId)
    requires
        countable(d),
        d.anchored(),
        d.outputs.contains_key(desktop::key(output)),
    ensures
        short(d.without_output(output)),
{
    let after = d.without_output(output);
    let gone = desktop::key(output);
    let left = d.outputs.remove(gone);
    let removed = d.outputs[gone];
    countable_is_short(d);
    counting::tally_occupied(removed.workspaces, counting::any());
    counting::tally_any(removed.workspaces);
    counting::tally_any(outputs::occupied(removed.workspaces));
    if left.dom() == Set::<u64>::empty() {
        assert forall|k: u64| #[trigger] after.outputs.contains_key(k) implies false by {
            assert(left.dom().contains(k));
        }
    } else {
        let heir = d.heir(output);
        assert(left.contains_key(heir)) by {
            if d.primary_output == Some(output) {
                let keys = ranking::ascending(left.dom());
                ranking::ranking_ranks(left.dom(), |id: u64| 0);
                assert(keys.len() > 0) by {
                    let k = left.dom().choose();
                    assert(left.dom().contains(k)) by {
                        if forall|x: u64| !left.dom().contains(x) {
                            assert(left.dom() =~= Set::<u64>::empty());
                        }
                    }
                    assert(keys.to_set().contains(k));
                }
                assert(keys.to_set().contains(keys[0]));
            }
        }
        assert(after.outputs.dom() =~= left.dom());
        assert forall|k: u64| #[trigger] after.outputs.contains_key(k) implies
            after.outputs[k].workspaces.len() < usize::MAX by {
            assert(d.outputs.contains_key(k) && d.outputs.contains_key(gone));
        }
    }
}

/// Whether two workspaces are both occupied or both not, and have the same windows tiled.
spec fn like(a: workspace::WorkspaceView, b: workspace::WorkspaceView) -> bool {
    a.occupied() == b.occupied() && a.tiled.dom() == b.tiled.dom()
}

spec fn lists_like(a: Seq<workspace::WorkspaceView>, b: Seq<workspace::WorkspaceView>) -> bool {
    &&& a.len() == b.len()
    &&& forall|i: int| 0 <= i < a.len() ==> like(#[trigger] a[i], b[i])
}

spec fn desktops_like(a: desktop::DesktopView, b: desktop::DesktopView) -> bool {
    &&& a.outputs.dom() == b.outputs.dom()
    &&& forall|k: u64| #[trigger]
        a.outputs.contains_key(k) ==> a.outputs[k].active == b.outputs[k].active && lists_like(
            a.outputs[k].workspaces,
            b.outputs[k].workspaces,
        )
    &&& lists_like(a.detached, b.detached)
}

proof fn likeness_keeps_tidy(a: desktop::DesktopView, b: desktop::DesktopView)
    requires
        desktops_like(a, b),
        all_tidy(a),
    ensures
        all_tidy(b),
{
    assert forall|k: u64| #[trigger] b.outputs.contains_key(k) implies desktop_laws::tidy(
        b.outputs[k],
    ) by {
        assert(a.outputs.dom().contains(k));
        assert(a.outputs.contains_key(k));
        let (x, y) = (a.outputs[k].workspaces, b.outputs[k].workspaces);
        assert(desktop_laws::tidy(a.outputs[k]));
        assert(like(x[x.len() - 1], y[x.len() - 1]));
        assert forall|i: int| 0 <= i < y.len() - 1 && !(#[trigger] y[i]).occupied() implies i
            == b.outputs[k].active by {
            assert(like(x[i], y[i]));
        }
    }
}

proof fn replacing_keeps_likeness(
    a: desktop::DesktopView,
    b: desktop::DesktopView,
    place: (Option<u64>, int),
    ws: workspace::WorkspaceView,
)
    requires
        desktops_like(a, b),
        survival::known(b, place),
        like(b.at(place), ws),
    ensures
        desktops_like(a, b.with_at(place, ws)),
{
    let after = b.with_at(place, ws);
    assert(after.outputs.dom() =~= a.outputs.dom());
    assert forall|k: u64| #[trigger] a.outputs.contains_key(k) implies a.outputs[k].active
        == after.outputs[k].active && lists_like(
        a.outputs[k].workspaces,
        after.outputs[k].workspaces,
    ) by {
        assert(a.outputs.dom().contains(k));
        let (x, y) = (a.outputs[k].workspaces, after.outputs[k].workspaces);
        assert forall|i: int| 0 <= i < x.len() implies like(#[trigger] x[i], y[i]) by {
            assert(like(x[i], b.outputs[k].workspaces[i]));
        }
    }
    assert(lists_like(a.detached, after.detached)) by {
        assert forall|i: int| 0 <= i < a.detached.len() implies like(
            #[trigger] a.detached[i],
            after.detached[i],
        ) by {
            assert(like(a.detached[i], b.detached[i]));
        }
    }
}

proof fn pushing_keeps_ids(
    solver: layout::SolverView,
    tiled: Map<u64, TiledWindow>,
    ids: Seq<u64>,
    i: int,
    seed: Direction,
    answers: Seq<Option<Point>>,
    used: nat,
)
    requires
        tiled.dom().finite(),
        0 <= i,
    ensures
        solver.pushed_in_turn(tiled, ids, i, seed, answers, used) matches Ok((after, _))
            ==> after.dom() == tiled.dom(),
    decreases ids.len() - i,
{
    if i < ids.len() {
        let pushed = push::pushed_apart(
            solver.gap,
            solver.operation_limit,
            tiled,
            WindowId(ids[i]),
            seed,
            answers,
            used,
        );
        if let push::Pushed::Settled { tiled: after, used: count, .. } = pushed {
            stability::pushing_keeps(
                solver.gap,
                solver.operation_limit,
                tiled,
                WindowId(ids[i]),
                seed,
                answers,
                used,
            );
            pushing_keeps_ids(solver, after, ids, i + 1, seed, answers, count);
        }
    }
}

proof fn reflowing_keeps_likeness(
    d: desktop::DesktopView,
    all: Seq<workspace::WorkspaceView>,
    n: int,
    policy: CameraPolicy,
    answers: Seq<Option<Point>>,
)
    requires
        d.outputs.dom().finite(),
        finite_tiles(d),
    ensures
        d.reflowed(all, n, policy, answers) matches Ok((after, _)) ==> desktops_like(d, after),
    decreases n,
{
    if n > 0 && d.reflowed(all, n, policy, answers) is Ok {
        reflowing_keeps_likeness(d, all, n - 1, policy, answers);
        let (before, used) = d.reflowed(all, n - 1, policy, answers)->Ok_0;
        let (after, _) = d.reflowed(all, n, policy, answers)->Ok_0;
        let id = all[n - 1].id;
        assert(before.outputs.dom().finite());
        before.place_is_known(id);
        let place = before.place(id)->0;
        let old_ws = before.at(place);
        assert(like(d.at(place), old_ws) && d.at(place).tiled.dom().finite()) by {
            match place.0 {
                Some(k) => {
                    assert(before.outputs.dom().contains(k));
                    assert(d.outputs.contains_key(k));
                    let list = d.outputs[k].workspaces;
                    assert(like(list[place.1], before.outputs[k].workspaces[place.1]));
                    assert(d.outputs[k].workspaces[place.1].tiled.dom().finite());
                },
                None => {
                    assert(like(d.detached[place.1], before.detached[place.1]));
                },
            }
        }
        pushing_keeps_ids(
            before.solver,
            old_ws.tiled,
            ranking::ascending(old_ws.tiled.dom()),
            0,
            old_ws.layout_direction_hint,
            answers,
            used,
        );
        let seen = after.at(place);
        assert(after == before.with_at(place, seen));
        replacing_keeps_likeness(d, before, place, seen);
    } else if n <= 0 {
        assert(desktops_like(d, d));
    }
}

/// Every operation leaves every output tidy: those that may empty or fill a workspace, or show
/// another, whatever the outputs were, and the others where they were tidy before.
pub proof fn operations_leave_outputs_tidy(
    before: desktop::DesktopView,
    output: outputs::OutputView,
    id: OutputId,
    transaction: desktop::TransactionView,
    workspace: WorkspaceId,
    window_transaction: WindowTransaction,
    window: WindowId,
    answers: Seq<Option<Point>>,
    direction: Direction,
    scores: Seq<Option<directional_focus::FocusScore>>,
    physical_size: Size,
    logical_size: Size,
    scale: Scale120,
    transform: OutputTransform,
    gap: i64,
    policy: CameraPolicy,
)
    requires
        countable(before),
        finite_tiles(before),
        before.anchored(),
    ensures
        before.connected(output) matches Ok(after) ==> all_tidy(after),
        before.disconnected(id) matches Ok(after) ==> all_tidy(after),
        before.applied(transaction, answers) matches Ok((after, _)) ==> all_tidy(after),
        before.applied_window(workspace, window_transaction, answers) matches Ok(after) ==> all_tidy(
            after,
        ),
        before.focused_window(window) matches Ok((after, _)) ==> all_tidy(after),
        all_tidy(before) ==> {
            &&& before.focused_toward(workspace, direction, scores) matches Ok((after, _))
                ==> all_tidy(after)
            &&& before.configured(id, physical_size, logical_size, scale, transform) matches Ok(
                after,
            ) ==> all_tidy(after)
            &&& before.reconfigured(gap, policy, answers) matches Ok(after) ==> all_tidy(after)
        },
{
    countable_is_short(before);
    if before.connected(output) is Ok {
        assurance::connected_lengths(before, output);
        let added = before.with_output(output);
        assert(added.outputs.dom() =~= before.outputs.dom().insert(desktop::key(output.id)));
        normalization_tidies_all(added);
    }
    if before.disconnected(id) is Ok {
        disconnecting_stays_short(before, id);
        normalization_tidies_all(before.without_output(id));
    }
    transactions_tidy(before, transaction, answers);
    if before.applied_window(workspace, window_transaction, answers) is Ok {
        before.place_is_known(workspace);
        let place = before.place(workspace)->0;
        let ws = (before.solver.applied(before.at(place), window_transaction, answers)->Ok_0).0;
        let stored = match before.viewport_at(place) {
            Some((key, size)) => ws.changed(viewport::ChangeView::Store { key, size }).followed(
                size,
            ),
            None => ws,
        };
        replacing_keeps_short(before, place, stored);
        adopting_keeps_short(before.with_at(place, stored), place);
        normalization_tidies_all(before.laid_out(place, window_transaction, ws));
    }
    if let Ok((_, id)) = before.focused_window(window) {
        before.place_is_known(id);
        let place = before.place(id)->0;
        let ws = before.at(place).focused(window);
        let seen = match before.viewport_at(place) {
            Some((_, size)) => ws.followed(size),
            None => ws,
        };
        replacing_keeps_short(before, place, seen);
        showing_keeps_short(before.with_at(place, seen), place);
        normalization_tidies_all(before.with_at(place, seen).showing(place));
    }
    if all_tidy(before) {
        assert(desktops_like(before, before));
        if let Ok((after, Some(_))) = before.focused_toward(workspace, direction, scores) {
            before.place_is_known(workspace);
            let place = before.place(workspace)->0;
            let seen = after.at(place);
            assert(after == before.with_at(place, seen));
            replacing_keeps_likeness(before, before, place, seen);
            likeness_keeps_tidy(before, after);
        }
        if let Ok(after) = before.configured(id, physical_size, logical_size, scale, transform) {
            let k = desktop::key(id);
            let set = before.outputs[k];
            let change = viewport::ChangeView::Remap {
                key: set.output.stable_key,
                before: set.output.logical_size,
                after: logical_size,
            };
            assert(after.outputs.dom() =~= before.outputs.dom());
            assert forall|j: u64| #[trigger] before.outputs.contains_key(j) implies
                before.outputs[j].active == after.outputs[j].active && lists_like(
                before.outputs[j].workspaces,
                after.outputs[j].workspaces,
            ) by {
                if j == k {
                    let list = set.workspaces;
                    assert forall|i: int| 0 <= i < list.len() implies like(
                        #[trigger] list[i],
                        after.outputs[k].workspaces[i],
                    ) by {
                        survival::changing_keeps_windows(list[i], change, window);
                    }
                }
            }
            likeness_keeps_tidy(before, after);
        }
        if let Ok(after) = before.reconfigured(gap, policy, answers) {
            let fresh = desktop::DesktopView { solver: layout::SolverView::with_gap(gap), ..before };
            reflowing_keeps_likeness(
                fresh,
                before.all(),
                before.all().len() as int,
                policy,
                answers,
            );
            assert(desktops_like(before, after));
            likeness_keeps_tidy(before, after);
        }
    }
}

} // verus!
