//! What becomes of windows that are closed.

use crate::compositor;
use crate::desktop;
use crate::geometry::Point;
use crate::layout::WindowTransaction;
use crate::layout_laws;
use crate::model::{WindowId, WorkspaceId};
use crate::ranking;
use crate::survival;
use crate::viewport;
use vstd::prelude::*;

verus! {

proof fn gathering_grows(d: desktop::DesktopView, keys: Seq<u64>, a: int, b: int)
    requires
        0 <= a <= b <= keys.len(),
    ensures
        d.gathered(keys, a).len() <= d.gathered(keys, b).len(),
    decreases b,
{
    if a < b {
        gathering_grows(d, keys, a, b - 1);
    }
}

/// The place of a workspace of an output in the list of all.
proof fn place_among(d: desktop::DesktopView, keys: Seq<u64>, n: int, m: int, i: int) -> (t: int)
    requires
        0 <= m < n <= keys.len(),
        0 <= i < d.outputs[keys[m]].workspaces.len(),
    ensures
        t == d.gathered(keys, m).len() + i,
        0 <= t < d.gathered(keys, n).len(),
        d.gathered(keys, n)[t] == d.outputs[keys[m]].workspaces[i],
    decreases n,
{
    if m < n - 1 {
        place_among(d, keys, n - 1, m, i)
    } else {
        d.gathered(keys, m).len() + i
    }
}

/// Two places of a desktop are two places in the list of all workspaces.
proof fn places_are_apart(
    d: desktop::DesktopView,
    a: (Option<u64>, int),
    b: (Option<u64>, int),
) -> (r: (int, int))
    requires
        d.outputs.dom().finite(),
        survival::known(d, a),
        survival::known(d, b),
    ensures
        0 <= r.0 < d.all().len(),
        0 <= r.1 < d.all().len(),
        d.all()[r.0] == d.at(a),
        d.all()[r.1] == d.at(b),
        a != b ==> r.0 != r.1,
{
    let keys = d.keys();
    let n = keys.len() as int;
    ranking::ranking_ranks(d.outputs.dom(), |id: u64| 0);
    let all = d.gathered(keys, n);
    let ka = match a.0 {
        Some(k) => {
            assert(keys.to_set().contains(k));
            keys.index_of(k)
        },
        None => n,
    };
    let kb = match b.0 {
        Some(k) => {
            assert(keys.to_set().contains(k));
            keys.index_of(k)
        },
        None => n,
    };
    let ta = if ka < n {
        place_among(d, keys, n, ka, a.1)
    } else {
        all.len() + a.1
    };
    let tb = if kb < n {
        place_among(d, keys, n, kb, b.1)
    } else {
        all.len() + b.1
    };
    if ka < kb {
        gathering_grows(d, keys, ka + 1, kb);
    } else if kb < ka {
        gathering_grows(d, keys, kb + 1, ka);
    }
    (ta, tb)
}

/// A window that is removed from the workspace that has it is nowhere on the desktop any more.
pub proof fn removed_windows_are_gone(
    d: desktop::DesktopView,
    workspace: WorkspaceId,
    window: WindowId,
    answers: Seq<Option<Point>>,
)
    requires
        d.outputs.dom().finite(),
        d.owner(window) is Ok,
        d.applied_window(workspace, WindowTransaction::Remove { id: window }, answers) is Ok,
        layout_laws::placed_once(d.at(d.place(workspace)->0), window),
    ensures
        !survival::has_window(
            d.applied_window(
                workspace,
                WindowTransaction::Remove { id: window },
                answers,
            )->Ok_0,
            window,
        ),
{
    let transaction = WindowTransaction::Remove { id: window };
    d.place_is_known(workspace);
    let place = d.place(workspace)->0;
    assert(survival::known(d, place));
    let before = d.at(place);
    let ws = (d.solver.applied(before, transaction, answers)->Ok_0).0;
    assert(before.has(window) && !ws.has(window));
    let stored = match d.viewport_at(place) {
        Some((key, size)) => ws.changed(viewport::ChangeView::Store { key, size }).followed(size),
        None => ws,
    };
    match d.viewport_at(place) {
        Some((key, size)) => {
            survival::changing_keeps_windows(
                ws,
                viewport::ChangeView::Store { key, size },
                window,
            );
        },
        None => {},
    }
    assert(!stored.has(window));
    let after = d.laid_out(place, transaction, ws);
    assert(after == d.with_at(place, stored));
    assert(after.outputs.dom() =~= d.outputs.dom());
    crate::sending_laws::windows_are_found_where_they_are(d, window);
    assert forall|other: (Option<u64>, int)| survival::known(d, other) implies !(
    #[trigger] after.at(other)).has(window) by {
        if other != place {
            let (one, two) = places_are_apart(d, place, other);
            assert(d.all()[one].has(window));
            assert(after.at(other) == d.at(other));
        }
    }
    assert(!survival::has_window(after, window)) by {
        if survival::holds(after.detached, window) {
            let i = choose|i: int|
                0 <= i < after.detached.len() && (#[trigger] after.detached[i]).has(window);
            assert(survival::known(d, (None::<u64>, i)));
            assert(!after.at((None::<u64>, i)).has(window));
        } else if survival::has_window(after, window) {
            let k = choose|k: u64| #[trigger]
                after.outputs.contains_key(k) && survival::holds(
                    after.outputs[k].workspaces,
                    window,
                );
            let i = choose|i: int|
                0 <= i < after.outputs[k].workspaces.len() && (
                #[trigger] after.outputs[k].workspaces[i]).has(window);
            assert(survival::known(d, (Some(k), i)));
            assert(!after.at((Some(k), i)).has(window));
        }
    }
    survival::normalization_keeps_windows(after, window);
}

/// Each of the dead windows is taken from what those before it have left: it is gone, and every
/// other window is still there. A window that is nowhere changes nothing.
pub proof fn dead_windows_are_taken(
    d: desktop::DesktopView,
    dead: Seq<WindowId>,
    n: int,
    other: WindowId,
)
    requires
        0 < n <= dead.len(),
        other != dead[n - 1],
        ({
            let before = compositor::without_windows(d, dead, n - 1);
            &&& before.outputs.dom().finite()
            &&& survival::tiles_are_finite(before)
            &&& before.owner(dead[n - 1]) matches Ok(ws) ==> before.applied_window(
                ws,
                WindowTransaction::Remove { id: dead[n - 1] },
                Seq::empty(),
            ) is Ok && layout_laws::placed_once(before.at(before.place(ws)->0), dead[n - 1])
        }),
    ensures
        ({
            let before = compositor::without_windows(d, dead, n - 1);
            let after = compositor::without_windows(d, dead, n);
            &&& before.owner(dead[n - 1]) is Ok ==> !survival::has_window(after, dead[n - 1])
            &&& before.owner(dead[n - 1]) is Err ==> after == before
            &&& survival::has_window(after, other) == survival::has_window(before, other)
        }),
{
    let before = compositor::without_windows(d, dead, n - 1);
    if let Ok(ws) = before.owner(dead[n - 1]) {
        removed_windows_are_gone(before, ws, dead[n - 1], Seq::empty());
        survival::other_windows_survive_window_transactions(
            before,
            ws,
            WindowTransaction::Remove { id: dead[n - 1] },
            Seq::empty(),
            dead[n - 1],
            other,
        );
    }
}

} // verus!
