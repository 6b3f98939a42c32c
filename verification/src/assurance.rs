//! When the desktop's operations succeed: on a desktop that keeps its invariants, outputs can
//! always be connected and disconnected.

use crate::counting;
use crate::counting::Kind;
use crate::desktop;
use crate::desktop_laws;
use crate::homecoming;
use crate::model;
use crate::model::{OutputId, WindowId, WorkspaceId};
use crate::outputs;
use crate::ranking;
use crate::viewport;
use crate::workspace;
use vstd::prelude::*;

verus! {

pub open spec fn with_id(id: WorkspaceId) -> Kind {
    |ws: workspace::WorkspaceView| ws.id == id
}

pub open spec fn with_name(name: Seq<char>) -> Kind {
    |ws: workspace::WorkspaceView| ws.name == Some(name)
}

pub open spec fn with_window(window: u64) -> Kind {
    |ws: workspace::WorkspaceView| desktop::windows_of(ws).contains(window)
}

/// Whether a viewport place, and all that it remembers of other outputs, have valid sizes.
pub open spec fn sized(place: viewport::ViewportView) -> bool {
    &&& place.rect.size.valid()
    &&& forall|key: Seq<char>| #[trigger]
        place.output_rects.contains_key(key) ==> place.output_rects[key].size.valid()
}

pub open spec fn sized_restore(restore: model::RestoreView) -> bool {
    match restore {
        model::RestoreView::Tiled { world_rect } => world_rect.size.valid(),
        model::RestoreView::Floating { viewport } => sized(viewport),
    }
}

pub open spec fn sized_fullscreen(restore: model::FullscreenRestoreView) -> bool {
    match restore {
        model::FullscreenRestoreView::Tiled { world_rect } => world_rect.size.valid(),
        model::FullscreenRestoreView::Floating { viewport } => sized(viewport),
        model::FullscreenRestoreView::Maximized { restore } => sized_restore(restore),
    }
}

/// Whether all places that the windows of a workspace have, had on other outputs or return to
/// have valid sizes.
pub open spec fn remembers_sizes(ws: workspace::WorkspaceView) -> bool {
    &&& forall|k: u64| #[trigger] ws.floating.contains_key(k) ==> sized(ws.floating[k].viewport)
    &&& ws.maximized matches Some(m) ==> sized_restore(m.restore)
    &&& ws.fullscreen matches Some(f) ==> sized_fullscreen(f.restore)
}

/// Whether a workspace is coherent by itself: no window is in it twice, and what it remembers is
/// of use.
pub open spec fn proper(ws: workspace::WorkspaceView) -> bool {
    desktop::coherent(ws) && desktop::windows_of(ws).no_duplicates() && remembers_sizes(ws)
}

pub open spec fn improper() -> Kind {
    |ws: workspace::WorkspaceView| !proper(ws)
}

/// Whether the workspaces of a desktop are proper, and no two have an id, a name or a window in
/// common.
pub open spec fn sound(d: desktop::DesktopView) -> bool {
    &&& counting::none(d, improper())
    &&& forall|id: WorkspaceId| counting::single(d, #[trigger] with_id(id))
    &&& forall|name: Seq<char>| counting::single(d, #[trigger] with_name(name))
    &&& forall|window: u64| counting::single(d, #[trigger] with_window(window))
}

/// Whether two workspaces have nothing in common that they must not.
spec fn apart(a: workspace::WorkspaceView, b: workspace::WorkspaceView) -> bool {
    &&& a.id != b.id
    &&& b.name is Some ==> a.name != b.name
    &&& forall|w: u64|
        !(#[trigger] desktop::windows_of(a).contains(w) && desktop::windows_of(b).contains(w))
}

spec fn own_windows(ws: workspace::WorkspaceView) -> bool {
    desktop::coherent(ws) && desktop::windows_of(ws).no_duplicates()
}

proof fn claims_succeed(owners: Map<u64, WorkspaceId>, list: Seq<u64>, n: int, id: WorkspaceId)
    requires
        0 <= n <= list.len(),
        list.no_duplicates(),
        forall|i: int| 0 <= i < n ==> !owners.contains_key(#[trigger] list[i]),
    ensures
        desktop::claim(owners, list, n, id) is Ok,
        forall|w: u64| #[trigger]
            desktop::claim(owners, list, n, id)->Ok_0.contains_key(w) == (owners.contains_key(w)
                || list.take(n).contains(w)),
    decreases n,
{
    if n > 0 {
        claims_succeed(owners, list, n - 1, id);
        let before = desktop::claim(owners, list, n - 1, id)->Ok_0;
        let next = list[n - 1];
        assert(!list.take(n - 1).contains(next)) by {
            if list.take(n - 1).contains(next) {
                let j = list.take(n - 1).index_of(next);
                assert(list[j] == next);
            }
        }
        assert forall|w: u64| #[trigger]
            desktop::claim(owners, list, n, id)->Ok_0.contains_key(w) == (owners.contains_key(w)
                || list.take(n).contains(w)) by {
            assert(before.contains_key(w) == (owners.contains_key(w) || list.take(n - 1).contains(
                w,
            )));
            assert(list.take(n).contains(w) == (list.take(n - 1).contains(w) || w == next)) by {
                if list.take(n).contains(w) {
                    let j = list.take(n).index_of(w);
                    if j < n - 1 {
                        assert(list.take(n - 1)[j] == w);
                    }
                }
                if list.take(n - 1).contains(w) {
                    let j = list.take(n - 1).index_of(w);
                    assert(list.take(n)[j] == w);
                }
                assert(list.take(n)[n - 1] == next);
            }
        }
    }
}

proof fn claims_are_distinct(owners: Map<u64, WorkspaceId>, list: Seq<u64>, n: int, id: WorkspaceId)
    requires
        0 <= n <= list.len(),
        desktop::claim(owners, list, n, id) is Ok,
    ensures
        list.take(n).no_duplicates(),
        forall|i: int| 0 <= i < n ==> !owners.contains_key(#[trigger] list[i]),
        forall|i: int|
            0 <= i < n ==> desktop::claim(owners, list, n, id)->Ok_0.contains_key(
                #[trigger] list[i],
            ),
        forall|w: u64| #[trigger]
            owners.contains_key(w) ==> desktop::claim(owners, list, n, id)->Ok_0.contains_key(w),
    decreases n,
{
    if n > 0 {
        claims_are_distinct(owners, list, n - 1, id);
        let before = desktop::claim(owners, list, n - 1, id)->Ok_0;
        assert(!before.contains_key(list[n - 1]));
        assert forall|i: int, j: int| 0 <= i < n && 0 <= j < n && i != j implies list.take(n)[i]
            != list.take(n)[j] by {
            if i < n - 1 && j < n - 1 {
                assert(list.take(n - 1)[i] != list.take(n - 1)[j]);
            } else if i < n - 1 {
                assert(before.contains_key(list[i]));
            } else {
                assert(before.contains_key(list[j]));
            }
        }
    }
}

/// Some of the first `n` workspaces has a window.
spec fn owned(all: Seq<workspace::WorkspaceView>, n: int, w: u64) -> bool {
    exists|i: int| 0 <= i < n && desktop::windows_of(#[trigger] all[i]).contains(w)
}

spec fn in_line(all: Seq<workspace::WorkspaceView>, n: int) -> bool {
    &&& forall|i: int| 0 <= i < n ==> own_windows(#[trigger] all[i])
    &&& forall|i: int, j: int| 0 <= i < j < n ==> apart(#[trigger] all[i], #[trigger] all[j])
}

proof fn lines_are_claimed(all: Seq<workspace::WorkspaceView>, n: int)
    requires
        0 <= n <= all.len(),
        in_line(all, n),
    ensures
        desktop::claimed(all, n) is Ok,
        forall|w: u64| #[trigger]
            desktop::claimed(all, n)->Ok_0.contains_key(w) == owned(all, n, w),
    decreases n,
{
    if n > 0 {
        lines_are_claimed(all, n - 1);
        let owners = desktop::claimed(all, n - 1)->Ok_0;
        let ws = all[n - 1];
        let list = desktop::windows_of(ws);
        assert(own_windows(ws));
        assert forall|j: int| 0 <= j < n - 1 implies (#[trigger] all[j]).id != ws.id && (
        ws.name is Some ==> all[j].name != ws.name) by {
            assert(apart(all[j], all[n - 1]));
        }
        assert(desktop::identity_fault(all, n - 1) is None);
        assert forall|i: int| 0 <= i < list.len() implies !owners.contains_key(#[trigger] list[i]) by {
            if owners.contains_key(list[i]) {
                assert(owned(all, n - 1, list[i]));
                let j = choose|j: int|
                    0 <= j < n - 1 && desktop::windows_of(#[trigger] all[j]).contains(list[i]);
                assert(apart(all[j], all[n - 1]));
                assert(list.contains(list[i]));
            }
        }
        claims_succeed(owners, list, list.len() as int, ws.id);
        assert(list.take(list.len() as int) =~= list);
        assert forall|w: u64| #[trigger]
            desktop::claimed(all, n)->Ok_0.contains_key(w) == owned(all, n, w) by {
            assert(owners.contains_key(w) == owned(all, n - 1, w));
            if owned(all, n - 1, w) {
                let j = choose|j: int|
                    0 <= j < n - 1 && desktop::windows_of(#[trigger] all[j]).contains(w);
                assert(desktop::windows_of(all[j]).contains(w));
            }
            if owned(all, n, w) {
                let j = choose|j: int|
                    0 <= j < n && desktop::windows_of(#[trigger] all[j]).contains(w);
                if j < n - 1 {
                    assert(owned(all, n - 1, w));
                }
            }
            if list.contains(w) {
                assert(desktop::windows_of(all[n - 1]).contains(w));
            }
        }
    }
}

proof fn claimed_are_in_line(all: Seq<workspace::WorkspaceView>, n: int)
    requires
        0 <= n <= all.len(),
        desktop::claimed(all, n) is Ok,
    ensures
        in_line(all, n),
        forall|w: u64| #[trigger]
            owned(all, n, w) ==> desktop::claimed(all, n)->Ok_0.contains_key(w),
    decreases n,
{
    if n > 0 {
        claimed_are_in_line(all, n - 1);
        let owners = desktop::claimed(all, n - 1)->Ok_0;
        let ws = all[n - 1];
        let list = desktop::windows_of(ws);
        claims_are_distinct(owners, list, list.len() as int, ws.id);
        assert(list.take(list.len() as int) =~= list);
        assert forall|i: int, j: int| 0 <= i < j < n implies apart(
            #[trigger] all[i],
            #[trigger] all[j],
        ) by {
            if j == n - 1 {
                assert(all[i].id != ws.id);
                assert forall|w: u64|
                    !(#[trigger] desktop::windows_of(all[i]).contains(w) && list.contains(w)) by {
                    if desktop::windows_of(all[i]).contains(w) && list.contains(w) {
                        assert(owned(all, n - 1, w));
                        let k = list.index_of(w);
                        assert(list[k] == w);
                    }
                }
            }
        }
        assert forall|w: u64| #[trigger] owned(all, n, w) implies desktop::claimed(
            all,
            n,
        )->Ok_0.contains_key(w) by {
            let j = choose|j: int| 0 <= j < n && desktop::windows_of(#[trigger] all[j]).contains(w);
            if j < n - 1 {
                assert(owned(all, n - 1, w));
            } else {
                let k = list.index_of(w);
                assert(list[k] == w);
            }
        }
    }
}

/// The owners of the windows of a desktop can be told just when its workspaces are sound but for
/// what they remember.
proof fn sound_desktops_are_claimed(d: desktop::DesktopView)
    requires
        d.outputs.dom().finite(),
        sound(d),
    ensures
        desktop::claimed(d.all(), d.all().len() as int) is Ok,
{
    let all = d.all();
    let n = all.len() as int;
    counting::all_tally(d, improper());
    assert forall|i: int| 0 <= i < n implies own_windows(#[trigger] all[i]) by {
        if !proper(all[i]) {
            counting::tally_counts(all, i, improper());
        }
    }
    assert forall|i: int, j: int| 0 <= i < j < n implies apart(#[trigger] all[i], #[trigger] all[j]) by {
        let (a, b) = (all[i], all[j]);
        counting::all_tally(d, with_id(b.id));
        if a.id == b.id {
            counting::tally_counts(all, i, with_id(b.id));
        }
        if let Some(name) = b.name {
            counting::all_tally(d, with_name(name));
            if a.name == b.name {
                counting::tally_counts(all, i, with_name(name));
            }
        }
        assert forall|w: u64|
            !(#[trigger] desktop::windows_of(a).contains(w) && desktop::windows_of(b).contains(w)) by {
            if desktop::windows_of(a).contains(w) && desktop::windows_of(b).contains(w) {
                counting::all_tally(d, with_window(w));
                counting::tally_counts(all, i, with_window(w));
            }
        }
    }
    lines_are_claimed(all, n);
}

pub(crate) proof fn claimed_desktops_are_sound(d: desktop::DesktopView)
    requires
        d.outputs.dom().finite(),
        desktop::claimed(d.all(), d.all().len() as int) is Ok,
        forall|i: int| 0 <= i < d.all().len() ==> remembers_sizes(#[trigger] d.all()[i]),
    ensures
        sound(d),
{
    let all = d.all();
    let n = all.len() as int;
    claimed_are_in_line(all, n);
    counting::all_tally(d, improper());
    if counting::tally(all, improper()) > 0 {
        let i = counting::tally_witness(all, improper());
        assert(own_windows(all[i]));
    }
    assert forall|id: WorkspaceId| counting::single(d, #[trigger] with_id(id)) by {
        counting::all_tally(d, with_id(id));
        if counting::tally(all, with_id(id)) > 1 {
            let (i, j) = counting::tally_witnesses(all, with_id(id));
            assert(apart(all[i], all[j]));
        }
    }
    assert forall|name: Seq<char>| counting::single(d, #[trigger] with_name(name)) by {
        counting::all_tally(d, with_name(name));
        if counting::tally(all, with_name(name)) > 1 {
            let (i, j) = counting::tally_witnesses(all, with_name(name));
            assert(apart(all[i], all[j]));
        }
    }
    assert forall|window: u64| counting::single(d, #[trigger] with_window(window)) by {
        counting::all_tally(d, with_window(window));
        if counting::tally(all, with_window(window)) > 1 {
            let (i, j) = counting::tally_witnesses(all, with_window(window));
            assert(apart(all[i], all[j]));
            assert(desktop::windows_of(all[i]).contains(window));
        }
    }
}

pub open spec fn from_id(n: int) -> Kind {
    |ws: workspace::WorkspaceView| ws.id.0 >= n
}

/// Whether all workspaces have ids below that of the next one.
pub open spec fn numbered(d: desktop::DesktopView) -> bool {
    counting::none(d, from_id(d.next_workspace_id as int))
}

/// The workspace that normalization puts at the end of an output.
pub open spec fn placeholder(id: u32, key: Seq<char>) -> workspace::WorkspaceView {
    workspace::WorkspaceView {
        original_output: Some(key),
        ..workspace::WorkspaceView::blank(WorkspaceId(id))
    }
}

pub(crate) proof fn placeholders_are_proper(id: u32, key: Seq<char>)
    ensures
        proper(placeholder(id, key)),
        desktop::windows_of(placeholder(id, key)).len() == 0,
        placeholder(id, key).name is None,
{
    let ws = placeholder(id, key);
    ranking::ranking_ranks(ws.tiled.dom(), |id: u64| 0);
    ranking::ranking_ranks(ws.floating.dom(), |id: u64| 0);
    let tiled = ranking::ascending(ws.tiled.dom());
    let floating = ranking::ascending(ws.floating.dom());
    assert(ws.tiled.dom() =~= Set::<u64>::empty());
    assert(ws.floating.dom() =~= Set::<u64>::empty());
    if tiled.len() > 0 {
        assert(tiled.to_set().contains(tiled[0]));
    }
    if floating.len() > 0 {
        assert(floating.to_set().contains(floating[0]));
    }
}

pub(crate) proof fn normalized_set_tally(set: outputs::SetView, id: u32, kind: Kind)
    requires
        id < u32::MAX,
    ensures
        counting::tally(set.normalized(id).0.workspaces, kind) <= counting::tally(
            set.workspaces,
            kind,
        ) + if kind(placeholder(id, set.output.stable_key)) && set.normalized(id).1 != id {
            1nat
        } else {
            0
        },
        set.normalized(id).1 == id || set.normalized(id).1 == id + 1,
        set.normalized(id).0.output == set.output,
{
    let empty = Seq::<workspace::WorkspaceView>::empty();
    counting::tally_pruned(empty, set.workspaces, set.active as int, kind);
    let (kept, _) = outputs::pruned(empty, set.workspaces, set.active as int);
    counting::tally_push(kept, placeholder(id, set.output.stable_key), kind);
}

/// The desktop with another set of workspaces on an output.
pub open spec fn with_set(d: desktop::DesktopView, k: u64, set: outputs::SetView) -> desktop::DesktopView {
    desktop::DesktopView { outputs: d.outputs.insert(k, set), ..d }
}

pub(crate) proof fn replaced_single(d: desktop::DesktopView, k: u64, set: outputs::SetView, kind: Kind)
    requires
        d.outputs.contains_key(k),
        counting::tally(set.workspaces, kind) <= counting::tally(d.outputs[k].workspaces, kind),
    ensures
        counting::single(d, kind) ==> counting::single(with_set(d, k, set), kind),
        counting::none(d, kind) ==> counting::none(with_set(d, k, set), kind),
{
    let after = with_set(d, k, set);
    assert forall|j: u64| #[trigger] after.outputs.contains_key(j) implies d.outputs.contains_key(j)
        && counting::tally(after.outputs[j].workspaces, kind) <= counting::tally(
        d.outputs[j].workspaces,
        kind,
    ) by {}
}

proof fn fresh_single(d: desktop::DesktopView, k: u64, set: outputs::SetView, kind: Kind)
    requires
        d.outputs.contains_key(k),
        counting::none(d, kind),
        counting::tally(set.workspaces, kind) <= 1,
    ensures
        counting::single(with_set(d, k, set), kind),
{
    let after = with_set(d, k, set);
    assert forall|j: u64| #[trigger] after.outputs.contains_key(j) implies d.outputs.contains_key(j)
        && (j != k ==> counting::tally(after.outputs[j].workspaces, kind) == 0) by {}
}

pub(crate) proof fn none_of_fewer(d: desktop::DesktopView, kind: Kind, wider: Kind)
    requires
        counting::none(d, wider),
        forall|ws: workspace::WorkspaceView| #[trigger] kind(ws) ==> wider(ws),
    ensures
        counting::none(d, kind),
{
    assert forall|k: u64| #[trigger] d.outputs.contains_key(k) implies counting::tally(
        d.outputs[k].workspaces,
        kind,
    ) == 0 by {
        counting::tally_grows(d.outputs[k].workspaces, kind, wider);
    }
    counting::tally_grows(d.detached, kind, wider);
}

/// Normalizing one output keeps a desktop sound.
proof fn normalizing_one(d: desktop::DesktopView, k: u64)
    requires
        d.outputs.contains_key(k),
        sound(d),
        numbered(d),
        d.next_workspace_id < u32::MAX,
    ensures
        ({
            let (set, id) = d.outputs[k].normalized(d.next_workspace_id);
            let after = desktop::DesktopView {
                outputs: d.outputs.insert(k, set),
                next_workspace_id: id,
                ..d
            };
            &&& sound(after)
            &&& numbered(after)
            &&& id <= d.next_workspace_id + 1
            &&& id >= d.next_workspace_id
            &&& set.output == d.outputs[k].output
        }),
{
    let next = d.next_workspace_id;
    let old_set = d.outputs[k];
    let key = old_set.output.stable_key;
    let (set, id) = old_set.normalized(next);
    let after = desktop::DesktopView {
        outputs: d.outputs.insert(k, set),
        next_workspace_id: id,
        ..d
    };
    let middle = with_set(d, k, set);
    placeholders_are_proper(next, key);
    normalized_set_tally(old_set, next, improper());
    replaced_single(d, k, set, improper());
    assert forall|name: Seq<char>| counting::single(after, #[trigger] with_name(name)) by {
        normalized_set_tally(old_set, next, with_name(name));
        assert(counting::single(d, with_name(name)));
        replaced_single(d, k, set, with_name(name));
        assert(counting::single(middle, with_name(name)));
    }
    assert forall|window: u64| counting::single(after, #[trigger] with_window(window)) by {
        normalized_set_tally(old_set, next, with_window(window));
        assert(counting::single(d, with_window(window)));
        replaced_single(d, k, set, with_window(window));
        assert(counting::single(middle, with_window(window)));
    }
    assert forall|x: WorkspaceId| counting::single(after, #[trigger] with_id(x)) by {
        normalized_set_tally(old_set, next, with_id(x));
        assert(counting::single(d, with_id(x)));
        if x.0 == next {
            none_of_fewer(d, with_id(x), from_id(next as int));
            fresh_single(d, k, set, with_id(x));
        } else {
            replaced_single(d, k, set, with_id(x));
        }
        assert(counting::single(middle, with_id(x)));
    }
    assert(counting::none(middle, improper()));
    let beyond = from_id(id as int);
    none_of_fewer(d, beyond, from_id(next as int));
    normalized_set_tally(old_set, next, beyond);
    replaced_single(d, k, set, beyond);
    assert(counting::none(middle, beyond));
}

/// What normalization keeps of the outputs themselves.
pub open spec fn same_frames(a: desktop::DesktopView, b: desktop::DesktopView) -> bool {
    &&& a.outputs.dom() == b.outputs.dom()
    &&& forall|k: u64| #[trigger] a.outputs.contains_key(k) ==> a.outputs[k].output
        == b.outputs[k].output
    &&& a.primary_output == b.primary_output
}

proof fn normalizing_some(d: desktop::DesktopView, keys: Seq<u64>, n: int)
    requires
        0 <= n <= keys.len(),
        forall|i: int| 0 <= i < keys.len() ==> d.outputs.contains_key(#[trigger] keys[i]),
        sound(d),
        numbered(d),
        d.next_workspace_id + n <= u32::MAX,
    ensures
        sound(d.normalized_outputs(keys, n)),
        numbered(d.normalized_outputs(keys, n)),
        d.normalized_outputs(keys, n).next_workspace_id <= d.next_workspace_id + n,
        same_frames(d, d.normalized_outputs(keys, n)),
    decreases n,
{
    if n > 0 {
        normalizing_some(d, keys, n - 1);
        let before = d.normalized_outputs(keys, n - 1);
        assert(d.outputs.contains_key(keys[n - 1]));
        assert(before.outputs.contains_key(keys[n - 1]));
        normalizing_one(before, keys[n - 1]);
        assert(d.normalized_outputs(keys, n).outputs.dom() =~= d.outputs.dom());
    }
}

pub(crate) proof fn fewer_detached(d: desktop::DesktopView, kind: Kind)
    ensures
        counting::single(d, kind) ==> counting::single(
            desktop::DesktopView { detached: outputs::occupied(d.detached), ..d },
            kind,
        ),
        counting::none(d, kind) ==> counting::none(
            desktop::DesktopView { detached: outputs::occupied(d.detached), ..d },
            kind,
        ),
{
    counting::tally_occupied(d.detached, kind);
    let after = desktop::DesktopView { detached: outputs::occupied(d.detached), ..d };
    assert(forall|k: u64| #[trigger] after.outputs.contains_key(k) == d.outputs.contains_key(k));
}

/// Normalization keeps a desktop sound as long as there are ids for new workspaces.
pub proof fn normalization_keeps_soundness(d: desktop::DesktopView)
    requires
        d.outputs.dom().finite(),
        sound(d),
        numbered(d),
        d.next_workspace_id + d.outputs.dom().len() <= u32::MAX,
    ensures
        sound(d.normalized()),
        numbered(d.normalized()),
        same_frames(d, d.normalized()),
        d.normalized().next_workspace_id <= d.next_workspace_id + d.outputs.dom().len(),
{
    let keys = d.keys();
    let n = keys.len() as int;
    ranking::ranking_ranks(d.outputs.dom(), |id: u64| 0);
    keys.unique_seq_to_set();
    assert forall|i: int| 0 <= i < n implies d.outputs.contains_key(#[trigger] keys[i]) by {
        assert(keys.to_set().contains(keys[i]));
    }
    normalizing_some(d, keys, n);
    let after = d.normalized_outputs(keys, n);
    fewer_detached(after, improper());
    fewer_detached(after, from_id(after.next_workspace_id as int));
    assert forall|id: WorkspaceId| counting::single(d.normalized(), #[trigger] with_id(id)) by {
        assert(counting::single(after, with_id(id)));
        fewer_detached(after, with_id(id));
    }
    assert forall|name: Seq<char>| counting::single(d.normalized(), #[trigger] with_name(name)) by {
        assert(counting::single(after, with_name(name)));
        fewer_detached(after, with_name(name));
    }
    assert forall|window: u64| counting::single(d.normalized(), #[trigger] with_window(window)) by {
        assert(counting::single(after, with_window(window)));
        fewer_detached(after, with_window(window));
    }
}

pub(crate) proof fn sizes_survive_changes(
    view: viewport::ViewportView,
    change: viewport::ChangeView,
)
    requires
        sized(view),
    ensures
        sized(view.changed(change)),
{
}

pub(crate) proof fn changes_keep_sizes(ws: workspace::WorkspaceView, change: viewport::ChangeView)
    requires
        remembers_sizes(ws),
    ensures
        remembers_sizes(ws.changed(change)),
{
    let after = ws.changed(change);
    assert forall|k: u64| #[trigger] after.floating.contains_key(k) implies sized(
        after.floating[k].viewport,
    ) by {
        assert(ws.floating.contains_key(k));
        sizes_survive_changes(ws.floating[k].viewport, change);
    }
    if let Some(m) = ws.maximized {
        restores_keep_sizes(m.restore, change);
    }
    if let Some(f) = ws.fullscreen {
        match f.restore {
            model::FullscreenRestoreView::Tiled { .. } => {},
            model::FullscreenRestoreView::Floating { viewport } => {
                sizes_survive_changes(viewport, change);
            },
            model::FullscreenRestoreView::Maximized { restore } => {
                restores_keep_sizes(restore, change);
            },
        }
    }
}

proof fn restores_keep_sizes(restore: model::RestoreView, change: viewport::ChangeView)
    requires
        sized_restore(restore),
    ensures
        sized_restore(restore.changed(change)),
{
    if let model::RestoreView::Floating { viewport } = restore {
        sizes_survive_changes(viewport, change);
    }
}

pub(crate) proof fn changes_keep_proper(ws: workspace::WorkspaceView, change: viewport::ChangeView)
    ensures
        proper(ws) ==> proper(ws.changed(change)),
        desktop::windows_of(ws.changed(change)) == desktop::windows_of(ws),
{
    let after = ws.changed(change);
    assert(after.floating.dom() =~= ws.floating.dom());
    if proper(ws) {
        changes_keep_sizes(ws, change);
        assert forall|k: u64| #[trigger] after.floating.contains_key(k) implies
            after.floating[k].window.0 == k && after.floating[k].viewport.rect.size.valid() by {
            assert(ws.floating.contains_key(k));
        }
        assert(forall|id: WindowId| after.has(id) == ws.has(id));
    }
}

/// A kind that neither changes of viewport places nor normalization add to.
spec fn kept(kind: Kind) -> bool {
    forall|change: viewport::ChangeView| #[trigger] counting::steady(kind, change)
}

proof fn kinds_are_kept(id: WorkspaceId, name: Seq<char>, window: u64, n: int)
    ensures
        kept(improper()),
        kept(with_id(id)),
        kept(with_name(name)),
        kept(with_window(window)),
        kept(from_id(n)),
        kept(counting::any()),
{
    assert forall|change: viewport::ChangeView, ws: workspace::WorkspaceView| (improper())(
        #[trigger] ws.changed(change),
    ) implies (improper())(ws) by {
        changes_keep_proper(ws, change);
    }
    assert forall|change: viewport::ChangeView, ws: workspace::WorkspaceView| (with_window(window))(
        #[trigger] ws.changed(change),
    ) implies (with_window(window))(ws) by {
        changes_keep_proper(ws, change);
    }
    assert forall|change: viewport::ChangeView| #[trigger]
        counting::steady(improper(), change) && counting::steady(with_id(id), change)
            && counting::steady(with_name(name), change) && counting::steady(
        with_window(window),
        change,
    ) && counting::steady(from_id(n), change) && counting::steady(counting::any(), change) by {}
}

/// Adding an output adds no workspace of a kind.
proof fn connecting_tally(d: desktop::DesktopView, output: outputs::OutputView, kind: Kind)
    requires
        kept(kind),
        d.anchored(),
        !d.outputs.contains_key(desktop::key(output.id)),
    ensures
        counting::single(d, kind) ==> counting::single(d.with_output(output), kind),
        counting::none(d, kind) ==> counting::none(d.with_output(output), kind),
{
    let k = desktop::key(output.id);
    let after = d.with_output(output);
    let (rest, taken) = d.yielded(output.stable_key);
    let change = viewport::ChangeView::Migrate {
        source: d.primary_viewport(),
        key: output.stable_key,
        size: output.logical_size,
    };
    assert(counting::steady(kind, change));
    counting::tally_occupied(taken, kind);
    counting::tally_changed(outputs::occupied(taken), change, kind);
    let empty = Seq::<workspace::WorkspaceView>::empty();
    assert(counting::tally(empty, kind) == 0);
    if d.outputs.dom() == Set::<u64>::empty() {
        assert forall|j: u64| #[trigger] after.outputs.contains_key(j) implies j == k by {
            if j != k {
                assert(d.outputs.dom().contains(j));
            }
        }
    } else {
        let primary = desktop::key(d.primary_output->0);
        let set = d.outputs[primary];
        counting::tally_parted(
            empty,
            set.workspaces,
            empty,
            set.active as int,
            output.stable_key,
            kind,
        );
        assert forall|j: u64| #[trigger] after.outputs.contains_key(j) && j != k implies
            d.outputs.contains_key(j) && counting::tally(after.outputs[j].workspaces, kind)
            <= counting::tally(d.outputs[j].workspaces, kind) by {}
        assert(counting::tally(after.outputs[k].workspaces, kind) + counting::tally(
            after.outputs[primary].workspaces,
            kind,
        ) <= counting::tally(d.outputs[primary].workspaces, kind));
        assert(after.outputs.contains_key(primary));
    }
}

/// Whether the outputs of a desktop have valid geometries and are known under their own ids and
/// by keys of their own.
spec fn framed(d: desktop::DesktopView) -> bool {
    &&& forall|k: u64| #[trigger]
        d.outputs.contains_key(k) ==> desktop::geometry_fault(d.outputs[k].output) is None
            && d.outputs[k].output.id.0 == k
    &&& forall|k: u64, j: u64| #[trigger]
        d.outputs.contains_key(k) && #[trigger] d.outputs.contains_key(j) && k != j
            ==> d.outputs[k].output.stable_key != d.outputs[j].output.stable_key
}

proof fn valid_desktops_are_framed(d: desktop::DesktopView)
    requires
        d.outputs.dom().finite(),
        d.valid(),
    ensures
        framed(d),
{
    assert forall|k: u64| #[trigger] d.outputs.contains_key(k) implies desktop::geometry_fault(
        d.outputs[k].output,
    ) is None && d.outputs[k].output.id.0 == k by {
        desktop_laws::valid_outputs(d, k);
    }
    assert forall|k: u64, j: u64| #[trigger]
        d.outputs.contains_key(k) && #[trigger] d.outputs.contains_key(j) && k != j implies
        d.outputs[k].output.stable_key != d.outputs[j].output.stable_key by {
        desktop_laws::valid_outputs(d, k);
    }
}

proof fn outputs_without_fault(d: desktop::DesktopView, keys: Seq<u64>, n: int)
    requires
        0 <= n <= keys.len(),
        forall|i: int| 0 <= i < n ==> (#[trigger] d.output_fault(keys, i)) is None,
    ensures
        d.outputs_fault(keys, n) is None,
    decreases n,
{
    if n > 0 {
        outputs_without_fault(d, keys, n - 1);
        assert(d.output_fault(keys, n - 1) is None);
    }
}

/// What must hold of a desktop before normalization, so that it is valid afterwards.
spec fn ready(d: desktop::DesktopView) -> bool {
    &&& d.outputs.dom().finite()
    &&& sound(d)
    &&& numbered(d)
    &&& framed(d)
    &&& d.anchored()
    &&& d.next_workspace_id + d.outputs.dom().len() <= u32::MAX
    &&& forall|k: u64| #[trigger]
        d.outputs.contains_key(k) ==> d.outputs[k].workspaces.len() < usize::MAX
}

/// A desktop that keeps all invariants, remembers sizes that are of use, and has numbered its
/// workspaces.
pub open spec fn settled(d: desktop::DesktopView) -> bool {
    &&& d.outputs.dom().finite()
    &&& d.valid()
    &&& sound(d)
    &&& numbered(d)
}

proof fn ready_desktops_settle(d: desktop::DesktopView)
    requires
        ready(d),
    ensures
        d.normalized().committed() is Ok,
        settled(d.normalized()),
        d.normalized().next_workspace_id <= d.next_workspace_id + d.outputs.dom().len(),
        same_frames(d, d.normalized()),
        forall|k: u64| #[trigger]
            d.outputs.contains_key(k) ==> d.normalized().outputs[k].workspaces.len()
                <= d.outputs[k].workspaces.len() + 1,
        d.normalized().detached.len() <= d.detached.len(),
{
    let after = d.normalized();
    normalization_keeps_soundness(d);
    let keys = after.keys();
    ranking::ranking_ranks(after.outputs.dom(), |id: u64| 0);
    assert forall|i: int| 0 <= i < keys.len() implies after.outputs.contains_key(
        #[trigger] keys[i],
    ) by {
        assert(keys.to_set().contains(keys[i]));
    }
    assert forall|i: int| 0 <= i < keys.len() implies (#[trigger] after.output_fault(keys, i)) is None by {
        let k = keys[i];
        assert(after.outputs.contains_key(k));
        assert(d.outputs.contains_key(k));
        let id = homecoming::normalized_output(d, k);
        desktop_laws::normalization_tidies(d.outputs[k], id);
        assert forall|j: int| 0 <= j < i implies (#[trigger] after.outputs[keys[j]]).output.stable_key
            != after.outputs[k].output.stable_key by {
            assert(after.outputs.contains_key(keys[j]));
            assert(d.outputs.contains_key(keys[j]));
            assert(keys[j] != keys[i]);
        }
    }
    outputs_without_fault(after, keys, keys.len() as int);
    sound_desktops_are_claimed(after);
    assert forall|k: u64| #[trigger] d.outputs.contains_key(k) implies
        after.outputs[k].workspaces.len() <= d.outputs[k].workspaces.len() + 1 by {
        let id = homecoming::normalized_output(d, k);
        let empty = Seq::<workspace::WorkspaceView>::empty();
        let set = d.outputs[k];
        let kept = outputs::pruned(empty, set.workspaces, set.active as int).0;
        counting::tally_pruned(empty, set.workspaces, set.active as int, counting::any());
        counting::tally_any(kept);
        counting::tally_any(set.workspaces);
        assert(counting::tally(empty, counting::any()) == 0);
    }
    let unkept = d.normalized_outputs(d.keys(), d.keys().len() as int);
    normalizing_keeps_detached(d, d.keys(), d.keys().len() as int);
    counting::tally_occupied(d.detached, counting::any());
    counting::tally_any(d.detached);
    counting::tally_any(outputs::occupied(d.detached));
}

proof fn normalizing_keeps_detached(d: desktop::DesktopView, keys: Seq<u64>, n: int)
    ensures
        d.normalized_outputs(keys, n).detached == d.detached,
    decreases n,
{
    if n > 0 {
        normalizing_keeps_detached(d, keys, n - 1);
    }
}

/// An output with a valid geometry, an id and a stable key that no other has can be connected to
/// any settled desktop, which is settled again then.
pub proof fn connecting_succeeds(d: desktop::DesktopView, output: outputs::OutputView)
    requires
        settled(d),
        desktop::geometry_fault(output) is None,
        !d.outputs.contains_key(desktop::key(output.id)),
        !d.has_stable_key(output.stable_key),
        d.next_workspace_id + d.outputs.dom().len() < u32::MAX,
        forall|k: u64| #[trigger]
            d.outputs.contains_key(k) ==> d.outputs[k].workspaces.len() < usize::MAX,
        d.detached.len() < usize::MAX,
    ensures
        d.connected(output) is Ok,
        settled(d.connected(output)->Ok_0),
        d.connected(output)->Ok_0.outputs.dom() == d.outputs.dom().insert(desktop::key(output.id)),
{
    let after = d.with_output(output);
    let k = desktop::key(output.id);
    valid_desktops_are_framed(d);
    assert(d.anchored());
    kinds_are_kept(WorkspaceId(0), Seq::empty(), 0, d.next_workspace_id as int);
    connecting_tally(d, output, improper());
    connecting_tally(d, output, from_id(d.next_workspace_id as int));
    assert forall|id: WorkspaceId| counting::single(after, #[trigger] with_id(id)) by {
        kinds_are_kept(id, Seq::empty(), 0, 0);
        assert(counting::single(d, with_id(id)));
        connecting_tally(d, output, with_id(id));
    }
    assert forall|name: Seq<char>| counting::single(after, #[trigger] with_name(name)) by {
        kinds_are_kept(WorkspaceId(0), name, 0, 0);
        assert(counting::single(d, with_name(name)));
        connecting_tally(d, output, with_name(name));
    }
    assert forall|window: u64| counting::single(after, #[trigger] with_window(window)) by {
        kinds_are_kept(WorkspaceId(0), Seq::empty(), window, 0);
        assert(counting::single(d, with_window(window)));
        connecting_tally(d, output, with_window(window));
    }
    assert(after.next_workspace_id == d.next_workspace_id);
    assert(after.outputs.dom() =~= d.outputs.dom().insert(k));
    connected_lengths(d, output);
    assert forall|j: u64| #[trigger] after.outputs.contains_key(j) implies desktop::geometry_fault(
        after.outputs[j].output,
    ) is None && after.outputs[j].output.id.0 == j && (j != k ==> after.outputs[j].output
        == d.outputs[j].output) by {
        if j != k {
            assert(d.outputs.contains_key(j));
        }
    }
    assert(framed(after)) by {
        assert forall|i: u64, j: u64| #[trigger]
            after.outputs.contains_key(i) && #[trigger] after.outputs.contains_key(j) && i
                != j implies after.outputs[i].output.stable_key
            != after.outputs[j].output.stable_key by {
            if i != k {
                assert(d.outputs.contains_key(i));
            }
            if j != k {
                assert(d.outputs.contains_key(j));
            }
        }
    }
    ready_desktops_settle(after);
}

/// No list gets longer than it may when an output is added.
pub(crate) proof fn connected_lengths(d: desktop::DesktopView, output: outputs::OutputView)
    requires
        d.anchored(),
        !d.outputs.contains_key(desktop::key(output.id)),
        forall|k: u64| #[trigger]
            d.outputs.contains_key(k) ==> d.outputs[k].workspaces.len() < usize::MAX,
        d.detached.len() < usize::MAX,
    ensures
        forall|k: u64| #[trigger]
            d.with_output(output).outputs.contains_key(k) ==> d.with_output(
                output,
            ).outputs[k].workspaces.len() < usize::MAX,
{
    let after = d.with_output(output);
    let k = desktop::key(output.id);
    let any = counting::any();
    let (rest, taken) = d.yielded(output.stable_key);
    let empty = Seq::<workspace::WorkspaceView>::empty();
    counting::tally_occupied(taken, any);
    counting::tally_any(taken);
    counting::tally_any(outputs::occupied(taken));
    assert(after.outputs[k].workspaces.len() == outputs::occupied(taken).len());
    if d.outputs.dom() == Set::<u64>::empty() {
        assert forall|j: u64| #[trigger] after.outputs.contains_key(j) implies
            after.outputs[j].workspaces.len() < usize::MAX by {
            if j != k {
                assert(d.outputs.dom().contains(j));
            }
        }
    } else {
        let primary = desktop::key(d.primary_output->0);
        let set = d.outputs[primary];
        counting::tally_parted(
            empty,
            set.workspaces,
            empty,
            set.active as int,
            output.stable_key,
            any,
        );
        let (left, _, _) = desktop::parted(
            empty,
            set.workspaces,
            empty,
            set.active as int,
            output.stable_key,
        );
        counting::tally_any(left);
        counting::tally_any(set.workspaces);
        assert(counting::tally(empty, any) == 0);
        assert(d.outputs.contains_key(primary));
        assert forall|j: u64| #[trigger] after.outputs.contains_key(j) implies
            after.outputs[j].workspaces.len() < usize::MAX by {
            if j != k {
                assert(d.outputs.contains_key(j));
            }
        }
    }
}

/// Taking an output away adds no workspace of a kind.
proof fn disconnecting_tally(d: desktop::DesktopView, id: OutputId, kind: Kind)
    requires
        kept(kind),
        d.outputs.dom().finite(),
        d.anchored(),
        d.outputs.contains_key(desktop::key(id)),
    ensures
        counting::single(d, kind) ==> counting::single(d.without_output(id), kind),
        counting::none(d, kind) ==> counting::none(d.without_output(id), kind),
{
    let k = desktop::key(id);
    let removed = d.outputs[k];
    let left = d.outputs.remove(k);
    let homeless = outputs::occupied(removed.workspaces);
    let after = d.without_output(id);
    counting::tally_occupied(removed.workspaces, kind);
    if left.dom() == Set::<u64>::empty() {
        counting::tally_join(d.detached, homeless, kind);
        assert forall|j: u64| #[trigger] after.outputs.contains_key(j) implies false by {
            assert(left.dom().contains(j));
        }
    } else {
        heirs_are_known(d, id);
        let heir = d.heir(id);
        let target = left[heir];
        let change = viewport::ChangeView::Migrate {
            source: Some((removed.output.stable_key, removed.output.logical_size)),
            key: target.output.stable_key,
            size: target.output.logical_size,
        };
        let moved = desktop::each_changed(homeless, change);
        assert(counting::steady(kind, change));
        counting::tally_changed(homeless, change, kind);
        let at = if target.workspaces.len() > 0 {
            target.workspaces.len() - 1
        } else {
            0
        };
        let (head, tail) = (target.workspaces.take(at), target.workspaces.skip(at));
        assert(target.workspaces =~= head + tail);
        counting::tally_join(head, tail, kind);
        counting::tally_join(head, moved, kind);
        counting::tally_join(head + moved, tail, kind);
        assert(after.outputs[heir].workspaces == head + moved + tail);
        assert(counting::tally(after.outputs[heir].workspaces, kind) <= counting::tally(
            d.outputs[heir].workspaces,
            kind,
        ) + counting::tally(d.outputs[k].workspaces, kind));
        assert forall|j: u64| #[trigger] after.outputs.contains_key(j) implies
            d.outputs.contains_key(j) && j != k && (j != heir ==> after.outputs[j]
            == d.outputs[j]) by {}
    }
}

/// Where another output is left, the workspaces of one that goes have somewhere to go.
proof fn heirs_are_known(d: desktop::DesktopView, id: OutputId)
    requires
        d.outputs.dom().finite(),
        d.anchored(),
        d.outputs.contains_key(desktop::key(id)),
        d.outputs.remove(desktop::key(id)).dom() != Set::<u64>::empty(),
    ensures
        d.outputs.contains_key(d.heir(id)),
        d.heir(id) != desktop::key(id),
{
    let left = d.outputs.remove(desktop::key(id)).dom();
    ranking::ranking_ranks(left, |id: u64| 0);
    let keys = ranking::ascending(left);
    if keys.len() == 0 {
        assert(left =~= Set::<u64>::empty()) by {
            assert forall|k: u64| !left.contains(k) by {
                if left.contains(k) {
                    assert(keys.to_set().contains(k));
                }
            }
        }
    }
    assert(keys.to_set().contains(keys[0]));
    assert(d.outputs.dom().contains(desktop::key(id)));
}

/// Any output of a settled desktop can be disconnected, and the desktop is settled again then.
pub proof fn disconnecting_succeeds(d: desktop::DesktopView, id: OutputId)
    requires
        settled(d),
        d.outputs.contains_key(desktop::key(id)),
        d.next_workspace_id + d.outputs.dom().len() <= u32::MAX,
        forall|k: u64, j: u64| #[trigger]
            d.outputs.contains_key(k) && #[trigger] d.outputs.contains_key(j)
                ==> d.outputs[k].workspaces.len() + d.outputs[j].workspaces.len() < usize::MAX,
    ensures
        d.disconnected(id) is Ok,
        settled(d.disconnected(id)->Ok_0),
        d.disconnected(id)->Ok_0.outputs.dom() == d.outputs.dom().remove(desktop::key(id)),
        forall|k: u64| #[trigger]
            d.disconnected(id)->Ok_0.outputs.contains_key(k) ==> {
                &&& d.disconnected(id)->Ok_0.outputs[k].output == d.outputs[k].output
                &&& d.disconnected(id)->Ok_0.outputs[k].workspaces.len()
                    <= d.outputs[k].workspaces.len() + d.outputs[desktop::key(
                    id,
                )].workspaces.len() + 1
            },
        d.disconnected(id)->Ok_0.next_workspace_id <= d.next_workspace_id
            + d.outputs.dom().len(),
        d.disconnected(id)->Ok_0.detached.len() <= d.detached.len() + d.outputs[desktop::key(
            id,
        )].workspaces.len(),
{
    let after = d.without_output(id);
    let k = desktop::key(id);
    valid_desktops_are_framed(d);
    assert(d.anchored());
    kinds_are_kept(WorkspaceId(0), Seq::empty(), 0, d.next_workspace_id as int);
    disconnecting_tally(d, id, improper());
    disconnecting_tally(d, id, from_id(d.next_workspace_id as int));
    assert forall|x: WorkspaceId| counting::single(after, #[trigger] with_id(x)) by {
        kinds_are_kept(x, Seq::empty(), 0, 0);
        assert(counting::single(d, with_id(x)));
        disconnecting_tally(d, id, with_id(x));
    }
    assert forall|name: Seq<char>| counting::single(after, #[trigger] with_name(name)) by {
        kinds_are_kept(WorkspaceId(0), name, 0, 0);
        assert(counting::single(d, with_name(name)));
        disconnecting_tally(d, id, with_name(name));
    }
    assert forall|window: u64| counting::single(after, #[trigger] with_window(window)) by {
        kinds_are_kept(WorkspaceId(0), Seq::empty(), window, 0);
        assert(counting::single(d, with_window(window)));
        disconnecting_tally(d, id, with_window(window));
    }
    let left = d.outputs.remove(k);
    if left.dom() != Set::<u64>::empty() {
        heirs_are_known(d, id);
    }
    assert(after.outputs.dom() =~= d.outputs.dom().remove(k));
    assert(after.next_workspace_id == d.next_workspace_id);
    let any = counting::any();
    counting::tally_occupied(d.outputs[k].workspaces, any);
    counting::tally_any(d.outputs[k].workspaces);
    counting::tally_any(outputs::occupied(d.outputs[k].workspaces));
    assert forall|j: u64| #[trigger] after.outputs.contains_key(j) implies
        d.outputs.contains_key(j) && after.outputs[j].output == d.outputs[j].output
        && after.outputs[j].workspaces.len() <= d.outputs[j].workspaces.len()
        + d.outputs[k].workspaces.len() by {
        assert(left.dom().contains(j));
        assert(d.outputs.contains_key(k));
    }
    assert(framed(after));
    assert(after.anchored()) by {
        if left.dom() == Set::<u64>::empty() {
            assert(after.outputs.dom() =~= Set::<u64>::empty());
        } else {
            let heir = d.heir(id);
            assert(left.contains_key(heir));
            assert(d.outputs[heir].output.id.0 == heir);
            assert(desktop::key(OutputId(heir as u32)) == heir);
        }
    }
    ready_desktops_settle(after);
}

/// A desktop starts settled.
pub proof fn fresh_desktops_are_settled(gap: i64)
    ensures
        settled(desktop::DesktopView::fresh(gap)),
{
    let d = desktop::DesktopView::fresh(gap);
    assert(d.outputs.dom() =~= Set::<u64>::empty());
    assert(d.keys().len() == 0) by {
        ranking::ranking_ranks(d.outputs.dom(), |id: u64| 0);
        if d.keys().len() > 0 {
            assert(d.keys().to_set().contains(d.keys()[0]));
        }
    }
    assert(d.all() =~= Seq::empty());
    claimed_desktops_are_sound(d);
}

/// Any output of a settled desktop can be disconnected and connected again, under its own id or
/// another that is not taken.
pub proof fn reconnecting_succeeds(
    d: desktop::DesktopView,
    id: OutputId,
    again: outputs::OutputView,
)
    requires
        settled(d),
        d.outputs.contains_key(desktop::key(id)),
        again.stable_key == d.outputs[desktop::key(id)].output.stable_key,
        desktop::geometry_fault(again) is None,
        again.id == id || !d.outputs.contains_key(desktop::key(again.id)),
        d.next_workspace_id + 2 * d.outputs.dom().len() < u32::MAX,
        forall|k: u64, j: u64| #[trigger]
            d.outputs.contains_key(k) && #[trigger] d.outputs.contains_key(j)
                ==> d.outputs[k].workspaces.len() + d.outputs[j].workspaces.len() + 1 < usize::MAX,
        d.detached.len() + d.outputs[desktop::key(id)].workspaces.len() < usize::MAX,
    ensures
        d.disconnected(id) is Ok,
        d.disconnected(id)->Ok_0.connected(again) is Ok,
        settled(d.disconnected(id)->Ok_0.connected(again)->Ok_0),
{
    disconnecting_succeeds(d, id);
    let gone = d.disconnected(id)->Ok_0;
    let k = desktop::key(id);
    valid_desktops_are_framed(d);
    assert forall|j: u64| #[trigger] gone.outputs.contains_key(j) implies
        gone.outputs[j].output.stable_key != again.stable_key && gone.outputs[j].workspaces.len()
        < usize::MAX by {
        assert(gone.outputs.dom().contains(j));
        assert(d.outputs.contains_key(j) && j != k);
    }
    assert(!gone.outputs.contains_key(desktop::key(again.id))) by {
        assert(!gone.outputs.dom().contains(desktop::key(again.id)));
    }
    assert(gone.outputs.dom().len() <= d.outputs.dom().len());
    connecting_succeeds(gone, again);
}

} // verus!
