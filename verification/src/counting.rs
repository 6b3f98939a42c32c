//! How many workspaces of a list, or of a desktop, are of some kind.

use crate::desktop;
use crate::outputs;
use crate::ranking;
use crate::viewport;
use crate::workspace;
use vstd::prelude::*;

verus! {

/// A kind of workspaces.
pub type Kind = spec_fn(workspace::WorkspaceView) -> bool;

/// How many workspaces of a list are of a kind.
pub open spec fn tally(list: Seq<workspace::WorkspaceView>, kind: Kind) -> nat
    decreases list.len(),
{
    if list.len() == 0 {
        0
    } else {
        tally(list.drop_last(), kind) + if kind(list.last()) {
            1nat
        } else {
            0
        }
    }
}

pub proof fn tally_push(
    list: Seq<workspace::WorkspaceView>,
    ws: workspace::WorkspaceView,
    kind: Kind,
)
    ensures
        tally(list.push(ws), kind) == tally(list, kind) + if kind(ws) {
            1nat
        } else {
            0
        },
{
    assert(list.push(ws).drop_last() =~= list);
}

pub proof fn tally_join(
    a: Seq<workspace::WorkspaceView>,
    b: Seq<workspace::WorkspaceView>,
    kind: Kind,
)
    ensures
        tally(a + b, kind) == tally(a, kind) + tally(b, kind),
    decreases b.len(),
{
    if b.len() == 0 {
        assert(a + b =~= a);
    } else {
        tally_join(a, b.drop_last(), kind);
        assert((a + b).drop_last() =~= a + b.drop_last());
    }
}

pub proof fn tally_first(list: Seq<workspace::WorkspaceView>, kind: Kind)
    requires
        list.len() > 0,
    ensures
        tally(list, kind) == tally(list.drop_first(), kind) + if kind(list[0]) {
            1nat
        } else {
            0
        },
{
    let head = seq![list[0]];
    assert(list =~= head + list.drop_first());
    tally_join(head, list.drop_first(), kind);
    assert(head.drop_last() =~= Seq::empty());
    assert(tally(head.drop_last(), kind) == 0);
}

pub proof fn tally_occupied(list: Seq<workspace::WorkspaceView>, kind: Kind)
    ensures
        tally(outputs::occupied(list), kind) <= tally(list, kind),
    decreases list.len(),
{
    if list.len() > 0 {
        tally_occupied(list.drop_last(), kind);
        tally_push(outputs::occupied(list.drop_last()), list.last(), kind);
    }
}

pub proof fn tally_pruned(
    kept: Seq<workspace::WorkspaceView>,
    rest: Seq<workspace::WorkspaceView>,
    active: int,
    kind: Kind,
)
    ensures
        tally(outputs::pruned(kept, rest, active).0, kind) <= tally(kept, kind) + tally(
            rest,
            kind,
        ),
    decreases rest.len(),
{
    if rest.len() > 0 {
        tally_first(rest, kind);
        if !rest[0].occupied() && kept.len() != active && rest.len() != 1 {
            tally_pruned(
                kept,
                rest.drop_first(),
                if kept.len() < active {
                    active - 1
                } else {
                    active
                },
                kind,
            );
        } else {
            tally_push(kept, rest[0], kind);
            tally_pruned(kept.push(rest[0]), rest.drop_first(), active, kind);
        }
    }
}

pub proof fn tally_parted(
    kept: Seq<workspace::WorkspaceView>,
    rest: Seq<workspace::WorkspaceView>,
    taken: Seq<workspace::WorkspaceView>,
    active: int,
    key: Seq<char>,
    kind: Kind,
)
    ensures
        ({
            let (left, gone, _) = desktop::parted(kept, rest, taken, active, key);
            tally(left, kind) + tally(gone, kind) <= tally(kept, kind) + tally(rest, kind)
                + tally(taken, kind)
        }),
    decreases rest.len(),
{
    if rest.len() > 0 {
        tally_first(rest, kind);
        if rest[0].original_output == Some(key) {
            tally_push(taken, rest[0], kind);
            tally_parted(
                kept,
                rest.drop_first(),
                if rest[0].occupied() {
                    taken.push(rest[0])
                } else {
                    taken
                },
                if kept.len() <= active && active > 0 {
                    active - 1
                } else {
                    active
                },
                key,
                kind,
            );
        } else {
            tally_push(kept, rest[0], kind);
            tally_parted(kept.push(rest[0]), rest.drop_first(), taken, active, key, kind);
        }
    }
}

/// Whether a change of viewport places makes no workspace one of a kind.
pub open spec fn steady(kind: Kind, change: viewport::ChangeView) -> bool {
    forall|ws: workspace::WorkspaceView| kind(#[trigger] ws.changed(change)) ==> kind(ws)
}

pub proof fn tally_changed(
    list: Seq<workspace::WorkspaceView>,
    change: viewport::ChangeView,
    kind: Kind,
)
    requires
        steady(kind, change),
    ensures
        tally(desktop::each_changed(list, change), kind) <= tally(list, kind),
    decreases list.len(),
{
    let after = desktop::each_changed(list, change);
    if list.len() > 0 {
        tally_changed(list.drop_last(), change, kind);
        assert(after.drop_last() =~= desktop::each_changed(list.drop_last(), change));
        assert(after.last() == list.last().changed(change));
    }
}

/// There are no more workspaces of a kind than of one that it is part of.
pub proof fn tally_grows(list: Seq<workspace::WorkspaceView>, kind: Kind, wider: Kind)
    requires
        forall|ws: workspace::WorkspaceView| #[trigger] kind(ws) ==> wider(ws),
    ensures
        tally(list, kind) <= tally(list, wider),
    decreases list.len(),
{
    if list.len() > 0 {
        tally_grows(list.drop_last(), kind, wider);
    }
}

pub open spec fn any() -> Kind {
    |ws: workspace::WorkspaceView| true
}

pub proof fn tally_any(list: Seq<workspace::WorkspaceView>)
    ensures
        tally(list, any()) == list.len(),
    decreases list.len(),
{
    if list.len() > 0 {
        tally_any(list.drop_last());
    }
}

/// A workspace of the kind makes the count positive, two of them at least two.
pub proof fn tally_counts(list: Seq<workspace::WorkspaceView>, i: int, kind: Kind)
    requires
        0 <= i < list.len(),
        kind(list[i]),
    ensures
        tally(list, kind) > 0,
        forall|j: int| 0 <= j < list.len() && j != i && kind(#[trigger] list[j]) ==> tally(
            list,
            kind,
        ) > 1,
    decreases list.len(),
{
    let rest = list.drop_last();
    if i < rest.len() {
        assert(rest[i] == list[i]);
        tally_counts(rest, i, kind);
        assert forall|j: int| 0 <= j < list.len() && j != i && kind(#[trigger] list[j]) implies tally(
            list,
            kind,
        ) > 1 by {
            if j < rest.len() {
                assert(rest[j] == list[j]);
            }
        }
    } else {
        assert forall|j: int| 0 <= j < list.len() && j != i && kind(#[trigger] list[j]) implies tally(
            list,
            kind,
        ) > 1 by {
            assert(rest[j] == list[j]);
            tally_counts(rest, j, kind);
        }
    }
}

/// A positive count comes from a workspace of the kind.
pub proof fn tally_witness(list: Seq<workspace::WorkspaceView>, kind: Kind) -> (i: int)
    requires
        tally(list, kind) > 0,
    ensures
        0 <= i < list.len(),
        kind(list[i]),
    decreases list.len(),
{
    if kind(list.last()) {
        list.len() - 1
    } else {
        tally_witness(list.drop_last(), kind)
    }
}

/// A count beyond one comes from two workspaces of the kind.
pub proof fn tally_witnesses(list: Seq<workspace::WorkspaceView>, kind: Kind) -> (r: (int, int))
    requires
        tally(list, kind) > 1,
    ensures
        0 <= r.0 < r.1 < list.len(),
        kind(list[r.0]),
        kind(list[r.1]),
    decreases list.len(),
{
    if kind(list.last()) {
        let i = tally_witness(list.drop_last(), kind);
        (i, list.len() - 1)
    } else {
        tally_witnesses(list.drop_last(), kind)
    }
}

/// Whether at most one workspace of a desktop is of a kind.
pub open spec fn single(d: desktop::DesktopView, kind: Kind) -> bool {
    &&& forall|k: u64| #[trigger]
        d.outputs.contains_key(k) ==> tally(d.outputs[k].workspaces, kind) <= 1
    &&& forall|k: u64, j: u64| #[trigger]
        d.outputs.contains_key(k) && #[trigger] d.outputs.contains_key(j) && k != j ==> tally(
            d.outputs[k].workspaces,
            kind,
        ) == 0 || tally(d.outputs[j].workspaces, kind) == 0
    &&& tally(d.detached, kind) <= 1
    &&& forall|k: u64| #[trigger]
        d.outputs.contains_key(k) ==> tally(d.outputs[k].workspaces, kind) == 0 || tally(
            d.detached,
            kind,
        ) == 0
}

/// Whether no workspace of a desktop is of a kind.
pub open spec fn none(d: desktop::DesktopView, kind: Kind) -> bool {
    &&& forall|k: u64| #[trigger]
        d.outputs.contains_key(k) ==> tally(d.outputs[k].workspaces, kind) == 0
    &&& tally(d.detached, kind) == 0
}

proof fn gathered_tally(d: desktop::DesktopView, keys: Seq<u64>, n: int, kind: Kind)
    requires
        0 <= n <= keys.len(),
        keys.no_duplicates(),
    ensures
        tally(d.gathered(keys, n), kind) == 0 <==> forall|i: int|
            0 <= i < n ==> tally((#[trigger] d.outputs[keys[i]]).workspaces, kind) == 0,
        tally(d.gathered(keys, n), kind) <= 1 <==> ((forall|i: int|
            0 <= i < n ==> tally((#[trigger] d.outputs[keys[i]]).workspaces, kind) <= 1) && (
        forall|i: int, j: int|
            0 <= i < j < n ==> tally((#[trigger] d.outputs[keys[i]]).workspaces, kind) == 0
                || tally((#[trigger] d.outputs[keys[j]]).workspaces, kind) == 0)),
    decreases n,
{
    if n > 0 {
        gathered_tally(d, keys, n - 1, kind);
        tally_join(d.gathered(keys, n - 1), d.outputs[keys[n - 1]].workspaces, kind);
        let last = tally(d.outputs[keys[n - 1]].workspaces, kind);
        let before = tally(d.gathered(keys, n - 1), kind);
        assert(d.gathered(keys, n) == d.gathered(keys, n - 1) + d.outputs[keys[n - 1]].workspaces);
        if before + last <= 1 {
            assert forall|i: int, j: int| 0 <= i < j < n implies tally(
                (#[trigger] d.outputs[keys[i]]).workspaces,
                kind,
            ) == 0 || tally((#[trigger] d.outputs[keys[j]]).workspaces, kind) == 0 by {
                if j == n - 1 && last > 0 {
                    assert(before == 0);
                }
            }
        } else {
            if before <= 1 && last <= 1 {
                assert(before == 1 && last == 1);
                let i = choose|i: int|
                    0 <= i < n - 1 && tally((#[trigger] d.outputs[keys[i]]).workspaces, kind) != 0;
                assert(tally(d.outputs[keys[i]].workspaces, kind) != 0);
                assert(tally(d.outputs[keys[n - 1]].workspaces, kind) != 0);
            } else if last > 1 {
                assert(tally(d.outputs[keys[n - 1]].workspaces, kind) > 1);
            }
        }
    }
}

/// A desktop has at most one workspace of a kind, or none, just when the list of all does.
pub proof fn all_tally(d: desktop::DesktopView, kind: Kind)
    requires
        d.outputs.dom().finite(),
    ensures
        tally(d.all(), kind) <= 1 <==> single(d, kind),
        tally(d.all(), kind) == 0 <==> none(d, kind),
{
    let keys = d.keys();
    let n = keys.len() as int;
    ranking::ranking_ranks(d.outputs.dom(), |id: u64| 0);
    gathered_tally(d, keys, n, kind);
    tally_join(d.gathered(keys, n), d.detached, kind);
    assert forall|i: int| 0 <= i < n implies d.outputs.contains_key(#[trigger] keys[i]) by {
        assert(keys.to_set().contains(keys[i]));
    }
    assert forall|k: u64| #[trigger] d.outputs.contains_key(k) implies keys.contains(k) by {
        assert(keys.to_set().contains(k));
    }
    if tally(d.all(), kind) <= 1 {
        assert forall|k: u64| #[trigger] d.outputs.contains_key(k) implies tally(
            d.outputs[k].workspaces,
            kind,
        ) <= 1 && (tally(d.outputs[k].workspaces, kind) == 0 || tally(d.detached, kind) == 0) by {
            let i = keys.index_of(k);
            assert(d.outputs[keys[i]] == d.outputs[k]);
        }
        assert forall|k: u64, j: u64| #[trigger]
            d.outputs.contains_key(k) && #[trigger] d.outputs.contains_key(j) && k != j implies tally(
            d.outputs[k].workspaces,
            kind,
        ) == 0 || tally(d.outputs[j].workspaces, kind) == 0 by {
            let (a, b) = (keys.index_of(k), keys.index_of(j));
            assert(d.outputs[keys[a]] == d.outputs[k]);
            assert(d.outputs[keys[b]] == d.outputs[j]);
        }
    }
    if single(d, kind) {
        assert forall|i: int, j: int| 0 <= i < j < n implies tally(
            (#[trigger] d.outputs[keys[i]]).workspaces,
            kind,
        ) == 0 || tally((#[trigger] d.outputs[keys[j]]).workspaces, kind) == 0 by {
            assert(keys[i] != keys[j]);
            assert(d.outputs.contains_key(keys[i]) && d.outputs.contains_key(keys[j]));
        }
        if tally(d.gathered(keys, n), kind) > 0 {
            let i = choose|i: int|
                0 <= i < n && tally((#[trigger] d.outputs[keys[i]]).workspaces, kind) != 0;
            assert(d.outputs.contains_key(keys[i]));
        }
    }
    if tally(d.all(), kind) == 0 {
        assert forall|k: u64| #[trigger] d.outputs.contains_key(k) implies tally(
            d.outputs[k].workspaces,
            kind,
        ) == 0 by {
            let i = keys.index_of(k);
            assert(d.outputs[keys[i]] == d.outputs[k]);
        }
    }
}

} // verus!
