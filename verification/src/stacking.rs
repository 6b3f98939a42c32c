//! In which order the parts of a frame lie over each other, and which clients hear that it was
//! shown.

use vstd::prelude::*;

verus! {

/// A part of a frame. Roots are the surfaces that lie on the desktop, the foremost first; popups
/// belong to a root.
#[derive(Clone, Copy, Debug, Eq, PartialEq, Structural)]
pub enum Layer {
    Cursor,
    DragIcon,
    Popup { root: usize, popup: usize },
    Root(usize),
}

/// The popups of a root, the first `n`.
pub open spec fn popups_of(root: int, n: int) -> Seq<Layer> {
    Seq::new(n as nat, |j: int| Layer::Popup { root: root as usize, popup: j as usize })
}

/// The first `n` roots, each behind its popups; `popups` counts those of each.
pub open spec fn stacked_roots(popups: Seq<usize>, n: int) -> Seq<Layer>
    decreases n,
{
    if n <= 0 {
        Seq::empty()
    } else {
        (stacked_roots(popups, n - 1) + popups_of(n - 1, popups[n - 1] as int)).push(
            Layer::Root((n - 1) as usize),
        )
    }
}

/// The parts of a frame, the foremost first: the pointer, what it drags, and the roots.
pub open spec fn stacked(popups: Seq<usize>, icon: bool, cursor: bool) -> Seq<Layer> {
    (if cursor {
        seq![Layer::Cursor]
    } else {
        Seq::empty()
    }) + (if icon {
        seq![Layer::DragIcon]
    } else {
        Seq::empty()
    }) + stacked_roots(popups, popups.len() as int)
}

/// The parts of a frame, the foremost first; `popups` counts the popups of each root.
pub fn drawing_order(popups: &Vec<usize>, icon: bool, cursor: bool) -> (r: Vec<Layer>)
    ensures
        r@ == stacked(popups@, icon, cursor),
{
    let mut list: Vec<Layer> = Vec::new();
    if cursor {
        list.push(Layer::Cursor);
    }
    if icon {
        list.push(Layer::DragIcon);
    }
    let ghost front = list@;
    assert(front =~= stacked(Seq::empty(), icon, cursor));
    let mut i: usize = 0;
    assert(list@ =~= front + stacked_roots(popups@, 0));
    while i < popups.len()
        invariant
            i <= popups@.len(),
            list@ == front + stacked_roots(popups@, i as int),
        decreases popups@.len() - i,
    {
        let ghost before = list@;
        let n: usize = popups[i];
        let mut j: usize = 0;
        assert(list@ =~= before + popups_of(i as int, 0));
        while j < n
            invariant
                j <= n,
                i < popups@.len(),
                list@ == before + popups_of(i as int, j as int),
            decreases n - j,
        {
            list.push(Layer::Popup { root: i, popup: j });
            j = j + 1;
            assert(list@ =~= before + popups_of(i as int, j as int));
        }
        list.push(Layer::Root(i));
        i = i + 1;
        assert(list@ =~= front + stacked_roots(popups@, i as int));
    }
    assert(list@ =~= stacked(popups@, icon, cursor));
    list
}

/// A client's wish to hear when a surface of its own has been shown.
#[derive(Clone, Copy, Debug, Eq, PartialEq, Structural)]
pub struct FrameCallback {
    pub surface: u64,
    pub callback: u64,
}

/// Of the wishes that wait on a surface, those that a frame has not met. A frame meets those that
/// were there when it was drawn.
pub open spec fn unmet(captured: Seq<FrameCallback>, surface: u64, waiting: Seq<u64>) -> Seq<u64> {
    waiting.filter(|callback: u64| !captured.contains(FrameCallback { surface, callback }))
}

fn is_captured(captured: &Vec<FrameCallback>, wish: FrameCallback) -> (r: bool)
    ensures
        r == captured@.contains(wish),
{
    let mut i: usize = 0;
    while i < captured.len()
        invariant
            i <= captured@.len(),
            forall|j: int| 0 <= j < i ==> captured@[j] != wish,
        decreases captured@.len() - i,
    {
        if captured[i] == wish {
            return true;
        }
        i = i + 1;
    }
    false
}

/// Of the wishes that wait on a surface, those that a frame has not met.
pub fn remaining_callbacks(captured: &Vec<FrameCallback>, surface: u64, waiting: &Vec<u64>) -> (r:
    Vec<u64>)
    ensures
        r@ == unmet(captured@, surface, waiting@),
{
    let mut rest: Vec<u64> = Vec::new();
    let mut i: usize = 0;
    assert(rest@ =~= unmet(captured@, surface, waiting@.take(0))) by {
        reveal(Seq::filter);
    }
    while i < waiting.len()
        invariant
            i <= waiting@.len(),
            rest@ == unmet(captured@, surface, waiting@.take(i as int)),
        decreases waiting@.len() - i,
    {
        let callback: u64 = waiting[i];
        proof {
            reveal(Seq::filter);
            assert(waiting@.take(i + 1).drop_last() =~= waiting@.take(i as int));
            assert(waiting@.take(i + 1).last() == callback);
        }
        if !is_captured(captured, FrameCallback { surface, callback }) {
            rest.push(callback);
        }
        i = i + 1;
    }
    assert(waiting@.take(i as int) =~= waiting@);
    rest
}

/// A wish is met once: none waits any more that a frame has met, and none is lost that it has not.
pub proof fn wishes_are_met_once(
    captured: Seq<FrameCallback>,
    surface: u64,
    waiting: Seq<u64>,
    callback: u64,
)
    ensures
        unmet(captured, surface, waiting).contains(callback) <==> waiting.contains(callback)
            && !captured.contains(FrameCallback { surface, callback }),
    decreases waiting.len(),
{
    reveal(Seq::filter);
    if waiting.len() > 0 {
        let before = waiting.drop_last();
        let rest = unmet(captured, surface, before);
        wishes_are_met_once(captured, surface, before, callback);
        assert(waiting =~= before.push(waiting.last()));
        assert(before.push(waiting.last()).contains(callback) <==> before.contains(callback)
            || waiting.last() == callback) by {
            if before.contains(callback) {
                assert(waiting[before.index_of(callback)] == callback);
            }
            if waiting.last() == callback {
                assert(waiting[waiting.len() - 1] == callback);
            }
        }
        assert(rest.push(waiting.last()).contains(callback) <==> rest.contains(callback)
            || waiting.last() == callback) by {
            let more = rest.push(waiting.last());
            if rest.contains(callback) {
                assert(more[rest.index_of(callback)] == callback);
            }
            if waiting.last() == callback {
                assert(more[rest.len() as int] == callback);
            }
        }
    }
}

} // verus!
