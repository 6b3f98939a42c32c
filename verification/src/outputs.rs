//! Outputs and the ordered workspaces that each of them owns.

use crate::geometry::Size;
use crate::model::{OutputId, WorkspaceId};
use crate::workspace;
use crate::workspace::Workspace;
use vstd::prelude::*;

verus! {

broadcast use workspace::group_views;

#[derive(Clone, Copy, Debug, Eq, PartialEq, Structural)]
pub enum OutputTransform {
    Normal,
    Rotate90,
    Rotate180,
    Rotate270,
    Flipped,
}

impl Default for OutputTransform {
    fn default() -> (r: Self)
        ensures
            r == OutputTransform::Normal,
    {
        OutputTransform::Normal
    }
}

/// A scale in units of 1/120.
#[derive(Clone, Copy, Debug, Eq, PartialEq, Structural)]
pub struct Scale120(pub u32);

impl Scale120 {
    /// The scale of one.
    pub fn one() -> (r: Self)
        ensures
            r == Scale120(120),
    {
        Scale120(120)
    }
}

#[derive(Debug, Eq, PartialEq)]
pub struct Output {
    pub id: OutputId,
    /// What identifies the monitor when it is connected again.
    pub stable_key: String,
    pub physical_size: Size,
    pub logical_size: Size,
    pub native_scale: Scale120,
    pub transform: OutputTransform,
}

#[verifier::ext_equal]
pub struct OutputView {
    pub id: OutputId,
    pub stable_key: Seq<char>,
    pub physical_size: Size,
    pub logical_size: Size,
    pub native_scale: Scale120,
    pub transform: OutputTransform,
}

impl View for Output {
    type V = OutputView;

    open spec fn view(&self) -> OutputView {
        OutputView {
            id: self.id,
            stable_key: self.stable_key@,
            physical_size: self.physical_size,
            logical_size: self.logical_size,
            native_scale: self.native_scale,
            transform: self.transform,
        }
    }
}

impl Clone for Output {
    fn clone(&self) -> (r: Self)
        ensures
            r@ == self@,
    {
        Output {
            id: self.id,
            stable_key: self.stable_key.clone(),
            physical_size: self.physical_size,
            logical_size: self.logical_size,
            native_scale: self.native_scale,
            transform: self.transform,
        }
    }
}

impl Output {
    pub fn new(id: OutputId, stable_key: String, logical_size: Size) -> (r: Self)
        ensures
            r@ == (OutputView {
                id,
                stable_key: stable_key@,
                physical_size: logical_size,
                logical_size,
                native_scale: Scale120(120),
                transform: OutputTransform::Normal,
            }),
    {
        Output {
            id,
            stable_key,
            physical_size: logical_size,
            logical_size,
            native_scale: Scale120::one(),
            transform: OutputTransform::Normal,
        }
    }
}

/// The workspaces of an output, and which of them it shows.
#[derive(Debug)]
pub struct OutputWorkspaceSet {
    pub output: Output,
    pub workspaces: Vec<Workspace>,
    pub active: usize,
}

#[verifier::ext_equal]
pub struct SetView {
    pub output: OutputView,
    pub workspaces: Seq<workspace::WorkspaceView>,
    pub active: usize,
}

impl View for OutputWorkspaceSet {
    type V = SetView;

    open spec fn view(&self) -> SetView {
        SetView {
            output: self.output@,
            workspaces: workspace::views(self.workspaces@),
            active: self.active,
        }
    }
}

/// A copy of a list of workspaces.
pub fn copy_workspaces(workspaces: &Vec<Workspace>) -> (r: Vec<Workspace>)
    ensures
        workspace::views(r@) == workspace::views(workspaces@),
{
    let mut r: Vec<Workspace> = Vec::new();
    let mut i: usize = 0;
    while i < workspaces.len()
        invariant
            i <= workspaces@.len(),
            workspace::views(r@) == workspace::views(workspaces@).take(i as int),
        decreases workspaces@.len() - i,
    {
        r.push(workspaces[i].clone());
        i = i + 1;
        assert(workspace::views(r@) =~= workspace::views(workspaces@).take(i as int));
    }
    assert(workspace::views(r@) =~= workspace::views(workspaces@));
    r
}

impl Clone for OutputWorkspaceSet {
    fn clone(&self) -> (r: Self)
        ensures
            r@ == self@,
    {
        OutputWorkspaceSet {
            output: self.output.clone(),
            workspaces: copy_workspaces(&self.workspaces),
            active: self.active,
        }
    }
}

impl OutputWorkspaceSet {
    pub fn active_workspace(&self) -> (r: Option<&Workspace>)
        ensures
            match r {
                Some(ws) => self.active < self@.workspaces.len() && ws@
                    == self@.workspaces[self.active as int],
                None => self.active >= self@.workspaces.len(),
            },
    {
        if self.active < self.workspaces.len() {
            Some(&self.workspaces[self.active])
        } else {
            None
        }
    }

    pub fn active_workspace_mut(&mut self) -> (r: Option<&mut Workspace>)
        ensures
            match r {
                Some(ws) => old(self).active < old(self)@.workspaces.len() && ws@ == old(
                    self)@.workspaces[old(self).active as int] && final(self)@ == (SetView {
                    workspaces: old(self)@.workspaces.update(old(self).active as int, final(ws)@),
                    ..old(self)@
                }),
                None => old(self).active >= old(self)@.workspaces.len() && final(self)@ == old(
                    self)@,
            },
    {
        let i: usize = self.active;
        if i < self.workspaces.len() {
            Some(&mut self.workspaces[i])
        } else {
            None
        }
    }
}

/// The occupied workspaces of a list.
pub open spec fn occupied(list: Seq<workspace::WorkspaceView>) -> Seq<workspace::WorkspaceView>
    decreases list.len(),
{
    if list.len() == 0 {
        list
    } else {
        let rest = occupied(list.drop_last());
        if list.last().occupied() {
            rest.push(list.last())
        } else {
            rest
        }
    }
}

/// Keeps the occupied workspaces of a list.
pub fn retain_occupied(list: Vec<Workspace>) -> (r: Vec<Workspace>)
    ensures
        workspace::views(r@) == occupied(workspace::views(list@)),
{
    let mut list: Vec<Workspace> = list;
    let ghost all = workspace::views(list@);
    let mut kept: Vec<Workspace> = Vec::new();
    assert(workspace::views(kept@) =~= occupied(all.take(0)));
    let ghost mut done: int = 0;
    while list.len() > 0
        invariant
            0 <= done <= all.len(),
            workspace::views(list@) == all.skip(done),
            workspace::views(kept@) == occupied(all.take(done)),
        decreases list@.len(),
    {
        let ghost before = list@;
        let ws: Workspace = list.remove(0);
        proof {
            assert(workspace::views(before)[0] == ws@);
            assert(all.skip(done).len() == before.len());
            assert(all.skip(done)[0] == all[done]);
            assert(all.skip(done).remove(0) =~= all.skip(done + 1));
            assert(all.take(done + 1).drop_last() =~= all.take(done));
            assert(all.take(done + 1).last() == ws@);
            done = done + 1;
        }
        if ws.has_windows_or_name() {
            kept.push(ws);
        }
    }
    proof {
        assert(workspace::views(list@).len() == 0);
        assert(all.take(done) =~= all);
    }
    kept
}

/// What is left of the workspaces when the superfluous ones go: those that are empty, not
/// shown and not the last. `kept` precede `rest`; `active` counts from the first of `kept`.
pub open spec fn pruned(
    kept: Seq<workspace::WorkspaceView>,
    rest: Seq<workspace::WorkspaceView>,
    active: int,
) -> (Seq<workspace::WorkspaceView>, int)
    decreases rest.len(),
{
    if rest.len() == 0 {
        (kept, active)
    } else if !rest[0].occupied() && kept.len() != active && rest.len() != 1 {
        pruned(
            kept,
            rest.drop_first(),
            if kept.len() < active {
                active - 1
            } else {
                active
            },
        )
    } else {
        pruned(kept.push(rest[0]), rest.drop_first(), active)
    }
}

/// The workspace id after another.
pub open spec fn next_id(id: u32) -> u32 {
    if id == u32::MAX {
        0
    } else {
        (id + 1) as u32
    }
}

impl SetView {
    /// Whether the list needs an empty workspace at its end.
    pub open spec fn needs_placeholder(list: Seq<workspace::WorkspaceView>) -> bool {
        list.len() == 0 || list.last().occupied()
    }

    /// The set without superfluous workspaces and with an empty one at the end, which gets the
    /// id `id` if it is new; and the id for the next new workspace.
    pub open spec fn normalized(self, id: u32) -> (SetView, u32) {
        let (kept, active) = pruned(Seq::empty(), self.workspaces, self.active as int);
        let full = if Self::needs_placeholder(kept) {
            kept.push(
                workspace::WorkspaceView {
                    original_output: Some(self.output.stable_key),
                    ..workspace::WorkspaceView::blank(WorkspaceId(id))
                },
            )
        } else {
            kept
        };
        (
            SetView {
                output: self.output,
                workspaces: full,
                active: if active < full.len() {
                    active as usize
                } else {
                    (full.len() - 1) as usize
                },
            },
            if Self::needs_placeholder(kept) {
                next_id(id)
            } else {
                id
            },
        )
    }
}

pub proof fn pruned_bound(
    kept: Seq<workspace::WorkspaceView>,
    rest: Seq<workspace::WorkspaceView>,
    active: int,
)
    requires
        active >= 0,
    ensures
        0 <= pruned(kept, rest, active).1 <= active,
        pruned(kept, rest, active).0.len() <= kept.len() + rest.len(),
    decreases rest.len(),
{
    if rest.len() > 0 {
        if !rest[0].occupied() && kept.len() != active && rest.len() != 1 {
            pruned_bound(
                kept,
                rest.drop_first(),
                if kept.len() < active {
                    active - 1
                } else {
                    active
                },
            );
        } else {
            pruned_bound(kept.push(rest[0]), rest.drop_first(), active);
        }
    }
}

impl OutputWorkspaceSet {
    /// Drops superfluous workspaces and sees to the empty one at the end. Returns the id for
    /// the next new workspace.
    pub fn normalize(&mut self, id: u32) -> (r: u32)
        ensures
            (final(self)@, r) == old(self)@.normalized(id),
    {
        let ghost all = workspace::views(self.workspaces@);
        let mut active: usize = self.active;
        let mut index: usize = 0;
        let ghost mut kept = Seq::<workspace::WorkspaceView>::empty();
        let ghost mut rest = all;
        let ghost goal = pruned(kept, rest, active as int);
        while index < self.workspaces.len()
            invariant
                index == kept.len(),
                workspace::views(self.workspaces@) == kept + rest,
                self.output@ == old(self).output@,
                pruned(kept, rest, active as int) == goal,
            decreases rest.len(),
        {
            let last: bool = index + 1 == self.workspaces.len();
            proof {
                assert(workspace::views(self.workspaces@)[index as int] == rest[0]);
                assert((kept + rest).len() == self.workspaces@.len());
                assert(last == (rest.len() == 1));
            }
            if !self.workspaces[index].has_windows_or_name() && index != active && !last {
                self.workspaces.remove(index);
                if index < active {
                    active = active - 1;
                }
                proof {
                    assert((kept + rest).remove(index as int) =~= kept + rest.drop_first());
                    rest = rest.drop_first();
                }
            } else {
                index = index + 1;
                proof {
                    assert(kept + rest =~= kept.push(rest[0]) + rest.drop_first());
                    kept = kept.push(rest[0]);
                    rest = rest.drop_first();
                }
            }
        }
        proof {
            assert(rest.len() == 0);
            assert(kept + rest =~= kept);
            assert(goal == (kept, active as int));
        }
        let needs: bool = if self.workspaces.len() == 0 {
            true
        } else {
            let tail: usize = self.workspaces.len() - 1;
            assert(workspace::views(self.workspaces@)[tail as int] == kept.last());
            self.workspaces[tail].has_windows_or_name()
        };
        let mut next: u32 = id;
        if needs {
            let mut workspace: Workspace = Workspace::new(WorkspaceId(id));
            workspace.original_output = Some(self.output.stable_key.clone());
            next = if id == u32::MAX {
                0
            } else {
                id + 1
            };
            self.workspaces.push(workspace);
        }
        let tail: usize = self.workspaces.len() - 1;
        self.active = if active < tail {
            active
        } else {
            tail
        };
        next
    }
}

} // verus!
