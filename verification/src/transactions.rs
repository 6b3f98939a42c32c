//! The transactions on the desktop.

use crate::desktop;
use crate::desktop::{
    check_geometry, find_id, Desktop, DesktopError, DesktopEvent, WorkspaceTransaction,
};
use crate::geometry::{Direction, Point, Size};
use crate::layout;
use crate::layout::{LayoutError, RadialSolver, WindowTransaction};
use crate::model;
use crate::model::{
    CameraPolicy, FloatingPlacement, FullscreenPlacement, FullscreenRestorePlacement,
    MaximizedPlacement, OutputId, RestorePlacement, WindowId, WindowMode, WorkspaceId,
};
use crate::outputs;
use crate::outputs::{retain_occupied, Output, OutputTransform, OutputWorkspaceSet, Scale120};
use crate::ranking;
use crate::text;
use crate::text::{copy_option, same};
use crate::viewport;
use crate::viewport::{ViewportChange, ViewportPlacement};
use crate::workspace;
use crate::workspace::Workspace;
use vstd::prelude::*;

verus! {

broadcast use workspace::group_views;

impl desktop::DesktopView {
    /// Whether an output with a stable key is connected.
    pub open spec fn has_stable_key(self, key: Seq<char>) -> bool {
        exists|k: u64| #[trigger]
            self.outputs.contains_key(k) && self.outputs[k].output.stable_key == key
    }

    /// The stable key and the logical size of the primary output.
    pub open spec fn primary_viewport(self) -> Option<(Seq<char>, Size)> {
        match self.primary_output {
            Some(primary) => if self.outputs.contains_key(desktop::key(primary)) {
                let output = self.outputs[desktop::key(primary)].output;
                Some((output.stable_key, output.logical_size))
            } else {
                None
            },
            None => None,
        }
    }

    /// The desktop without the workspaces that go to a new output, and those workspaces: all
    /// detached ones where it is the only output, else those of the primary output that belong
    /// to it.
    pub open spec fn yielded(self, key: Seq<char>) -> (Self, Seq<workspace::WorkspaceView>) {
        if self.outputs.dom() == Set::<u64>::empty() {
            (desktop::DesktopView { detached: Seq::empty(), ..self }, self.detached)
        } else {
            let primary = desktop::key(self.primary_output->0);
            let set = self.outputs[primary];
            let (kept, taken, active) = desktop::parted(
                Seq::empty(),
                set.workspaces,
                Seq::empty(),
                set.active as int,
                key,
            );
            (
                desktop::DesktopView {
                    outputs: self.outputs.insert(
                        primary,
                        outputs::SetView { workspaces: kept, active: active as usize, ..set },
                    ),
                    ..self
                },
                taken,
            )
        }
    }

    /// The desktop with an output added, before normalization.
    pub open spec fn with_output(self, output: outputs::OutputView) -> Self {
        let (rest, taken) = self.yielded(output.stable_key);
        let workspaces = desktop::each_changed(
            outputs::occupied(taken),
            viewport::ChangeView::Migrate {
                source: self.primary_viewport(),
                key: output.stable_key,
                size: output.logical_size,
            },
        );
        let active = if self.last_active.contains_key(output.stable_key) {
            match desktop::first_with_id(workspaces, self.last_active[output.stable_key]) {
                Some(i) => i,
                None => 0,
            }
        } else {
            0
        };
        desktop::DesktopView {
            outputs: rest.outputs.insert(
                desktop::key(output.id),
                outputs::SetView { output, workspaces, active: active as usize },
            ),
            last_active: self.last_active.remove(output.stable_key),
            primary_output: match self.primary_output {
                Some(primary) => Some(primary),
                None => Some(output.id),
            },
            ..rest
        }
    }

    /// The desktop after an output has been connected.
    pub open spec fn connected(self, output: outputs::OutputView) -> Result<
        Self,
        desktop::DesktopFault,
    > {
        if self.outputs.contains_key(desktop::key(output.id)) {
            Err(desktop::DesktopFault::UnknownOutput(output.id))
        } else if desktop::geometry_fault(output) is Some {
            Err(desktop::geometry_fault(output)->0)
        } else if self.has_stable_key(output.stable_key) {
            Err(desktop::DesktopFault::DuplicateOutputStableKey(output.stable_key))
        } else {
            self.with_output(output).normalized().committed()
        }
    }

    /// The workspaces that are remembered as shown when an output goes.
    pub open spec fn remembering(self, set: outputs::SetView) -> Map<Seq<char>, WorkspaceId> {
        if set.active < set.workspaces.len() {
            self.last_active.insert(
                set.output.stable_key,
                set.workspaces[set.active as int].id,
            )
        } else {
            self.last_active
        }
    }

    /// The key of the primary output once an output has gone.
    pub open spec fn heir(self, output: OutputId) -> u64 {
        if self.primary_output == Some(output) {
            ranking::ascending(self.outputs.remove(desktop::key(output)).dom())[0]
        } else {
            desktop::key(self.primary_output->0)
        }
    }

    /// The desktop without an output, before normalization: its occupied workspaces go to the
    /// end of the primary output, or are detached where there is none.
    pub open spec fn without_output(self, output: OutputId) -> Self {
        let removed = self.outputs[desktop::key(output)];
        let left = self.outputs.remove(desktop::key(output));
        let homeless = outputs::occupied(removed.workspaces);
        if left.dom() == Set::<u64>::empty() {
            desktop::DesktopView {
                outputs: left,
                detached: self.detached + homeless,
                primary_output: None,
                last_active: self.remembering(removed),
                ..self
            }
        } else {
            let target = left[self.heir(output)];
            let moved = desktop::each_changed(
                homeless,
                viewport::ChangeView::Migrate {
                    source: Some((removed.output.stable_key, removed.output.logical_size)),
                    key: target.output.stable_key,
                    size: target.output.logical_size,
                },
            );
            let at = if target.workspaces.len() > 0 {
                target.workspaces.len() - 1
            } else {
                0
            };
            desktop::DesktopView {
                outputs: left.insert(
                    self.heir(output),
                    outputs::SetView {
                        workspaces: target.workspaces.take(at) + moved + target.workspaces.skip(at),
                        ..target
                    },
                ),
                primary_output: Some(OutputId(self.heir(output) as u32)),
                last_active: self.remembering(removed),
                ..self
            }
        }
    }

    /// The desktop after an output has been disconnected.
    pub open spec fn disconnected(self, output: OutputId) -> Result<Self, desktop::DesktopFault> {
        if !self.outputs.contains_key(desktop::key(output)) {
            Err(desktop::DesktopFault::UnknownOutput(output))
        } else {
            self.without_output(output).normalized().committed()
        }
    }
}

/// Makes a change to the viewport places of every workspace of a list.
fn change_each(list: &mut Vec<Workspace>, change: &ViewportChange)
    ensures
        workspace::views(final(list)@) == desktop::each_changed(
            workspace::views(old(list)@),
            change@,
        ),
{
    let mut i: usize = 0;
    let ghost all = workspace::views(list@);
    let ghost goal = desktop::each_changed(all, change@);
    assert(workspace::views(list@) =~= goal.take(0) + all.skip(0));
    while i < list.len()
        invariant
            i <= list@.len(),
            list@.len() == all.len(),
            goal == desktop::each_changed(all, change@),
            workspace::views(list@) == goal.take(i as int) + all.skip(i as int),
        decreases list@.len() - i,
    {
        proof {
            assert(workspace::views(list@)[i as int] == all[i as int]);
        }
        let ghost before = workspace::views(list@);
        list[i].change_viewports(change);
        proof {
            assert(workspace::views(list@) =~= before.update(i as int, goal[i as int]));
            assert(workspace::views(list@) =~= goal.take(i + 1) + all.skip(i + 1));
        }
        i = i + 1;
    }
    assert(workspace::views(list@) =~= goal);
}

/// Takes the workspaces that belong to the output `key` out of a set, and returns the occupied
/// ones of them.
fn part(set: &mut OutputWorkspaceSet, key: &String) -> (r: Vec<Workspace>)
    ensures
        ({
            let (kept, taken, active) = desktop::parted(
                Seq::empty(),
                old(set)@.workspaces,
                Seq::empty(),
                old(set)@.active as int,
                key@,
            );
            &&& workspace::views(r@) == taken
            &&& final(set)@ == (outputs::SetView {
                workspaces: kept,
                active: active as usize,
                ..old(set)@
            })
        }),
{
    let mut taken: Vec<Workspace> = Vec::new();
    let mut index: usize = 0;
    let ghost mut kept = Seq::<workspace::WorkspaceView>::empty();
    let ghost mut rest = workspace::views(set.workspaces@);
    let ghost goal = desktop::parted(kept, rest, Seq::empty(), set.active as int, key@);
    assert(workspace::views(taken@) =~= Seq::empty());
    assert(kept + rest =~= rest);
    while index < set.workspaces.len()
        invariant
            index == kept.len(),
            workspace::views(set.workspaces@) == kept + rest,
            set.output@ == old(set).output@,
            desktop::parted(kept, rest, workspace::views(taken@), set.active as int, key@) == goal,
        decreases rest.len(),
    {
        proof {
            assert((kept + rest).len() == set.workspaces@.len());
            assert(workspace::views(set.workspaces@)[index as int] == rest[0]);
        }
        let belongs: bool = match &set.workspaces[index].original_output {
            Some(original) => same(original, key),
            None => false,
        };
        if belongs {
            let workspace: Workspace = set.workspaces.remove(index);
            proof {
                assert((kept + rest).remove(index as int) =~= kept + rest.drop_first());
                rest = rest.drop_first();
            }
            if workspace.has_windows_or_name() {
                taken.push(workspace);
            }
            if index <= set.active && set.active > 0 {
                set.active = set.active - 1;
            }
        } else {
            index = index + 1;
            proof {
                assert(kept + rest =~= kept.push(rest[0]) + rest.drop_first());
                kept = kept.push(rest[0]);
                rest = rest.drop_first();
            }
        }
    }
    proof {
        assert((kept + rest).len() == set.workspaces@.len());
        assert(rest.len() == 0);
        assert(kept + rest =~= kept);
    }
    taken
}

impl Desktop {
    fn is_key_connected(&self, key: &String) -> (r: bool)
        ensures
            r == self@.has_stable_key(key@),
    {
        let keys: Vec<u64> = self.outputs.keys();
        let mut n: usize = 0;
        while n < keys.len()
            invariant
                n <= keys@.len(),
                keys@.to_set() == self@.outputs.dom(),
                forall|j: int|
                    0 <= j < n ==> self@.outputs[#[trigger] keys@[j]].output.stable_key != key@,
            decreases keys@.len() - n,
        {
            proof {
                assert(keys@.to_set().contains(keys@[n as int]));
                assert(self@.outputs.contains_key(keys@[n as int]));
            }
            match self.outputs.get(keys[n]) {
                Some(set) => {
                    if same(&set.output.stable_key, key) {
                        return true;
                    }
                },
                None => {},
            }
            n = n + 1;
        }
        proof {
            assert forall|k: u64| #[trigger]
                self@.outputs.contains_key(k) implies self@.outputs[k].output.stable_key
                != key@ by {
                assert(keys@.to_set().contains(k));
                let j = choose|j: int| 0 <= j < keys@.len() && keys@[j] == k;
                assert(self@.outputs[keys@[j]].output.stable_key != key@);
            }
        }
        false
    }

    /// Connects an output. Its workspaces come back to it, and it shows the one that it showed
    /// when it was disconnected.
    pub fn connect_output(&mut self, output: Output) -> (r: Result<DesktopEvent, DesktopError>)
        requires
            old(self)@.anchored(),
        ensures
            match old(self)@.connected(output@) {
                Ok(after) => r is Ok && final(self)@ == after && r->Ok_0@
                    == (desktop::EventView::OutputConnected { output: output.id }),
                Err(fault) => r is Err && r->Err_0@ == fault && final(self)@ == old(self)@,
            },
    {
        let id: OutputId = output.id;
        if self.outputs.contains_key(id.0 as u64) {
            return Err(DesktopError::UnknownOutput(id));
        }
        match check_geometry(&output) {
            Ok(()) => {},
            Err(error) => {
                return Err(error);
            },
        }
        if self.is_key_connected(&output.stable_key) {
            return Err(DesktopError::DuplicateOutputStableKey(output.stable_key.clone()));
        }
        let mut working: Desktop = self.clone();
        let key: String = output.stable_key.clone();
        let size: Size = output.logical_size;
        let mut source: Option<(String, Size)> = None;
        let taken: Vec<Workspace>;
        match self.primary_output {
            Some(primary) => {
                match working.outputs.get_mut(primary.0 as u64) {
                    Some(set) => {
                        source =
                        Some((set.output.stable_key.clone(), set.output.logical_size));
                        taken = part(set, &key);
                    },
                    None => {
                        taken = Vec::new();
                    },
                }
            },
            None => {
                let mut detached: Vec<Workspace> = Vec::new();
                std::mem::swap(&mut detached, &mut working.detached);
                assert(workspace::views(working.detached@) =~= Seq::empty());
                taken = detached;
            },
        }
        proof {
            if self.primary_output is Some {
                assert(self@.outputs.dom().contains(desktop::key(self.primary_output->0)));
            }
        }
        let ghost rest = working@;
        proof {
            assert(self@.yielded(key@) == (rest, workspace::views(taken@)));
        }
        let mut workspaces: Vec<Workspace> = retain_occupied(taken);
        let change = ViewportChange::Migrate { source, key, size };
        change_each(&mut workspaces, &change);
        let active: usize = match working.last_active.remove(&output.stable_key) {
            Some(last) => match find_id(&workspaces, last) {
                Some(i) => i,
                None => 0,
            },
            None => 0,
        };
        working.outputs.insert(id.0 as u64, OutputWorkspaceSet { output, workspaces, active });
        working.primary_output = match working.primary_output {
            Some(primary) => Some(primary),
            None => Some(id),
        };
        proof {
            assert(working@ == old(self)@.with_output(output@));
        }
        working.normalize_all();
        match working.validate() {
            Ok(()) => {},
            Err(error) => {
                return Err(error);
            },
        }
        *self = working;
        Ok(DesktopEvent::OutputConnected { output: id })
    }

    /// Disconnects an output. Its occupied workspaces go to the primary output, or are kept
    /// detached where it was the last.
    pub fn disconnect_output(&mut self, output: OutputId) -> (r: Result<DesktopEvent, DesktopError>)
        requires
            old(self)@.anchored(),
        ensures
            match old(self)@.disconnected(output) {
                Ok(after) => r is Ok && final(self)@ == after && r->Ok_0@
                    == (desktop::EventView::OutputDisconnected { output }),
                Err(fault) => r is Err && r->Err_0@ == fault && final(self)@ == old(self)@,
            },
    {
        let mut working: Desktop = self.clone();
        let removed: OutputWorkspaceSet = match working.outputs.remove(output.0 as u64) {
            Some(removed) => removed,
            None => {
                return Err(DesktopError::UnknownOutput(output));
            },
        };
        match removed.active_workspace() {
            Some(active) => {
                working.last_active.insert(&removed.output.stable_key, active.id);
            },
            None => {},
        }
        let ghost set = removed@;
        let OutputWorkspaceSet { output: gone, workspaces, active: _ } = removed;
        let mut homeless: Vec<Workspace> = retain_occupied(workspaces);
        if working.outputs.is_empty() {
            working.detached.append(&mut homeless);
            working.primary_output = None;
        } else {
            let heir: u64 = match working.primary_output {
                Some(primary) => if primary == output {
                    let keys: Vec<u64> = working.outputs.keys();
                    proof {
                        if keys@.len() == 0 {
                            assert(working@.outputs.dom() =~= Set::<u64>::empty());
                        }
                    }
                    keys[0]
                } else {
                    primary.0 as u64
                },
                None => {
                    assert(old(self)@.outputs.dom().contains(desktop::key(output)));
                    0
                },
            };
            proof {
                assert(heir == old(self)@.heir(output));
                if old(self)@.primary_output == Some(output) {
                    let keys = ranking::ascending(working@.outputs.dom());
                    working.outputs_are_finite();
                    ranking::ranking_ranks(working@.outputs.dom(), |id: u64| 0);
                    if keys.len() == 0 {
                        assert(working@.outputs.dom() =~= Set::<u64>::empty());
                    }
                    assert(keys.to_set().contains(keys[0]));
                }
                assert(working@.outputs.contains_key(heir));
            }
            working.primary_output = Some(OutputId(heir as u32));
            match working.outputs.get_mut(heir) {
                Some(target) => {
                    let change = ViewportChange::Migrate {
                        source: Some((gone.stable_key.clone(), gone.logical_size)),
                        key: target.output.stable_key.clone(),
                        size: target.output.logical_size,
                    };
                    change_each(&mut homeless, &change);
                    let at: usize = if target.workspaces.len() > 0 {
                        target.workspaces.len() - 1
                    } else {
                        0
                    };
                    let ghost whole = target.workspaces@;
                    let mut tail: Vec<Workspace> = target.workspaces.split_off(at);
                    proof {
                        assert(workspace::views(target.workspaces@) =~= workspace::views(
                            whole,
                        ).take(at as int));
                        assert(workspace::views(tail@) =~= workspace::views(whole).skip(
                            at as int,
                        ));
                    }
                    target.workspaces.append(&mut homeless);
                    target.workspaces.append(&mut tail);
                },
                None => {},
            }
        }
        proof {
            assert(working@ == old(self)@.without_output(output));
        }
        working.normalize_all();
        match working.validate() {
            Ok(()) => {},
            Err(error) => {
                return Err(error);
            },
        }
        *self = working;
        Ok(DesktopEvent::OutputDisconnected { output })
    }
}

/// The smaller of two numbers.
pub open spec fn smaller(a: int, b: int) -> int {
    if a < b {
        a
    } else {
        b
    }
}

/// The number before `n`, and zero for zero.
pub open spec fn before(n: int) -> int {
    if n > 0 {
        n - 1
    } else {
        0
    }
}

/// Which workspace is shown once that at `index` has left `count` others.
pub open spec fn active_after_removal(active: int, index: int, count: int) -> int {
    if index < active {
        active - 1
    } else if index == active {
        smaller(before(index), before(count))
    } else {
        active
    }
}

/// The number after `n`, as long as it can be counted.
pub open spec fn after(n: usize) -> usize {
    if n == usize::MAX {
        n
    } else {
        (n + 1) as usize
    }
}

impl desktop::DesktopView {
    /// The desktop after an output has changed to one of its workspaces.
    pub open spec fn refocused(self, output: OutputId, workspace: WorkspaceId) -> Result<
        Self,
        desktop::DesktopFault,
    > {
        match self.place(workspace) {
            Some((Some(k), i)) => if k == desktop::key(output) {
                Ok(self.showing((Some(k), i)))
            } else {
                Err(desktop::DesktopFault::UnknownWorkspace(workspace))
            },
            _ => Err(desktop::DesktopFault::UnknownWorkspace(workspace)),
        }
    }

    /// The desktop without the workspace at a place.
    pub open spec fn without_at(self, place: (Option<u64>, int)) -> Self {
        match place.0 {
            Some(k) => {
                let set = self.outputs[k];
                let left = set.workspaces.remove(place.1);
                desktop::DesktopView {
                    outputs: self.outputs.insert(
                        k,
                        outputs::SetView {
                            workspaces: left,
                            active: active_after_removal(
                                set.active as int,
                                place.1,
                                left.len() as int,
                            ) as usize,
                            ..set
                        },
                    ),
                    ..self
                }
            },
            None => desktop::DesktopView { detached: self.detached.remove(place.1), ..self },
        }
    }

    /// The desktop with a workspace added to an output: at an index, or behind the one that is
    /// shown, in front of the last in any case.
    pub open spec fn with_inserted(
        self,
        ws: workspace::WorkspaceView,
        target: u64,
        target_index: Option<usize>,
        activate: bool,
    ) -> Self {
        let set = self.outputs[target];
        let wanted = match target_index {
            Some(index) => index as int,
            None => after(set.active) as int,
        };
        let index = smaller(wanted, before(set.workspaces.len() as int));
        desktop::DesktopView {
            outputs: self.outputs.insert(
                target,
                outputs::SetView {
                    workspaces: set.workspaces.insert(index, ws),
                    active: if activate {
                        index as usize
                    } else if index <= set.active {
                        after(set.active)
                    } else {
                        set.active
                    },
                    ..set
                },
            ),
            ..self
        }
    }

    /// The desktop after a workspace has moved to an output.
    pub open spec fn relocated(
        self,
        workspace: WorkspaceId,
        target_output: OutputId,
        target_index: Option<usize>,
        activate: bool,
    ) -> Result<Self, desktop::DesktopFault> {
        let target = desktop::key(target_output);
        if !self.outputs.contains_key(target) {
            Err(desktop::DesktopFault::UnknownOutput(target_output))
        } else {
            match self.place(workspace) {
                None => Err(desktop::DesktopFault::UnknownWorkspace(workspace)),
                Some(place) => {
                    let output = self.outputs[target].output;
                    let ws = workspace::WorkspaceView {
                        original_output: Some(output.stable_key),
                        ..self.at(place).changed(
                            viewport::ChangeView::Migrate {
                                source: self.viewport_at(place),
                                key: output.stable_key,
                                size: output.logical_size,
                            },
                        )
                    };
                    Ok(self.without_at(place).with_inserted(ws, target, target_index, activate))
                },
            }
        }
    }

    /// Whether another workspace has a name.
    pub open spec fn name_is_taken(self, name: Seq<char>, workspace: WorkspaceId) -> bool {
        exists|i: int|
            0 <= i < self.all().len() && (#[trigger] self.all()[i]).id != workspace
                && self.all()[i].name == Some(name)
    }

    /// The desktop after a workspace has got another name, or none.
    pub open spec fn renamed(self, workspace: WorkspaceId, name: Option<Seq<char>>) -> Result<
        Self,
        desktop::DesktopFault,
    > {
        if name is Some && self.name_is_taken(name->0, workspace) {
            Err(desktop::DesktopFault::DuplicateWorkspaceName(name->0))
        } else {
            match self.place(workspace) {
                None => Err(desktop::DesktopFault::UnknownWorkspace(workspace)),
                Some(place) => Ok(
                    self.with_at(
                        place,
                        workspace::WorkspaceView { name, ..self.at(place) },
                    ),
                ),
            }
        }
    }

    /// A viewport place as it is on the output at `to` when it comes from `from`.
    pub open spec fn carried(
        self,
        place: viewport::ViewportView,
        from: (Option<u64>, int),
        to: (Option<u64>, int),
    ) -> viewport::ViewportView {
        match self.viewport_at(to) {
            Some((key, size)) => place.migrated(self.viewport_at(from), key, size),
            None => place,
        }
    }

    pub open spec fn carried_restore(
        self,
        restore: model::RestoreView,
        from: (Option<u64>, int),
        to: (Option<u64>, int),
    ) -> model::RestoreView {
        match restore {
            model::RestoreView::Tiled { .. } => restore,
            model::RestoreView::Floating { viewport } => model::RestoreView::Floating {
                viewport: self.carried(viewport, from, to),
            },
        }
    }

    pub open spec fn carried_fullscreen(
        self,
        restore: model::FullscreenRestoreView,
        from: (Option<u64>, int),
        to: (Option<u64>, int),
    ) -> model::FullscreenRestoreView {
        match restore {
            model::FullscreenRestoreView::Tiled { .. } => restore,
            model::FullscreenRestoreView::Floating { viewport } =>
                model::FullscreenRestoreView::Floating {
                viewport: self.carried(viewport, from, to),
            },
            model::FullscreenRestoreView::Maximized { restore } =>
                model::FullscreenRestoreView::Maximized {
                restore: self.carried_restore(restore, from, to),
            },
        }
    }

    /// The source and the target workspace after a window has gone from one to the other.
    pub open spec fn handed_over(
        self,
        window: WindowId,
        from: (Option<u64>, int),
        to: (Option<u64>, int),
        hint: Direction,
        answers: Seq<Option<Point>>,
    ) -> Result<(workspace::WorkspaceView, workspace::WorkspaceView), desktop::DesktopFault> {
        let source = self.at(from);
        let target = self.at(to);
        match source.mode_of(window) {
            None => Err(desktop::DesktopFault::UnknownWindow(window)),
            Some(WindowMode::Tiled) => match self.solver.applied(
                source,
                WindowTransaction::Remove { id: window },
                answers,
            ) {
                Err(fault) => Err(desktop::DesktopFault::Layout(fault)),
                Ok((left, _)) => match self.solver.applied(
                    target,
                    WindowTransaction::InsertTiled {
                        id: window,
                        size: source.tiled[window.0].geometry.size,
                        anchor: target.focus_point(),
                        seed_direction: target.layout_direction_hint,
                        hint,
                    },
                    answers,
                ) {
                    Err(fault) => Err(desktop::DesktopFault::Layout(fault)),
                    Ok((joined, _)) => Ok((left, joined)),
                },
            },
            Some(WindowMode::Floating) => Ok(
                (
                    source.lifted(window).unfocused(window),
                    target.with_floating(
                        window,
                        self.carried(source.floating[window.0].viewport, from, to),
                    ).focused(window),
                ),
            ),
            Some(WindowMode::Maximized) => match target.maximized {
                Some(other) => Err(
                    desktop::DesktopFault::Layout(
                        layout::LayoutFault::MaximizedOccupied(other.window),
                    ),
                ),
                None => Ok(
                    (
                        source.lifted(window).unfocused(window),
                        (workspace::WorkspaceView {
                            maximized: Some(
                                model::MaximizedView {
                                    window,
                                    restore: self.carried_restore(
                                        source.maximized->0.restore,
                                        from,
                                        to,
                                    ),
                                },
                            ),
                            ..target
                        }).focused(window),
                    ),
                ),
            },
            Some(WindowMode::Fullscreen) => match target.fullscreen {
                Some(other) => Err(
                    desktop::DesktopFault::Layout(
                        layout::LayoutFault::FullscreenOccupied(other.window),
                    ),
                ),
                None => Ok(
                    (
                        source.lifted(window).unfocused(window),
                        (workspace::WorkspaceView {
                            fullscreen: Some(
                                model::FullscreenView {
                                    window,
                                    restore: self.carried_fullscreen(
                                        source.fullscreen->0.restore,
                                        from,
                                        to,
                                    ),
                                },
                            ),
                            ..target
                        }).focused(window),
                    ),
                ),
            },
        }
    }

    /// The desktop after a window has been sent to a workspace.
    pub open spec fn sent(
        self,
        window: WindowId,
        target: WorkspaceId,
        activate: bool,
        hint: Direction,
        answers: Seq<Option<Point>>,
    ) -> Result<Self, desktop::DesktopFault> {
        match self.owner(window) {
            Err(fault) => Err(fault),
            Ok(source) => match self.place(target) {
                None => Err(desktop::DesktopFault::UnknownWorkspace(target)),
                Some(to) => if source == target {
                    Ok(
                        if activate {
                            self.showing(to)
                        } else {
                            self
                        },
                    )
                } else {
                    match self.place(source) {
                        None => Err(desktop::DesktopFault::UnknownWorkspace(source)),
                        Some(from) => match self.handed_over(window, from, to, hint, answers) {
                            Err(fault) => Err(fault),
                            Ok((left, joined)) => {
                                let after = self.with_at(from, left).with_at(to, joined).adopted(
                                    to,
                                );
                                Ok(
                                    if activate {
                                        after.showing(to)
                                    } else {
                                        after
                                    },
                                )
                            },
                        },
                    }
                },
            },
        }
    }

    /// The desktop after a transaction, before normalization, and what has happened.
    pub open spec fn transacted(
        self,
        transaction: desktop::TransactionView,
        answers: Seq<Option<Point>>,
    ) -> Result<(Self, desktop::EventView), desktop::DesktopFault> {
        match transaction {
            desktop::TransactionView::Focus { output, workspace } => match self.refocused(
                output,
                workspace,
            ) {
                Err(fault) => Err(fault),
                Ok(after) => Ok(
                    (after, desktop::EventView::WorkspaceFocused { workspace, output }),
                ),
            },
            desktop::TransactionView::Move { workspace, target_output, target_index, activate } =>
                match self.relocated(workspace, target_output, target_index, activate) {
                Err(fault) => Err(fault),
                Ok(after) => Ok(
                    (
                        after,
                        desktop::EventView::WorkspaceMoved {
                            workspace,
                            source: match self.place(workspace) {
                                Some((Some(k), _)) => Some(OutputId(k as u32)),
                                _ => None,
                            },
                            target: target_output,
                        },
                    ),
                ),
            },
            desktop::TransactionView::SetName { workspace, name } => match self.renamed(
                workspace,
                name,
            ) {
                Err(fault) => Err(fault),
                Ok(after) => Ok((after, desktop::EventView::WorkspaceNamed { workspace, name })),
            },
            desktop::TransactionView::SendWindow { window, target, activate, hint } => match self.sent(
                window,
                target,
                activate,
                hint,
                answers,
            ) {
                Err(fault) => Err(fault),
                Ok(after) => Ok(
                    (
                        after,
                        desktop::EventView::WindowSent {
                            window,
                            source: self.owner(window)->Ok_0,
                            target,
                        },
                    ),
                ),
            },
        }
    }

    /// The desktop after a transaction, and what has happened.
    pub open spec fn applied(
        self,
        transaction: desktop::TransactionView,
        answers: Seq<Option<Point>>,
    ) -> Result<(Self, desktop::EventView), desktop::DesktopFault> {
        match self.transacted(transaction, answers) {
            Err(fault) => Err(fault),
            Ok((after, event)) => match after.normalized().committed() {
                Err(fault) => Err(fault),
                Ok(done) => Ok((done, event)),
            },
        }
    }
}

impl workspace::WorkspaceView {
    /// Where a window that is added finds its place: at the focused window if that is tiled,
    /// else at the origin.
    pub open spec fn focus_point(self) -> Point {
        if self.focused_window is Some && self.tiled.contains_key((self.focused_window->0).0) {
            self.tiled[(self.focused_window->0).0].geometry.middle()
        } else {
            Point { x: 0, y: 0 }
        }
    }
}

/// Where a window that is added to a workspace finds its place.
pub fn focus_point(ws: &Workspace) -> (r: Point)
    ensures
        r == ws@.focus_point(),
{
    match ws.focused_window {
        Some(focused) => match ws.tiled.get(focused.0) {
            Some(window) => window.geometry.center(),
            None => Point::origin(),
        },
        None => Point::origin(),
    }
}

/// The key and the size of the output at a place, if it has any.
pub(crate) fn viewport_of(this: &Desktop, place: (Option<u64>, usize)) -> (r: Option<(String, Size)>)
    requires
        place.0 matches Some(k) ==> this@.outputs.contains_key(k),
    ensures
        viewport::source_of(r) == this@.viewport_at((place.0, place.1 as int)),
{
    match place.0 {
        Some(k) => match this.outputs.get(k) {
            Some(set) => Some((set.output.stable_key.clone(), set.output.logical_size)),
            None => None,
        },
        None => None,
    }
}

/// Takes a viewport place to another output, if there is one.
fn carry(
    place: &mut ViewportPlacement,
    source: &Option<(String, Size)>,
    target: &Option<(String, Size)>,
)
    ensures
        final(place)@ == (match viewport::source_of(*target) {
            Some((key, size)) => old(place)@.migrated(viewport::source_of(*source), key, size),
            None => old(place)@,
        }),
{
    match target {
        Some((key, size)) => place.migrate(source, key, *size),
        None => {},
    }
}

impl Desktop {
    /// Shows the workspace at a place, if it is on an output.
    fn show(&mut self, place: (Option<u64>, usize))
        requires
            place.0 matches Some(k) ==> old(self)@.outputs.contains_key(k),
        ensures
            final(self)@ == old(self)@.showing((place.0, place.1 as int)),
    {
        match place.0 {
            Some(k) => match self.outputs.get_mut(k) {
                Some(set) => {
                    set.active = place.1;
                },
                None => {},
            },
            None => {},
        }
    }

    /// Says of the workspace at a place, if it is on an output and has no name, that it belongs
    /// to that output.
    fn adopt(&mut self, place: (Option<u64>, usize))
        requires
            match place.0 {
                Some(k) => old(self)@.outputs.contains_key(k) && place.1 < old(
                    self)@.outputs[k].workspaces.len(),
                None => place.1 < old(self)@.detached.len(),
            },
        ensures
            final(self)@ == old(self)@.adopted((place.0, place.1 as int)),
    {
        match viewport_of(self, place) {
            Some((key, _)) => {
                let ws: &mut Workspace = self.get_at_mut(place);
                if ws.name.is_none() {
                    ws.original_output = Some(key);
                } else {
                    assert(old(self)@.with_at(
                        (place.0, place.1 as int),
                        old(self)@.at((place.0, place.1 as int)),
                    ) =~= old(self)@) by {
                        unchanged_at(old(self)@, (place.0, place.1 as int));
                    }
                }
            },
            None => {},
        }
    }

    fn focus_workspace(&mut self, output: OutputId, workspace: WorkspaceId) -> (r: Result<
        (),
        DesktopError,
    >)
        ensures
            match old(self)@.refocused(output, workspace) {
                Ok(after) => r is Ok && final(self)@ == after,
                Err(fault) => r is Err && r->Err_0@ == fault,
            },
    {
        match self.find_place(workspace) {
            Some((Some(k), i)) => if k == output.0 as u64 {
                self.show((Some(k), i));
                Ok(())
            } else {
                Err(DesktopError::UnknownWorkspace(workspace))
            },
            _ => Err(DesktopError::UnknownWorkspace(workspace)),
        }
    }

    /// Takes the workspace at a place out of the desktop.
    fn take_at(&mut self, place: (Option<u64>, usize)) -> (r: Option<Workspace>)
        requires
            match place.0 {
                Some(k) => old(self)@.outputs.contains_key(k) && place.1 < old(
                    self)@.outputs[k].workspaces.len(),
                None => place.1 < old(self)@.detached.len(),
            },
        ensures
            r is Some,
            (r->0)@ == old(self)@.at((place.0, place.1 as int)),
            final(self)@ == old(self)@.without_at((place.0, place.1 as int)),
    {
        let index: usize = place.1;
        match place.0 {
            Some(k) => match self.outputs.get_mut(k) {
                Some(set) => {
                    let ws: Workspace = set.workspaces.remove(index);
                    if index < set.active {
                        set.active = set.active - 1;
                    } else if index == set.active {
                        let low: usize = if index > 0 {
                            index - 1
                        } else {
                            0
                        };
                        let high: usize = if set.workspaces.len() > 0 {
                            set.workspaces.len() - 1
                        } else {
                            0
                        };
                        set.active = if low < high {
                            low
                        } else {
                            high
                        };
                    }
                    Some(ws)
                },
                None => None,
            },
            None => Some(self.detached.remove(index)),
        }
    }

    fn move_workspace(
        &mut self,
        workspace: WorkspaceId,
        target_output: OutputId,
        target_index: Option<usize>,
        activate: bool,
    ) -> (r: Result<Option<OutputId>, DesktopError>)
        ensures
            match old(self)@.relocated(workspace, target_output, target_index, activate) {
                Ok(after) => r is Ok && final(self)@ == after && r->Ok_0 == (match old(
                    self)@.place(workspace) {
                    Some((Some(k), _)) => Some(OutputId(k as u32)),
                    _ => None,
                }),
                Err(fault) => r is Err && r->Err_0@ == fault,
            },
    {
        let target: u64 = target_output.0 as u64;
        let (key, size): (String, Size) = match self.outputs.get(target) {
            Some(set) => (set.output.stable_key.clone(), set.output.logical_size),
            None => {
                return Err(DesktopError::UnknownOutput(target_output));
            },
        };
        let place: (Option<u64>, usize) = match self.find_place(workspace) {
            Some(place) => place,
            None => {
                return Err(DesktopError::UnknownWorkspace(workspace));
            },
        };
        let source: Option<(String, Size)> = viewport_of(self, place);
        let mut ws: Workspace = match self.take_at(place) {
            Some(ws) => ws,
            None => {
                return Err(DesktopError::UnknownWorkspace(workspace));
            },
        };
        let original: String = key.clone();
        ws.change_viewports(&ViewportChange::Migrate { source, key, size });
        ws.original_output = Some(original);
        match self.outputs.get_mut(target) {
            Some(set) => {
                let limit: usize = if set.workspaces.len() > 0 {
                    set.workspaces.len() - 1
                } else {
                    0
                };
                let next: usize = if set.active == usize::MAX {
                    set.active
                } else {
                    set.active + 1
                };
                let wanted: usize = match target_index {
                    Some(index) => index,
                    None => next,
                };
                let index: usize = if wanted < limit {
                    wanted
                } else {
                    limit
                };
                set.workspaces.insert(index, ws);
                if activate {
                    set.active = index;
                } else if index <= set.active {
                    set.active = next;
                }
            },
            None => {},
        }
        Ok(
            match place.0 {
                Some(k) => Some(OutputId(k as u32)),
                None => None,
            },
        )
    }

    fn is_name_taken(&self, name: &String, workspace: WorkspaceId) -> (r: bool)
        ensures
            r == self@.name_is_taken(name@, workspace),
    {
        let all: Vec<&Workspace> = self.workspaces();
        let mut i: usize = 0;
        while i < all.len()
            invariant
                i <= all@.len(),
                desktop::borrowed_views(all@) == self@.all(),
                forall|j: int|
                    0 <= j < i ==> (#[trigger] self@.all()[j]).id == workspace
                        || self@.all()[j].name != Some(name@),
            decreases all@.len() - i,
        {
            proof {
                assert(desktop::borrowed_views(all@)[i as int] == all@[i as int]@);
            }
            let matches: bool = match &all[i].name {
                Some(candidate) => same(candidate, name),
                None => false,
            };
            if all[i].id != workspace && matches {
                assert(self@.all()[i as int].id != workspace);
                return true;
            }
            i = i + 1;
        }
        false
    }

    fn name_workspace(&mut self, workspace: WorkspaceId, name: &Option<String>) -> (r: Result<
        (),
        DesktopError,
    >)
        ensures
            match old(self)@.renamed(workspace, text::characters(*name)) {
                Ok(after) => r is Ok && final(self)@ == after,
                Err(fault) => r is Err && r->Err_0@ == fault,
            },
    {
        match name {
            Some(name) => {
                if self.is_name_taken(name, workspace) {
                    return Err(DesktopError::DuplicateWorkspaceName(name.clone()));
                }
            },
            None => {},
        }
        match self.workspace_mut(workspace) {
            Ok(ws) => {
                ws.name = copy_option(name);
                Ok(())
            },
            Err(error) => Err(error),
        }
    }
}

proof fn unchanged_at(this: desktop::DesktopView, place: (Option<u64>, int))
    requires
        match place.0 {
            Some(k) => this.outputs.contains_key(k) && 0 <= place.1
                < this.outputs[k].workspaces.len(),
            None => 0 <= place.1 < this.detached.len(),
        },
    ensures
        this.with_at(place, this.at(place)) == this,
{
    match place.0 {
        Some(k) => {
            let set = this.outputs[k];
            assert(set.workspaces.update(place.1, set.workspaces[place.1]) =~= set.workspaces);
            assert(this.outputs.insert(k, set) =~= this.outputs);
        },
        None => {
            assert(this.detached.update(place.1, this.detached[place.1]) =~= this.detached);
        },
    }
}

impl Desktop {
    /// Takes a window from the workspace at one place to that at another.
    fn hand_over(
        &mut self,
        window: WindowId,
        from: (Option<u64>, usize),
        to: (Option<u64>, usize),
        hint: Direction,
        answers: &[Option<Point>],
    ) -> (r: Result<(), DesktopError>)
        requires
            match from.0 {
                Some(k) => old(self)@.outputs.contains_key(k) && from.1 < old(
                    self)@.outputs[k].workspaces.len(),
                None => from.1 < old(self)@.detached.len(),
            },
            match to.0 {
                Some(k) => old(self)@.outputs.contains_key(k) && to.1 < old(
                    self)@.outputs[k].workspaces.len(),
                None => to.1 < old(self)@.detached.len(),
            },
        ensures
            match old(self)@.handed_over(
                window,
                (from.0, from.1 as int),
                (to.0, to.1 as int),
                hint,
                answers@,
            ) {
                Ok((left, joined)) => r is Ok && final(self)@ == old(self)@.with_at(
                    (from.0, from.1 as int),
                    left,
                ).with_at((to.0, to.1 as int), joined),
                Err(fault) => r is Err && r->Err_0@ == fault,
            },
    {
        let source_viewport: Option<(String, Size)> = viewport_of(self, from);
        let target_viewport: Option<(String, Size)> = viewport_of(self, to);
        let mut source: Workspace = self.get_at(from).clone();
        let mut target: Workspace = self.get_at(to).clone();
        let mode: WindowMode = match source.window_mode(window) {
            Some(mode) => mode,
            None => {
                return Err(DesktopError::UnknownWindow(window));
            },
        };
        match mode {
            WindowMode::Tiled => {
                let size: Size = match source.tiled.get(window.0) {
                    Some(tiled) => tiled.geometry.size,
                    None => {
                        return Err(DesktopError::UnknownWindow(window));
                    },
                };
                match self.solver.apply(
                    &mut source,
                    WindowTransaction::Remove { id: window },
                    answers,
                ) {
                    Ok(_) => {},
                    Err(error) => {
                        return Err(DesktopError::Layout(error));
                    },
                }
                let anchor: Point = focus_point(&target);
                let seed_direction: Direction = target.layout_direction_hint;
                match self.solver.apply(
                    &mut target,
                    WindowTransaction::InsertTiled { id: window, size, anchor, seed_direction, hint },
                    answers,
                ) {
                    Ok(_) => {},
                    Err(error) => {
                        return Err(DesktopError::Layout(error));
                    },
                }
            },
            WindowMode::Floating => {
                match source.floating.remove(window.0) {
                    Some(placement) => {
                        let mut viewport: ViewportPlacement = placement.viewport;
                        carry(&mut viewport, &source_viewport, &target_viewport);
                        target.floating.insert(window.0, FloatingPlacement { window, viewport });
                    },
                    None => {
                        return Err(DesktopError::UnknownWindow(window));
                    },
                }
                source.remove_focus(window);
                target.focus(window);
            },
            WindowMode::Maximized => {
                match &target.maximized {
                    Some(other) => {
                        return Err(
                            DesktopError::Layout(LayoutError::MaximizedOccupied(other.window)),
                        );
                    },
                    None => {},
                }
                match source.maximized.take() {
                    Some(maximized) => {
                        let mut restore: RestorePlacement = maximized.restore;
                        match &mut restore {
                            RestorePlacement::Floating { viewport } => carry(
                                viewport,
                                &source_viewport,
                                &target_viewport,
                            ),
                            RestorePlacement::Tiled { .. } => {},
                        }
                        target.maximized = Some(MaximizedPlacement { window, restore });
                    },
                    None => {
                        return Err(DesktopError::UnknownWindow(window));
                    },
                }
                source.remove_focus(window);
                target.focus(window);
            },
            WindowMode::Fullscreen => {
                match &target.fullscreen {
                    Some(other) => {
                        return Err(
                            DesktopError::Layout(LayoutError::FullscreenOccupied(other.window)),
                        );
                    },
                    None => {},
                }
                match source.fullscreen.take() {
                    Some(fullscreen) => {
                        let mut restore: FullscreenRestorePlacement = fullscreen.restore;
                        match &mut restore {
                            FullscreenRestorePlacement::Floating { viewport } => carry(
                                viewport,
                                &source_viewport,
                                &target_viewport,
                            ),
                            FullscreenRestorePlacement::Maximized { restore } => match restore {
                                RestorePlacement::Floating { viewport } => carry(
                                    viewport,
                                    &source_viewport,
                                    &target_viewport,
                                ),
                                RestorePlacement::Tiled { .. } => {},
                            },
                            FullscreenRestorePlacement::Tiled { .. } => {},
                        }
                        target.fullscreen = Some(FullscreenPlacement { window, restore });
                    },
                    None => {
                        return Err(DesktopError::UnknownWindow(window));
                    },
                }
                source.remove_focus(window);
                target.focus(window);
            },
        }
        *self.get_at_mut(from) = source;
        *self.get_at_mut(to) = target;
        Ok(())
    }

    fn send_window(
        &mut self,
        window: WindowId,
        target: WorkspaceId,
        activate: bool,
        hint: Direction,
        answers: &[Option<Point>],
    ) -> (r: Result<WorkspaceId, DesktopError>)
        ensures
            match old(self)@.sent(window, target, activate, hint, answers@) {
                Ok(after) => r is Ok && final(self)@ == after && Ok::<
                    WorkspaceId,
                    desktop::DesktopFault,
                >(r->Ok_0) == old(self)@.owner(window),
                Err(fault) => r is Err && r->Err_0@ == fault,
            },
    {
        let source: WorkspaceId = match self.find_window(window) {
            Ok(source) => source,
            Err(error) => {
                return Err(error);
            },
        };
        let to: (Option<u64>, usize) = match self.find_place(target) {
            Some(to) => to,
            None => {
                return Err(DesktopError::UnknownWorkspace(target));
            },
        };
        if source == target {
            if activate {
                self.show(to);
            }
            return Ok(source);
        }
        let from: (Option<u64>, usize) = match self.find_place(source) {
            Some(from) => from,
            None => {
                return Err(DesktopError::UnknownWorkspace(source));
            },
        };
        match self.hand_over(window, from, to, hint, answers) {
            Ok(()) => {},
            Err(error) => {
                return Err(error);
            },
        }
        self.adopt(to);
        if activate {
            self.show(to);
        }
        Ok(source)
    }

    fn apply_working(&mut self, transaction: WorkspaceTransaction, answers: &[Option<Point>]) -> (r:
        Result<DesktopEvent, DesktopError>)
        ensures
            match old(self)@.transacted(transaction@, answers@) {
                Ok((after, event)) => r is Ok && final(self)@ == after && r->Ok_0@ == event,
                Err(fault) => r is Err && r->Err_0@ == fault,
            },
    {
        match transaction {
            WorkspaceTransaction::Focus { output, workspace } => match self.focus_workspace(
                output,
                workspace,
            ) {
                Ok(()) => Ok(DesktopEvent::WorkspaceFocused { workspace, output }),
                Err(error) => Err(error),
            },
            WorkspaceTransaction::Move { workspace, target_output, target_index, activate } =>
                match self.move_workspace(workspace, target_output, target_index, activate) {
                Ok(source) => Ok(
                    DesktopEvent::WorkspaceMoved { workspace, source, target: target_output },
                ),
                Err(error) => Err(error),
            },
            WorkspaceTransaction::SetName { workspace, name } => match self.name_workspace(
                workspace,
                &name,
            ) {
                Ok(()) => Ok(DesktopEvent::WorkspaceNamed { workspace, name }),
                Err(error) => Err(error),
            },
            WorkspaceTransaction::SendWindow { window, target, activate, hint } =>
                match self.send_window(window, target, activate, hint, answers) {
                Ok(source) => Ok(DesktopEvent::WindowSent { window, source, target }),
                Err(error) => Err(error),
            },
        }
    }

    /// Carries out a transaction on workspaces.
    pub fn apply(&mut self, transaction: WorkspaceTransaction, answers: &[Option<Point>]) -> (r:
        Result<DesktopEvent, DesktopError>)
        ensures
            match old(self)@.applied(transaction@, answers@) {
                Ok((after, event)) => r is Ok && final(self)@ == after && r->Ok_0@ == event,
                Err(fault) => r is Err && r->Err_0@ == fault && final(self)@ == old(self)@,
            },
    {
        let mut working: Desktop = self.clone();
        let event: DesktopEvent = match working.apply_working(transaction, answers) {
            Ok(event) => event,
            Err(error) => {
                return Err(error);
            },
        };
        working.normalize_all();
        match working.validate() {
            Ok(()) => {},
            Err(error) => {
                return Err(error);
            },
        }
        *self = working;
        Ok(event)
    }
}

impl desktop::DesktopView {
    /// The desktop after a window transaction on the workspace at a place, before normalization:
    /// the output remembers the viewport places, the camera follows the focus, and a workspace
    /// without a name that gets a window belongs to the output.
    pub open spec fn laid_out(
        self,
        place: (Option<u64>, int),
        transaction: WindowTransaction,
        ws: workspace::WorkspaceView,
    ) -> Self {
        let stored = match self.viewport_at(place) {
            Some((key, size)) => ws.changed(viewport::ChangeView::Store { key, size }).followed(
                size,
            ),
            None => ws,
        };
        let after = self.with_at(place, stored);
        if transaction is InsertTiled {
            after.adopted(place)
        } else {
            after
        }
    }

    /// The desktop after a window transaction on a workspace.
    pub open spec fn applied_window(
        self,
        workspace: WorkspaceId,
        transaction: WindowTransaction,
        answers: Seq<Option<Point>>,
    ) -> Result<Self, desktop::DesktopFault> {
        match self.place(workspace) {
            None => Err(desktop::DesktopFault::UnknownWorkspace(workspace)),
            Some(place) => match self.solver.applied(self.at(place), transaction, answers) {
                Err(fault) => Err(desktop::DesktopFault::Layout(fault)),
                Ok((ws, _)) => self.laid_out(place, transaction, ws).normalized().committed(),
            },
        }
    }

    /// The desktop after a window has got the focus and its workspace is shown. A workspace that
    /// is left empty by that goes.
    pub open spec fn focused_window(self, window: WindowId) -> Result<
        (Self, WorkspaceId),
        desktop::DesktopFault,
    > {
        match self.owner(window) {
            Err(fault) => Err(fault),
            Ok(id) => match self.place(id) {
                None => Err(desktop::DesktopFault::UnknownWorkspace(id)),
                Some(place) => {
                    let ws = self.at(place).focused(window);
                    let seen = match self.viewport_at(place) {
                        Some((_, size)) => ws.followed(size),
                        None => ws,
                    };
                    match self.with_at(place, seen).showing(place).normalized().committed() {
                        Err(fault) => Err(fault),
                        Ok(after) => Ok((after, id)),
                    }
                },
            },
        }
    }

    /// The desktop after an output has changed its geometry.
    pub open spec fn configured(
        self,
        output: OutputId,
        physical_size: Size,
        logical_size: Size,
        native_scale: Scale120,
        transform: OutputTransform,
    ) -> Result<Self, desktop::DesktopFault> {
        if !physical_size.valid() || !logical_size.valid() {
            Err(desktop::DesktopFault::InvalidOutputSize)
        } else if native_scale.0 == 0 {
            Err(desktop::DesktopFault::InvalidOutputScale)
        } else if !self.outputs.contains_key(desktop::key(output)) {
            Err(desktop::DesktopFault::UnknownOutput(output))
        } else {
            let set = self.outputs[desktop::key(output)];
            (desktop::DesktopView {
                outputs: self.outputs.insert(
                    desktop::key(output),
                    outputs::SetView {
                        output: outputs::OutputView {
                            physical_size,
                            logical_size,
                            native_scale,
                            transform,
                            ..set.output
                        },
                        workspaces: desktop::each_changed(
                            set.workspaces,
                            viewport::ChangeView::Remap {
                                key: set.output.stable_key,
                                before: set.output.logical_size,
                                after: logical_size,
                            },
                        ),
                        ..set
                    },
                ),
                ..self
            }).committed()
        }
    }

    /// The desktop with the first `n` of some workspaces laid out anew under another camera
    /// policy, and how many answers are then used.
    pub open spec fn reflowed(
        self,
        all: Seq<workspace::WorkspaceView>,
        n: int,
        policy: CameraPolicy,
        answers: Seq<Option<Point>>,
    ) -> Result<(Self, nat), desktop::DesktopFault>
        decreases n,
    {
        if n <= 0 {
            Ok((self, 0))
        } else {
            match self.reflowed(all, n - 1, policy, answers) {
                Err(fault) => Err(fault),
                Ok((before, used)) => match before.place(all[n - 1].id) {
                    None => Err(desktop::DesktopFault::UnknownWorkspace(all[n - 1].id)),
                    Some(place) => {
                        let old_ws = before.at(place);
                        let ws = workspace::WorkspaceView {
                            camera: model::CameraState { policy, ..old_ws.camera },
                            ..old_ws
                        };
                        match before.solver.reflowed(ws, answers, used) {
                            Err(fault) => Err(desktop::DesktopFault::Layout(fault)),
                            Ok((flowed, count)) => {
                                let seen = match before.viewport_at(place) {
                                    Some((_, size)) => flowed.followed(size),
                                    None => flowed,
                                };
                                Ok((before.with_at(place, seen), count))
                            },
                        }
                    },
                },
            }
        }
    }

    /// The desktop with all workspaces laid out anew for another gap and camera policy.
    pub open spec fn reconfigured(
        self,
        gap: i64,
        policy: CameraPolicy,
        answers: Seq<Option<Point>>,
    ) -> Result<Self, desktop::DesktopFault> {
        let fresh = desktop::DesktopView { solver: layout::SolverView::with_gap(gap), ..self };
        match fresh.reflowed(self.all(), self.all().len() as int, policy, answers) {
            Err(fault) => Err(fault),
            Ok((after, _)) => after.committed(),
        }
    }
}

impl Desktop {
    /// Carries out a window transaction on a workspace.
    pub fn apply_window(
        &mut self,
        workspace: WorkspaceId,
        transaction: WindowTransaction,
        answers: &[Option<Point>],
    ) -> (r: Result<(), DesktopError>)
        ensures
            match old(self)@.applied_window(workspace, transaction, answers@) {
                Ok(after) => r is Ok && final(self)@ == after,
                Err(fault) => r is Err && r->Err_0@ == fault && final(self)@ == old(self)@,
            },
    {
        let place: (Option<u64>, usize) = match self.find_place(workspace) {
            Some(place) => place,
            None => {
                return Err(DesktopError::UnknownWorkspace(workspace));
            },
        };
        let mut working: Desktop = self.clone();
        let mut ws: Workspace = working.get_at(place).clone();
        match self.solver.apply(&mut ws, transaction, answers) {
            Ok(_) => {},
            Err(error) => {
                return Err(DesktopError::Layout(error));
            },
        }
        match viewport_of(&working, place) {
            Some((key, size)) => {
                ws.change_viewports(&ViewportChange::Store { key, size });
                ws.follow_focus(size);
            },
            None => {},
        }
        *working.get_at_mut(place) = ws;
        let inserts: bool = match transaction {
            WindowTransaction::InsertTiled { .. } => true,
            _ => false,
        };
        if inserts {
            working.adopt(place);
        }
        working.normalize_all();
        match working.validate() {
            Ok(()) => {},
            Err(error) => {
                return Err(error);
            },
        }
        *self = working;
        Ok(())
    }

    /// Gives a window the focus, and shows its workspace. A workspace that is left empty by that
    /// goes.
    pub fn focus_window(&mut self, window: WindowId) -> (r: Result<WorkspaceId, DesktopError>)
        ensures
            match old(self)@.focused_window(window) {
                Ok((after, id)) => r is Ok && r->Ok_0 == id && final(self)@ == after,
                Err(fault) => r is Err && r->Err_0@ == fault && final(self)@ == old(self)@,
            },
    {
        let id: WorkspaceId = match self.find_window(window) {
            Ok(id) => id,
            Err(error) => {
                return Err(error);
            },
        };
        let place: (Option<u64>, usize) = match self.find_place(id) {
            Some(place) => place,
            None => {
                return Err(DesktopError::UnknownWorkspace(id));
            },
        };
        let mut working: Desktop = self.clone();
        let mut ws: Workspace = working.get_at(place).clone();
        ws.focus(window);
        match viewport_of(&working, place) {
            Some((_, size)) => {
                ws.follow_focus(size);
            },
            None => {},
        }
        *working.get_at_mut(place) = ws;
        working.show(place);
        working.normalize_all();
        match working.validate() {
            Ok(()) => {},
            Err(error) => {
                return Err(error);
            },
        }
        *self = working;
        Ok(id)
    }

    /// Changes the geometry of an output. Floating windows keep their place in proportion.
    pub fn configure_output(
        &mut self,
        output: OutputId,
        physical_size: Size,
        logical_size: Size,
        native_scale: Scale120,
        transform: OutputTransform,
    ) -> (r: Result<(), DesktopError>)
        ensures
            match old(self)@.configured(
                output,
                physical_size,
                logical_size,
                native_scale,
                transform,
            ) {
                Ok(after) => r is Ok && final(self)@ == after,
                Err(fault) => r is Err && r->Err_0@ == fault && final(self)@ == old(self)@,
            },
    {
        if !physical_size.is_valid() || !logical_size.is_valid() {
            return Err(DesktopError::InvalidOutputSize);
        }
        if native_scale.0 == 0 {
            return Err(DesktopError::InvalidOutputScale);
        }
        let mut working: Desktop = self.clone();
        match working.outputs.get_mut(output.0 as u64) {
            Some(set) => {
                let change = ViewportChange::Remap {
                    key: set.output.stable_key.clone(),
                    before: set.output.logical_size,
                    after: logical_size,
                };
                set.output.physical_size = physical_size;
                set.output.logical_size = logical_size;
                set.output.native_scale = native_scale;
                set.output.transform = transform;
                change_each(&mut set.workspaces, &change);
            },
            None => {
                return Err(DesktopError::UnknownOutput(output));
            },
        }
        match working.validate() {
            Ok(()) => {},
            Err(error) => {
                return Err(error);
            },
        }
        *self = working;
        Ok(())
    }

    /// Lays out all workspaces anew for another gap and camera policy.
    pub fn reconfigure_layout(
        &mut self,
        gap: i64,
        camera_policy: CameraPolicy,
        answers: &[Option<Point>],
    ) -> (r: Result<(), DesktopError>)
        ensures
            match old(self)@.reconfigured(gap, camera_policy, answers@) {
                Ok(after) => r is Ok && final(self)@ == after,
                Err(fault) => r is Err && r->Err_0@ == fault && final(self)@ == old(self)@,
            },
    {
        let mut working: Desktop = self.clone();
        working.solver = RadialSolver::new(gap);
        let all: Vec<&Workspace> = self.workspaces();
        let ghost views = self@.all();
        let ghost fresh = working@;
        let mut used: usize = 0;
        let mut n: usize = 0;
        while n < all.len()
            invariant
                n <= all@.len(),
                used <= answers@.len(),
                self@ == old(self)@,
                views == self@.all(),
                desktop::borrowed_views(all@) == views,
                fresh == (desktop::DesktopView {
                    solver: layout::SolverView::with_gap(gap),
                    ..old(self)@
                }),
                fresh.reflowed(views, n as int, camera_policy, answers@) == Ok::<
                    (desktop::DesktopView, nat),
                    desktop::DesktopFault,
                >((working@, used as nat)),
            decreases all@.len() - n,
        {
            proof {
                assert(views[n as int] == all@[n as int]@);
                assert(views.len() == all@.len());
            }
            let id: WorkspaceId = all[n].id;
            let place: (Option<u64>, usize) = match working.find_place(id) {
                Some(place) => place,
                None => {
                    proof {
                        reflow_fault_extends(
                            fresh,
                            views,
                            n + 1,
                            views.len() as int,
                            camera_policy,
                            answers@,
                        );
                    }
                    return Err(DesktopError::UnknownWorkspace(id));
                },
            };
            let mut ws: Workspace = working.get_at(place).clone();
            ws.camera.policy = camera_policy;
            match working.solver.reflow(&mut ws, answers, used) {
                Ok(count) => {
                    used = count;
                },
                Err(error) => {
                    proof {
                        reflow_fault_extends(
                            fresh,
                            views,
                            n + 1,
                            views.len() as int,
                            camera_policy,
                            answers@,
                        );
                    }
                    return Err(DesktopError::Layout(error));
                },
            }
            match viewport_of(&working, place) {
                Some((_, size)) => {
                    ws.follow_focus(size);
                },
                None => {},
            }
            *working.get_at_mut(place) = ws;
            n = n + 1;
        }
        assert(views.len() == all@.len());
        match working.validate() {
            Ok(()) => {},
            Err(error) => {
                return Err(error);
            },
        }
        *self = working;
        Ok(())
    }
}

proof fn reflow_fault_extends(
    this: desktop::DesktopView,
    all: Seq<workspace::WorkspaceView>,
    n: int,
    m: int,
    policy: CameraPolicy,
    answers: Seq<Option<Point>>,
)
    requires
        0 <= n <= m,
        this.reflowed(all, n, policy, answers) is Err,
    ensures
        this.reflowed(all, m, policy, answers) == this.reflowed(all, n, policy, answers),
    decreases m,
{
    if n < m {
        reflow_fault_extends(this, all, n, m - 1, policy, answers);
    }
}

} // verus!
