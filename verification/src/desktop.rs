//! The desktop: all outputs, their workspaces, and the transactions on them.
//!
//! Every operation works on a copy of the desktop and publishes it only once all invariants
//! have been checked, so an operation that fails leaves the desktop as it was.

use crate::geometry::{Direction, Size};
use crate::id_map::IdMap;
use crate::layout;
use crate::layout::{LayoutError, RadialSolver};
use crate::model;
use crate::model::{FloatingPlacement, OutputId, TiledWindow, WindowId, WorkspaceId};
use crate::outputs;
use crate::outputs::{copy_workspaces, retain_occupied, Output, OutputWorkspaceSet};
use crate::ranking;
use crate::text;
use crate::text::{same, TextMap};
use crate::viewport;
use crate::workspace;
use crate::workspace::Workspace;
use vstd::prelude::*;

verus! {

broadcast use workspace::group_views;

#[derive(Debug, Eq, PartialEq)]
pub enum WorkspaceTransaction {
    Focus { output: OutputId, workspace: WorkspaceId },
    Move {
        workspace: WorkspaceId,
        target_output: OutputId,
        target_index: Option<usize>,
        activate: bool,
    },
    SetName { workspace: WorkspaceId, name: Option<String> },
    /// The hint is that of the target, normalized with floating-point numbers: a tiled window is
    /// inserted in that direction.
    SendWindow { window: WindowId, target: WorkspaceId, activate: bool, hint: Direction },
}

pub enum TransactionView {
    Focus { output: OutputId, workspace: WorkspaceId },
    Move {
        workspace: WorkspaceId,
        target_output: OutputId,
        target_index: Option<usize>,
        activate: bool,
    },
    SetName { workspace: WorkspaceId, name: Option<Seq<char>> },
    SendWindow { window: WindowId, target: WorkspaceId, activate: bool, hint: Direction },
}

impl View for WorkspaceTransaction {
    type V = TransactionView;

    open spec fn view(&self) -> TransactionView {
        match self {
            WorkspaceTransaction::Focus { output, workspace } => TransactionView::Focus {
                output: *output,
                workspace: *workspace,
            },
            WorkspaceTransaction::Move { workspace, target_output, target_index, activate } =>
                TransactionView::Move {
                workspace: *workspace,
                target_output: *target_output,
                target_index: *target_index,
                activate: *activate,
            },
            WorkspaceTransaction::SetName { workspace, name } => TransactionView::SetName {
                workspace: *workspace,
                name: text::characters(*name),
            },
            WorkspaceTransaction::SendWindow { window, target, activate, hint } =>
                TransactionView::SendWindow {
                window: *window,
                target: *target,
                activate: *activate,
                hint: *hint,
            },
        }
    }
}

#[allow(inconsistent_fields)]
#[derive(Debug, Eq, PartialEq)]
pub enum DesktopEvent {
    WorkspaceFocused { workspace: WorkspaceId, output: OutputId },
    WorkspaceMoved { workspace: WorkspaceId, source: Option<OutputId>, target: OutputId },
    WorkspaceNamed { workspace: WorkspaceId, name: Option<String> },
    OutputConnected { output: OutputId },
    OutputDisconnected { output: OutputId },
    WindowSent { window: WindowId, source: WorkspaceId, target: WorkspaceId },
}

#[allow(inconsistent_fields)]
pub enum EventView {
    WorkspaceFocused { workspace: WorkspaceId, output: OutputId },
    WorkspaceMoved { workspace: WorkspaceId, source: Option<OutputId>, target: OutputId },
    WorkspaceNamed { workspace: WorkspaceId, name: Option<Seq<char>> },
    OutputConnected { output: OutputId },
    OutputDisconnected { output: OutputId },
    WindowSent { window: WindowId, source: WorkspaceId, target: WorkspaceId },
}

impl View for DesktopEvent {
    type V = EventView;

    open spec fn view(&self) -> EventView {
        match self {
            DesktopEvent::WorkspaceFocused { workspace, output } => EventView::WorkspaceFocused {
                workspace: *workspace,
                output: *output,
            },
            DesktopEvent::WorkspaceMoved { workspace, source, target } =>
                EventView::WorkspaceMoved {
                workspace: *workspace,
                source: *source,
                target: *target,
            },
            DesktopEvent::WorkspaceNamed { workspace, name } => EventView::WorkspaceNamed {
                workspace: *workspace,
                name: text::characters(*name),
            },
            DesktopEvent::OutputConnected { output } => EventView::OutputConnected {
                output: *output,
            },
            DesktopEvent::OutputDisconnected { output } => EventView::OutputDisconnected {
                output: *output,
            },
            DesktopEvent::WindowSent { window, source, target } => EventView::WindowSent {
                window: *window,
                source: *source,
                target: *target,
            },
        }
    }
}

/// Where a workspace is: its output, or none where it is detached, and its place there.
#[derive(Clone, Copy, Debug, Eq, PartialEq, Structural)]
pub struct WorkspaceLocation {
    pub output: Option<OutputId>,
    pub index: usize,
}

#[derive(Debug, Eq, PartialEq)]
pub enum DesktopError {
    UnknownWorkspace(WorkspaceId),
    UnknownOutput(OutputId),
    UnknownWindow(WindowId),
    DuplicateWorkspaceName(String),
    DuplicateOutputStableKey(String),
    InvalidOutputSize,
    InvalidOutputScale,
    InvalidWorkspaceState(WorkspaceId),
    DuplicateWindow { window: WindowId, first: WorkspaceId, second: WorkspaceId },
    Layout(LayoutError),
}

pub enum DesktopFault {
    UnknownWorkspace(WorkspaceId),
    UnknownOutput(OutputId),
    UnknownWindow(WindowId),
    DuplicateWorkspaceName(Seq<char>),
    DuplicateOutputStableKey(Seq<char>),
    InvalidOutputSize,
    InvalidOutputScale,
    InvalidWorkspaceState(WorkspaceId),
    DuplicateWindow { window: WindowId, first: WorkspaceId, second: WorkspaceId },
    Layout(layout::LayoutFault),
}

impl View for DesktopError {
    type V = DesktopFault;

    open spec fn view(&self) -> DesktopFault {
        match self {
            DesktopError::UnknownWorkspace(id) => DesktopFault::UnknownWorkspace(*id),
            DesktopError::UnknownOutput(id) => DesktopFault::UnknownOutput(*id),
            DesktopError::UnknownWindow(id) => DesktopFault::UnknownWindow(*id),
            DesktopError::DuplicateWorkspaceName(name) => DesktopFault::DuplicateWorkspaceName(
                name@,
            ),
            DesktopError::DuplicateOutputStableKey(key) =>
                DesktopFault::DuplicateOutputStableKey(key@),
            DesktopError::InvalidOutputSize => DesktopFault::InvalidOutputSize,
            DesktopError::InvalidOutputScale => DesktopFault::InvalidOutputScale,
            DesktopError::InvalidWorkspaceState(id) => DesktopFault::InvalidWorkspaceState(*id),
            DesktopError::DuplicateWindow { window, first, second } =>
                DesktopFault::DuplicateWindow { window: *window, first: *first, second: *second },
            DesktopError::Layout(error) => DesktopFault::Layout(error@),
        }
    }
}

#[derive(Debug)]
pub struct Desktop {
    /// The outputs by id. Each owns an independent ordered list of workspaces.
    pub outputs: IdMap<OutputWorkspaceSet>,
    /// The workspaces that are left when the last output has gone.
    pub detached: Vec<Workspace>,
    pub primary_output: Option<OutputId>,
    /// The workspace that an output showed when it was disconnected, by its stable key.
    pub last_active: TextMap<WorkspaceId>,
    /// The id of the next workspace that is created.
    pub next_workspace_id: u32,
    pub solver: RadialSolver,
}

#[verifier::ext_equal]
pub struct DesktopView {
    pub outputs: Map<u64, outputs::SetView>,
    pub detached: Seq<workspace::WorkspaceView>,
    pub primary_output: Option<OutputId>,
    pub last_active: Map<Seq<char>, WorkspaceId>,
    pub next_workspace_id: u32,
    pub solver: layout::SolverView,
}

impl View for Desktop {
    type V = DesktopView;

    open spec fn view(&self) -> DesktopView {
        DesktopView {
            outputs: self.outputs@,
            detached: workspace::views(self.detached@),
            primary_output: self.primary_output,
            last_active: self.last_active@,
            next_workspace_id: self.next_workspace_id,
            solver: self.solver@,
        }
    }
}

/// The key of an output in the map of outputs.
pub open spec fn key(output: OutputId) -> u64 {
    output.0 as u64
}

/// The place of the first workspace with an id.
pub open spec fn first_with_id(list: Seq<workspace::WorkspaceView>, id: WorkspaceId) -> Option<int>
    decreases list.len(),
{
    if list.len() == 0 {
        None
    } else {
        match first_with_id(list.drop_last(), id) {
            Some(i) => Some(i),
            None => if list.last().id == id {
                Some(list.len() - 1)
            } else {
                None
            },
        }
    }
}

/// A list of workspaces with a change made to the viewport places of each.
pub open spec fn each_changed(
    list: Seq<workspace::WorkspaceView>,
    change: viewport::ChangeView,
) -> Seq<workspace::WorkspaceView> {
    Seq::new(list.len(), |i: int| list[i].changed(change))
}

/// The windows of a workspace: the tiled and the floating ones, each in the order of their ids,
/// the maximized one and the fullscreen one.
pub open spec fn windows_of(ws: workspace::WorkspaceView) -> Seq<u64> {
    let tiled = ranking::ascending(ws.tiled.dom());
    let floating = ranking::ascending(ws.floating.dom());
    let maximized = match ws.maximized {
        Some(m) => seq![m.window.0],
        None => Seq::empty(),
    };
    let fullscreen = match ws.fullscreen {
        Some(f) => seq![f.window.0],
        None => Seq::empty(),
    };
    tiled + floating + maximized + fullscreen
}

/// Whether the entries of tiled windows bear their ids and have valid sizes.
pub open spec fn tiled_coherent(tiled: Map<u64, TiledWindow>) -> bool {
    forall|k: u64| #[trigger]
        tiled.contains_key(k) ==> tiled[k].id.0 == k && tiled[k].geometry.size.valid()
}

/// Whether the entries of floating windows bear their ids and have valid sizes.
pub open spec fn floating_coherent(floating: Map<u64, model::FloatingView>) -> bool {
    forall|k: u64| #[trigger]
        floating.contains_key(k) ==> floating[k].window.0 == k
            && floating[k].viewport.rect.size.valid()
}

/// Whether the entries of a workspace bear their ids and have valid sizes, and the focus is on
/// windows that it has, none of them twice in the history.
pub open spec fn coherent(ws: workspace::WorkspaceView) -> bool {
    &&& tiled_coherent(ws.tiled)
    &&& floating_coherent(ws.floating)
    &&& ws.focused_window matches Some(window) ==> ws.has(window)
    &&& forall|i: int| 0 <= i < ws.focus_history.len() ==> ws.has(#[trigger] ws.focus_history[i])
    &&& ws.focus_history.no_duplicates()
}

/// What is wrong with the geometry of an output, if anything.
pub open spec fn geometry_fault(output: outputs::OutputView) -> Option<DesktopFault> {
    if !output.physical_size.valid() || !output.logical_size.valid() {
        Some(DesktopFault::InvalidOutputSize)
    } else if output.native_scale.0 == 0 {
        Some(DesktopFault::InvalidOutputScale)
    } else {
        None
    }
}

/// The owners of windows when the first `n` of a list have been added for the workspace `id`,
/// or the first of them that has an owner already.
pub open spec fn claim(
    owners: Map<u64, WorkspaceId>,
    list: Seq<u64>,
    n: int,
    id: WorkspaceId,
) -> Result<Map<u64, WorkspaceId>, DesktopFault>
    decreases n,
{
    if n <= 0 {
        Ok(owners)
    } else {
        match claim(owners, list, n - 1, id) {
            Err(fault) => Err(fault),
            Ok(map) => if map.contains_key(list[n - 1]) {
                Err(
                    DesktopFault::DuplicateWindow {
                        window: WindowId(list[n - 1]),
                        first: map[list[n - 1]],
                        second: id,
                    },
                )
            } else {
                Ok(map.insert(list[n - 1], id))
            },
        }
    }
}

/// What is wrong with the workspace at a place of a list but for its windows, if anything: its
/// own state, or an id or a name that an earlier one has.
pub open spec fn identity_fault(all: Seq<workspace::WorkspaceView>, i: int) -> Option<DesktopFault> {
    let ws = all[i];
    if !coherent(ws) {
        Some(DesktopFault::InvalidWorkspaceState(ws.id))
    } else if exists|j: int| 0 <= j < i && (#[trigger] all[j]).id == ws.id {
        Some(DesktopFault::UnknownWorkspace(ws.id))
    } else if ws.name is Some && exists|j: int| 0 <= j < i && (#[trigger] all[j]).name == ws.name {
        Some(DesktopFault::DuplicateWorkspaceName(ws.name->0))
    } else {
        None
    }
}

/// The owners of all windows of the first `n` workspaces, or the first fault among them.
pub open spec fn claimed(all: Seq<workspace::WorkspaceView>, n: int) -> Result<
    Map<u64, WorkspaceId>,
    DesktopFault,
>
    decreases n,
{
    if n <= 0 {
        Ok(Map::empty())
    } else {
        match claimed(all, n - 1) {
            Err(fault) => Err(fault),
            Ok(owners) => match identity_fault(all, n - 1) {
                Some(fault) => Err(fault),
                None => {
                    let windows = windows_of(all[n - 1]);
                    claim(owners, windows, windows.len() as int, all[n - 1].id)
                },
            },
        }
    }
}

/// The workspaces of a list that belong to the output `key` parted from the others: those that
/// stay, the occupied ones that leave, and which of those that stay is shown. `kept` and
/// `taken` have been parted before; `rest` follows.
pub open spec fn parted(
    kept: Seq<workspace::WorkspaceView>,
    rest: Seq<workspace::WorkspaceView>,
    taken: Seq<workspace::WorkspaceView>,
    active: int,
    key: Seq<char>,
) -> (Seq<workspace::WorkspaceView>, Seq<workspace::WorkspaceView>, int)
    decreases rest.len(),
{
    if rest.len() == 0 {
        (kept, taken, active)
    } else if rest[0].original_output == Some(key) {
        parted(
            kept,
            rest.drop_first(),
            if rest[0].occupied() {
                taken.push(rest[0])
            } else {
                taken
            },
            if kept.len() <= active && active > 0 {
                active - 1
            } else {
                active
            },
            key,
        )
    } else {
        parted(kept.push(rest[0]), rest.drop_first(), taken, active, key)
    }
}

impl DesktopView {
    pub open spec fn fresh(gap: i64) -> Self {
        DesktopView {
            outputs: Map::empty(),
            detached: Seq::empty(),
            primary_output: None,
            last_active: Map::empty(),
            next_workspace_id: 0,
            solver: layout::SolverView::with_gap(gap),
        }
    }

    /// The keys of the outputs in ascending order.
    pub open spec fn keys(self) -> Seq<u64> {
        ranking::ascending(self.outputs.dom())
    }

    /// The workspaces of the first `n` outputs of a list.
    pub open spec fn gathered(self, keys: Seq<u64>, n: int) -> Seq<workspace::WorkspaceView>
        decreases n,
    {
        if n <= 0 {
            Seq::empty()
        } else {
            self.gathered(keys, n - 1) + self.outputs[keys[n - 1]].workspaces
        }
    }

    /// All workspaces: those of each output in turn, and the detached ones.
    pub open spec fn all(self) -> Seq<workspace::WorkspaceView> {
        self.gathered(self.keys(), self.keys().len() as int) + self.detached
    }

    /// Where the first workspace with an id is among the first `n` outputs of a list.
    pub open spec fn placed_among(self, keys: Seq<u64>, n: int, id: WorkspaceId) -> Option<(u64, int)>
        decreases n,
    {
        if n <= 0 {
            None
        } else {
            match self.placed_among(keys, n - 1, id) {
                Some(place) => Some(place),
                None => match first_with_id(self.outputs[keys[n - 1]].workspaces, id) {
                    Some(i) => Some((keys[n - 1], i)),
                    None => None,
                },
            }
        }
    }

    /// Where the first workspace with an id is: the key of its output, or none where it is
    /// detached, and its place there.
    pub open spec fn place(self, id: WorkspaceId) -> Option<(Option<u64>, int)> {
        match self.placed_among(self.keys(), self.keys().len() as int, id) {
            Some((k, i)) => Some((Some(k), i)),
            None => match first_with_id(self.detached, id) {
                Some(i) => Some((None, i)),
                None => None,
            },
        }
    }

    /// The workspace at a place.
    pub open spec fn at(self, place: (Option<u64>, int)) -> workspace::WorkspaceView {
        match place.0 {
            Some(k) => self.outputs[k].workspaces[place.1],
            None => self.detached[place.1],
        }
    }

    /// The desktop with another workspace at a place.
    pub open spec fn with_at(self, place: (Option<u64>, int), ws: workspace::WorkspaceView) -> Self {
        match place.0 {
            Some(k) => DesktopView {
                outputs: self.outputs.insert(
                    k,
                    outputs::SetView {
                        workspaces: self.outputs[k].workspaces.update(place.1, ws),
                        ..self.outputs[k]
                    },
                ),
                ..self
            },
            None => DesktopView { detached: self.detached.update(place.1, ws), ..self },
        }
    }

    /// The output at a place, if it has any.
    pub open spec fn output_at(self, place: (Option<u64>, int)) -> Option<outputs::OutputView> {
        match place.0 {
            Some(k) => Some(self.outputs[k].output),
            None => None,
        }
    }

    /// The stable key and the logical size of the output at a place, if it has any.
    pub open spec fn viewport_at(self, place: (Option<u64>, int)) -> Option<(Seq<char>, Size)> {
        match self.output_at(place) {
            Some(output) => Some((output.stable_key, output.logical_size)),
            None => None,
        }
    }

    /// The desktop with the workspace at a place shown, if it is on an output.
    pub open spec fn showing(self, place: (Option<u64>, int)) -> Self {
        match place.0 {
            Some(k) => DesktopView {
                outputs: self.outputs.insert(
                    k,
                    outputs::SetView { active: place.1 as usize, ..self.outputs[k] },
                ),
                ..self
            },
            None => self,
        }
    }

    /// The desktop with the workspace at a place, if it is on an output and has no name, said to
    /// belong to that output.
    pub open spec fn adopted(self, place: (Option<u64>, int)) -> Self {
        match self.output_at(place) {
            Some(output) => if self.at(place).name is None {
                self.with_at(
                    place,
                    workspace::WorkspaceView {
                        original_output: Some(output.stable_key),
                        ..self.at(place)
                    },
                )
            } else {
                self
            },
            None => self,
        }
    }

    /// The desktop with the outputs of a list normalized one after the other.
    pub open spec fn normalized_outputs(self, keys: Seq<u64>, n: int) -> Self
        decreases n,
    {
        if n <= 0 {
            self
        } else {
            let before = self.normalized_outputs(keys, n - 1);
            let (set, id) = before.outputs[keys[n - 1]].normalized(before.next_workspace_id);
            DesktopView {
                outputs: before.outputs.insert(keys[n - 1], set),
                next_workspace_id: id,
                ..before
            }
        }
    }

    /// The desktop with superfluous workspaces gone and an empty one at the end of each output.
    pub open spec fn normalized(self) -> Self {
        let after = self.normalized_outputs(self.keys(), self.keys().len() as int);
        DesktopView { detached: outputs::occupied(after.detached), ..after }
    }

    /// What is wrong with the output at a place of a list, if anything.
    pub open spec fn output_fault(self, keys: Seq<u64>, i: int) -> Option<DesktopFault> {
        let set = self.outputs[keys[i]];
        if geometry_fault(set.output) is Some {
            geometry_fault(set.output)
        } else if exists|j: int|
            0 <= j < i && (#[trigger] self.outputs[keys[j]]).output.stable_key
                == set.output.stable_key {
            Some(DesktopFault::DuplicateOutputStableKey(set.output.stable_key))
        } else if set.output.id.0 != keys[i] || set.active >= set.workspaces.len()
            || outputs::SetView::needs_placeholder(set.workspaces) {
            Some(DesktopFault::UnknownOutput(OutputId(keys[i] as u32)))
        } else {
            None
        }
    }

    /// What is wrong with the first `n` outputs of a list, if anything.
    pub open spec fn outputs_fault(self, keys: Seq<u64>, n: int) -> Option<DesktopFault>
        decreases n,
    {
        if n <= 0 {
            None
        } else {
            match self.outputs_fault(keys, n - 1) {
                Some(fault) => Some(fault),
                None => self.output_fault(keys, n - 1),
            }
        }
    }

    /// What is wrong with the primary output, if anything.
    pub open spec fn primary_fault(self) -> Option<DesktopFault> {
        match self.primary_output {
            None => if self.outputs.dom() != Set::<u64>::empty() {
                Some(DesktopFault::UnknownOutput(OutputId(u32::MAX)))
            } else {
                None
            },
            Some(primary) => if !self.outputs.contains_key(key(primary)) {
                Some(DesktopFault::UnknownOutput(primary))
            } else {
                None
            },
        }
    }

    /// The first fault of the desktop, if it has any.
    pub open spec fn fault(self) -> Option<DesktopFault> {
        let n = self.keys().len() as int;
        match self.primary_fault() {
            Some(fault) => Some(fault),
            None => match self.outputs_fault(self.keys(), n) {
                Some(fault) => Some(fault),
                None => match claimed(self.all(), self.all().len() as int) {
                    Err(fault) => Some(fault),
                    Ok(_) => None,
                },
            },
        }
    }

    /// Whether the desktop keeps all its invariants.
    pub open spec fn valid(self) -> bool {
        self.fault() is None
    }

    /// Whether there is a primary output as soon as there is any.
    pub open spec fn anchored(self) -> bool {
        self.primary_fault() is None
    }

    /// This desktop where it is valid, and its first fault where it is not.
    pub open spec fn committed(self) -> Result<Self, DesktopFault> {
        match self.fault() {
            Some(fault) => Err(fault),
            None => Ok(self),
        }
    }
}

impl Clone for Desktop {
    fn clone(&self) -> (r: Self)
        ensures
            r@ == self@,
    {
        let outputs: IdMap<OutputWorkspaceSet> = self.outputs.clone();
        assert(outputs@ =~= self.outputs@);
        Desktop {
            outputs,
            detached: copy_workspaces(&self.detached),
            primary_output: self.primary_output,
            last_active: self.last_active.clone(),
            next_workspace_id: self.next_workspace_id,
            solver: self.solver,
        }
    }
}

/// The views of a list of borrowed workspaces.
pub open spec fn borrowed_views(list: Seq<&Workspace>) -> Seq<workspace::WorkspaceView> {
    Seq::new(list.len(), |i: int| list[i]@)
}

/// The place of the first workspace with an id.
pub(crate) fn find_id(list: &Vec<Workspace>, id: WorkspaceId) -> (r: Option<usize>)
    ensures
        match first_with_id(workspace::views(list@), id) {
            Some(i) => r is Some && r->0 == i && 0 <= i < list@.len(),
            None => r is None,
        },
{
    let ghost all = workspace::views(list@);
    let mut i: usize = 0;
    while i < list.len()
        invariant
            i <= list@.len(),
            all == workspace::views(list@),
            first_with_id(all.take(i as int), id) is None,
        decreases list@.len() - i,
    {
        proof {
            assert(all.take(i + 1).drop_last() =~= all.take(i as int));
            assert(all.take(i + 1).last() == list@[i as int]@);
        }
        if list[i].id == id {
            proof {
                first_with_id_extends(all.take(i + 1), all.skip(i + 1), id);
                assert(all.take(i + 1) + all.skip(i + 1) =~= all);
            }
            return Some(i);
        }
        i = i + 1;
    }
    assert(all.take(i as int) =~= all);
    None
}

/// Workspaces that follow do not change which is the first with an id.
pub proof fn first_with_id_extends(
    list: Seq<workspace::WorkspaceView>,
    more: Seq<workspace::WorkspaceView>,
    id: WorkspaceId,
)
    requires
        first_with_id(list, id) is Some,
    ensures
        first_with_id(list + more, id) == first_with_id(list, id),
    decreases more.len(),
{
    if more.len() == 0 {
        assert(list + more =~= list);
    } else {
        first_with_id_extends(list, more.drop_last(), id);
        assert((list + more).drop_last() =~= list + more.drop_last());
    }
}

/// What the place of the first workspace with an id is.
pub proof fn first_with_id_place(list: Seq<workspace::WorkspaceView>, id: WorkspaceId)
    ensures
        match first_with_id(list, id) {
            Some(i) => 0 <= i < list.len() && list[i].id == id && forall|j: int|
                0 <= j < i ==> (#[trigger] list[j]).id != id,
            None => forall|j: int| 0 <= j < list.len() ==> (#[trigger] list[j]).id != id,
        },
    decreases list.len(),
{
    if list.len() > 0 {
        first_with_id_place(list.drop_last(), id);
        assert forall|j: int| 0 <= j < list.len() - 1 implies (#[trigger] list[j]).id
            == list.drop_last()[j].id by {}
    }
}

impl DesktopView {
    /// A place that was found is a place of the desktop.
    pub proof fn place_is_known(self, id: WorkspaceId)
        requires
            self.outputs.dom().finite(),
        ensures
            match self.place(id) {
                Some((Some(k), i)) => self.outputs.contains_key(k) && 0 <= i
                    < self.outputs[k].workspaces.len() && self.outputs[k].workspaces[i].id == id,
                Some((None, i)) => 0 <= i < self.detached.len() && self.detached[i].id == id,
                None => true,
            },
    {
        let keys = self.keys();
        ranking::ranking_ranks(self.outputs.dom(), |id: u64| 0);
        self.placed_among_is_known(keys, keys.len() as int, id);
        first_with_id_place(self.detached, id);
    }

    proof fn placed_among_is_known(self, keys: Seq<u64>, n: int, id: WorkspaceId)
        requires
            keys.to_set() == self.outputs.dom(),
            0 <= n <= keys.len(),
        ensures
            match self.placed_among(keys, n, id) {
                Some((k, i)) => self.outputs.contains_key(k) && 0 <= i
                    < self.outputs[k].workspaces.len() && self.outputs[k].workspaces[i].id == id,
                None => true,
            },
        decreases n,
    {
        if n > 0 {
            self.placed_among_is_known(keys, n - 1, id);
            first_with_id_place(self.outputs[keys[n - 1]].workspaces, id);
            assert(keys.to_set().contains(keys[n - 1]));
        }
    }
}

impl Desktop {
    pub fn new(gap: i64) -> (r: Self)
        ensures
            r@ == DesktopView::fresh(gap),
            r@.valid(),
    {
        let r = Desktop {
            outputs: IdMap::new(),
            detached: Vec::new(),
            primary_output: None,
            last_active: TextMap::new(),
            next_workspace_id: 0,
            solver: RadialSolver::new(gap),
        };
        proof {
            assert(r@.detached =~= Seq::empty());
            fresh_is_valid(gap);
        }
        r
    }

    /// A desktop has finitely many outputs.
    pub proof fn outputs_are_finite(self)
        ensures
            self@.outputs.dom().finite(),
    {
        self.outputs.ids_are_finite();
    }

    /// Where the first workspace with an id is.
    pub(crate) fn find_place(&self, id: WorkspaceId) -> (r: Option<(Option<u64>, usize)>)
        ensures
            match self@.place(id) {
                Some((k, i)) => r is Some && (r->0).0 == k && (r->0).1 == i && match k {
                    Some(k) => self@.outputs.contains_key(k) && 0 <= i
                        < self@.outputs[k].workspaces.len(),
                    None => 0 <= i < self@.detached.len(),
                },
                None => r is None,
            },
    {
        let keys: Vec<u64> = self.outputs.keys();
        proof {
            self.outputs_are_finite();
            self@.place_is_known(id);
        }
        let mut n: usize = 0;
        while n < keys.len()
            invariant
                n <= keys@.len(),
                keys@ == self@.keys(),
                keys@.to_set() == self@.outputs.dom(),
                self@.placed_among(keys@, n as int, id) is None,
                match self@.place(id) {
                    Some((Some(k), i)) => self@.outputs.contains_key(k) && 0 <= i
                        < self@.outputs[k].workspaces.len(),
                    Some((None, i)) => 0 <= i < self@.detached.len(),
                    None => true,
                },
            decreases keys@.len() - n,
        {
            proof {
                assert(keys@.to_set().contains(keys@[n as int]));
            }
            match self.outputs.get(keys[n]) {
                Some(set) => {
                    match find_id(&set.workspaces, id) {
                        Some(i) => {
                            proof {
                                placed_among_extends(
                                    self@,
                                    keys@,
                                    n + 1,
                                    keys@.len() as int,
                                    id,
                                );
                            }
                            return Some((Some(keys[n]), i));
                        },
                        None => {},
                    }
                },
                None => {},
            }
            n = n + 1;
        }
        match find_id(&self.detached, id) {
            Some(i) => Some((None, i)),
            None => None,
        }
    }

    /// The workspace at a place.
    pub(crate) fn get_at(&self, place: (Option<u64>, usize)) -> (r: &Workspace)
        requires
            match place.0 {
                Some(k) => self@.outputs.contains_key(k) && place.1
                    < self@.outputs[k].workspaces.len(),
                None => place.1 < self@.detached.len(),
            },
        ensures
            r@ == self@.at((place.0, place.1 as int)),
    {
        match place.0 {
            Some(k) => match self.outputs.get(k) {
                Some(set) => &set.workspaces[place.1],
                None => {
                    assert(false);
                    &self.detached[place.1]
                },
            },
            None => &self.detached[place.1],
        }
    }

    /// The workspace at a place, to be changed.
    pub(crate) fn get_at_mut(&mut self, place: (Option<u64>, usize)) -> (r: &mut Workspace)
        requires
            match place.0 {
                Some(k) => old(self)@.outputs.contains_key(k) && place.1 < old(
                    self)@.outputs[k].workspaces.len(),
                None => place.1 < old(self)@.detached.len(),
            },
        ensures
            r@ == old(self)@.at((place.0, place.1 as int)),
            final(self)@ == old(self)@.with_at((place.0, place.1 as int), final(r)@),
    {
        match place.0 {
            Some(k) => match self.outputs.get_mut(k) {
                Some(set) => &mut set.workspaces[place.1],
                None => {
                    assert(false);
                    &mut self.detached[place.1]
                },
            },
            None => &mut self.detached[place.1],
        }
    }
}

/// Outputs that follow do not change where the first workspace with an id is.
proof fn placed_among_extends(
    desktop: DesktopView,
    keys: Seq<u64>,
    n: int,
    m: int,
    id: WorkspaceId,
)
    requires
        0 <= n <= m,
        desktop.placed_among(keys, n, id) is Some,
    ensures
        desktop.placed_among(keys, m, id) == desktop.placed_among(keys, n, id),
    decreases m,
{
    if n < m {
        placed_among_extends(desktop, keys, n, m - 1, id);
    }
}

proof fn fresh_is_valid(gap: i64)
    ensures
        DesktopView::fresh(gap).valid(),
{
    let desktop = DesktopView::fresh(gap);
    ranking::ranking_ranks(desktop.outputs.dom(), |id: u64| 0);
    assert(desktop.outputs.dom() =~= Set::<u64>::empty());
    assert(desktop.keys().len() == 0) by {
        if desktop.keys().len() > 0 {
            assert(desktop.keys().to_set().contains(desktop.keys()[0]));
        }
    }
    assert(desktop.all() =~= Seq::empty());
}

impl Desktop {
    pub fn workspace_location(&self, id: WorkspaceId) -> (r: Result<WorkspaceLocation, DesktopError>)
        ensures
            match self@.place(id) {
                Some((k, i)) => r is Ok && r->Ok_0.index == i && r->Ok_0.output == (match k {
                    Some(k) => Some(OutputId(k as u32)),
                    None => None,
                }),
                None => r is Err && r->Err_0@ == DesktopFault::UnknownWorkspace(id),
            },
    {
        match self.find_place(id) {
            Some((output, index)) => Ok(
                WorkspaceLocation {
                    output: match output {
                        Some(k) => Some(OutputId(k as u32)),
                        None => None,
                    },
                    index,
                },
            ),
            None => Err(DesktopError::UnknownWorkspace(id)),
        }
    }

    pub fn workspace(&self, id: WorkspaceId) -> (r: Result<&Workspace, DesktopError>)
        ensures
            match self@.place(id) {
                Some(place) => r is Ok && r->Ok_0@ == self@.at(place),
                None => r is Err && r->Err_0@ == DesktopFault::UnknownWorkspace(id),
            },
    {
        match self.find_place(id) {
            Some(place) => Ok(self.get_at(place)),
            None => Err(DesktopError::UnknownWorkspace(id)),
        }
    }

    pub fn workspace_mut(&mut self, id: WorkspaceId) -> (r: Result<&mut Workspace, DesktopError>)
        ensures
            match old(self)@.place(id) {
                Some(place) => r is Ok && r->Ok_0@ == old(self)@.at(place) && final(self)@ == old(
                    self)@.with_at(place, final(r->Ok_0)@),
                None => r is Err && r->Err_0@ == DesktopFault::UnknownWorkspace(id) && final(self)@
                    == old(self)@,
            },
    {
        match self.find_place(id) {
            Some(place) => Ok(self.get_at_mut(place)),
            None => Err(DesktopError::UnknownWorkspace(id)),
        }
    }

    /// All workspaces: those of each output in turn, and the detached ones.
    pub fn workspaces(&self) -> (r: Vec<&Workspace>)
        ensures
            borrowed_views(r@) == self@.all(),
    {
        let keys: Vec<u64> = self.outputs.keys();
        let mut all: Vec<&Workspace> = Vec::new();
        let mut n: usize = 0;
        assert(borrowed_views(all@) =~= Seq::empty());
        while n < keys.len()
            invariant
                n <= keys@.len(),
                keys@ == self@.keys(),
                keys@.to_set() == self@.outputs.dom(),
                borrowed_views(all@) == self@.gathered(keys@, n as int),
            decreases keys@.len() - n,
        {
            proof {
                assert(keys@.to_set().contains(keys@[n as int]));
            }
            match self.outputs.get(keys[n]) {
                Some(set) => {
                    collect(&mut all, &set.workspaces);
                },
                None => {},
            }
            n = n + 1;
        }
        collect(&mut all, &self.detached);
        all
    }

    pub fn workspace_for_output(&self, output: OutputId) -> (r: Option<&Workspace>)
        ensures
            match r {
                Some(ws) => self@.outputs.contains_key(key(output)) && self@.shown(output)
                    == Some(ws@),
                None => self@.shown(output) is None,
            },
    {
        match self.outputs.get(output.0 as u64) {
            Some(set) => set.active_workspace(),
            None => None,
        }
    }

    pub fn active_workspace_id(&self, output: OutputId) -> (r: Option<WorkspaceId>)
        ensures
            r == (match self@.shown(output) {
                Some(ws) => Some(ws.id),
                None => None,
            }),
    {
        match self.workspace_for_output(output) {
            Some(workspace) => Some(workspace.id),
            None => None,
        }
    }

    /// The workspace with a number of an output; the first has the number one.
    pub fn workspace_by_local_index(&self, output: OutputId, one_based_index: usize) -> (r: Option<
        &Workspace,
    >)
        ensures
            match r {
                Some(ws) => self@.outputs.contains_key(key(output)) && 1 <= one_based_index
                    <= self@.outputs[key(output)].workspaces.len() && ws@
                    == self@.outputs[key(output)].workspaces[one_based_index - 1],
                None => !(self@.outputs.contains_key(key(output)) && 1 <= one_based_index
                    <= self@.outputs[key(output)].workspaces.len()),
            },
    {
        if one_based_index == 0 {
            return None;
        }
        match self.outputs.get(output.0 as u64) {
            Some(set) => if one_based_index - 1 < set.workspaces.len() {
                Some(&set.workspaces[one_based_index - 1])
            } else {
                None
            },
            None => None,
        }
    }

    /// The number of a workspace on its output.
    pub fn workspace_local_index(&self, workspace: WorkspaceId) -> (r: Option<usize>)
        ensures
            match self@.place(workspace) {
                Some((Some(_), i)) => r is Some && r->0 == i + 1,
                _ => r is None,
            },
    {
        match self.find_place(workspace) {
            Some((Some(k), index)) => {
                match self.outputs.get(k) {
                    Some(set) => {
                        assert(index < set.workspaces@.len());
                        assert(set.workspaces.len() == set.workspaces@.len());
                        Some(index + 1)
                    },
                    None => None,
                }
            },
            _ => None,
        }
    }

    pub fn workspace_by_name(&self, name: &String) -> (r: Option<&Workspace>)
        ensures
            match r {
                Some(ws) => ws@.name == Some(name@) && exists|i: int|
                    0 <= i < self@.all().len() && #[trigger] self@.all()[i] == ws@ && forall|j: int|
                        0 <= j < i ==> (#[trigger] self@.all()[j]).name != Some(name@),
                None => forall|j: int|
                    0 <= j < self@.all().len() ==> (#[trigger] self@.all()[j]).name != Some(name@),
            },
    {
        let all: Vec<&Workspace> = self.workspaces();
        let mut i: usize = 0;
        while i < all.len()
            invariant
                i <= all@.len(),
                borrowed_views(all@) == self@.all(),
                forall|j: int| 0 <= j < i ==> (#[trigger] self@.all()[j]).name != Some(name@),
            decreases all@.len() - i,
        {
            proof {
                assert(borrowed_views(all@)[i as int] == all@[i as int]@);
            }
            let matches: bool = match &all[i].name {
                Some(candidate) => same(candidate, name),
                None => false,
            };
            if matches {
                assert(self@.all()[i as int] == all@[i as int]@);
                return Some(all[i]);
            }
            i = i + 1;
        }
        None
    }

    pub fn output(&self, output: OutputId) -> (r: Option<&Output>)
        ensures
            match r {
                Some(o) => self@.outputs.contains_key(key(output)) && o@ == self@.outputs[key(
                    output,
                )].output,
                None => !self@.outputs.contains_key(key(output)),
            },
    {
        match self.outputs.get(output.0 as u64) {
            Some(set) => Some(&set.output),
            None => None,
        }
    }

    pub fn output_mut(&mut self, output: OutputId) -> (r: Option<&mut Output>)
        ensures
            match r {
                Some(o) => old(self)@.outputs.contains_key(key(output)) && o@ == old(
                    self)@.outputs[key(output)].output && final(self)@ == (DesktopView {
                    outputs: old(self)@.outputs.insert(
                        key(output),
                        outputs::SetView { output: final(o)@, ..old(self)@.outputs[key(output)] },
                    ),
                    ..old(self)@
                }),
                None => !old(self)@.outputs.contains_key(key(output)) && final(self)@ == old(
                    self)@,
            },
    {
        match self.outputs.get_mut(output.0 as u64) {
            Some(set) => Some(&mut set.output),
            None => None,
        }
    }

    /// The workspace that has a window.
    pub fn find_window(&self, window: WindowId) -> (r: Result<WorkspaceId, DesktopError>)
        ensures
            match self@.owner(window) {
                Ok(id) => r is Ok && r->Ok_0 == id,
                Err(fault) => r is Err && r->Err_0@ == fault,
            },
    {
        let all: Vec<&Workspace> = self.workspaces();
        let mut found: Option<WorkspaceId> = None;
        let mut i: usize = 0;
        while i < all.len()
            invariant
                i <= all@.len(),
                borrowed_views(all@) == self@.all(),
                owner_among(self@.all(), i as int, window) == Ok::<
                    Option<WorkspaceId>,
                    DesktopFault,
                >(found),
            decreases all@.len() - i,
        {
            proof {
                assert(borrowed_views(all@)[i as int] == all@[i as int]@);
            }
            if all[i].contains_window(window) {
                match found {
                    Some(first) => {
                        proof {
                            owner_fault_extends(
                                self@.all(),
                                i + 1,
                                self@.all().len() as int,
                                window,
                            );
                        }
                        return Err(
                            DesktopError::DuplicateWindow { window, first, second: all[i].id },
                        );
                    },
                    None => {
                        found = Some(all[i].id);
                    },
                }
            }
            i = i + 1;
        }
        match found {
            Some(id) => Ok(id),
            None => Err(DesktopError::UnknownWindow(window)),
        }
    }
}

/// The workspace among the first `n` that has a window, if any.
pub open spec fn owner_among(all: Seq<workspace::WorkspaceView>, n: int, window: WindowId) -> Result<
    Option<WorkspaceId>,
    DesktopFault,
>
    decreases n,
{
    if n <= 0 {
        Ok(None)
    } else {
        match owner_among(all, n - 1, window) {
            Err(fault) => Err(fault),
            Ok(found) => if all[n - 1].has(window) {
                match found {
                    Some(first) => Err(
                        DesktopFault::DuplicateWindow { window, first, second: all[n - 1].id },
                    ),
                    None => Ok(Some(all[n - 1].id)),
                }
            } else {
                Ok(found)
            },
        }
    }
}

proof fn owner_fault_extends(
    all: Seq<workspace::WorkspaceView>,
    n: int,
    m: int,
    window: WindowId,
)
    requires
        0 <= n <= m,
        owner_among(all, n, window) is Err,
    ensures
        owner_among(all, m, window) == owner_among(all, n, window),
    decreases m,
{
    if n < m {
        owner_fault_extends(all, n, m - 1, window);
    }
}

impl DesktopView {
    /// The workspace that an output shows.
    pub open spec fn shown(self, output: OutputId) -> Option<workspace::WorkspaceView> {
        if self.outputs.contains_key(key(output)) && self.outputs[key(output)].active
            < self.outputs[key(output)].workspaces.len() {
            Some(
                self.outputs[key(output)].workspaces[self.outputs[key(output)].active as int],
            )
        } else {
            None
        }
    }

    /// The workspace that has a window.
    pub open spec fn owner(self, window: WindowId) -> Result<WorkspaceId, DesktopFault> {
        match owner_among(self.all(), self.all().len() as int, window) {
            Err(fault) => Err(fault),
            Ok(Some(id)) => Ok(id),
            Ok(None) => Err(DesktopFault::UnknownWindow(window)),
        }
    }
}

/// Adds all workspaces of a list to another.
fn collect<'a>(all: &mut Vec<&'a Workspace>, list: &'a Vec<Workspace>)
    ensures
        borrowed_views(final(all)@) == borrowed_views(old(all)@) + workspace::views(list@),
{
    let mut i: usize = 0;
    assert(borrowed_views(all@) =~= borrowed_views(all@) + workspace::views(list@).take(0));
    while i < list.len()
        invariant
            i <= list@.len(),
            borrowed_views(all@) == borrowed_views(old(all)@) + workspace::views(list@).take(
                i as int,
            ),
        decreases list@.len() - i,
    {
        let ghost before = all@;
        all.push(&list[i]);
        i = i + 1;
        proof {
            assert(borrowed_views(all@) =~= borrowed_views(before).push(list@[i - 1]@));
            assert(workspace::views(list@).take(i as int) =~= workspace::views(list@).take(
                i - 1,
            ).push(list@[i - 1]@));
            assert(borrowed_views(all@) =~= borrowed_views(old(all)@) + workspace::views(
                list@,
            ).take(i as int));
        }
    }
    assert(workspace::views(list@).take(i as int) =~= workspace::views(list@));
}

impl Desktop {
    /// Drops superfluous workspaces, and sees to the empty one at the end of each output.
    pub fn normalize_all(&mut self)
        ensures
            final(self)@ == old(self)@.normalized(),
    {
        let keys: Vec<u64> = self.outputs.keys();
        let mut n: usize = 0;
        while n < keys.len()
            invariant
                n <= keys@.len(),
                keys@ == old(self)@.keys(),
                keys@.to_set() == self@.outputs.dom(),
                self@ == old(self)@.normalized_outputs(keys@, n as int),
            decreases keys@.len() - n,
        {
            proof {
                assert(keys@.to_set().contains(keys@[n as int]));
            }
            let next: u32 = self.next_workspace_id;
            let ghost before = self@;
            match self.outputs.get_mut(keys[n]) {
                Some(set) => {
                    let next: u32 = set.normalize(next);
                    self.next_workspace_id = next;
                },
                None => {},
            }
            proof {
                assert(self@.outputs.dom() =~= before.outputs.dom());
            }
            n = n + 1;
        }
        let mut detached: Vec<Workspace> = Vec::new();
        std::mem::swap(&mut detached, &mut self.detached);
        self.detached = retain_occupied(detached);
    }
}

pub(crate) fn check_geometry(output: &Output) -> (r: Result<(), DesktopError>)
    ensures
        match geometry_fault(output@) {
            Some(fault) => r is Err && r->Err_0@ == fault,
            None => r is Ok,
        },
{
    if !output.physical_size.is_valid() || !output.logical_size.is_valid() {
        return Err(DesktopError::InvalidOutputSize);
    }
    if output.native_scale.0 == 0 {
        return Err(DesktopError::InvalidOutputScale);
    }
    Ok(())
}

fn tiled_is_coherent(tiled: &IdMap<TiledWindow>) -> (r: bool)
    ensures
        r == tiled_coherent(tiled@),
{
    let ids: Vec<u64> = tiled.keys();
    let mut i: usize = 0;
    while i < ids.len()
        invariant
            i <= ids@.len(),
            ids@.to_set() == tiled@.dom(),
            forall|k: int|
                0 <= k < i ==> tiled@[#[trigger] ids@[k]].id.0 == ids@[k]
                    && tiled@[ids@[k]].geometry.size.valid(),
        decreases ids@.len() - i,
    {
        proof {
            assert(ids@.to_set().contains(ids@[i as int]));
            assert(tiled@.contains_key(ids@[i as int]));
        }
        match tiled.get(ids[i]) {
            Some(window) => {
                if window.id.0 != ids[i] || !window.geometry.size.is_valid() {
                    return false;
                }
            },
            None => {},
        }
        i = i + 1;
    }
    proof {
        assert forall|k: u64| #[trigger] tiled@.contains_key(k) implies tiled@[k].id.0 == k
            && tiled@[k].geometry.size.valid() by {
            assert(ids@.to_set().contains(k));
            let x = choose|x: int| 0 <= x < ids@.len() && ids@[x] == k;
            assert(tiled@[ids@[x]].id.0 == ids@[x]);
        }
    }
    true
}

fn floating_is_coherent(floating: &IdMap<FloatingPlacement>) -> (r: bool)
    ensures
        r == floating_coherent(floating@),
{
    let ids: Vec<u64> = floating.keys();
    let mut i: usize = 0;
    while i < ids.len()
        invariant
            i <= ids@.len(),
            ids@.to_set() == floating@.dom(),
            forall|k: int|
                0 <= k < i ==> floating@[#[trigger] ids@[k]].window.0 == ids@[k]
                    && floating@[ids@[k]].viewport.rect.size.valid(),
        decreases ids@.len() - i,
    {
        proof {
            assert(ids@.to_set().contains(ids@[i as int]));
            assert(floating@.contains_key(ids@[i as int]));
        }
        match floating.get(ids[i]) {
            Some(placement) => {
                if placement.window.0 != ids[i] || !placement.viewport.rect.size.is_valid() {
                    return false;
                }
            },
            None => {},
        }
        i = i + 1;
    }
    proof {
        assert forall|k: u64| #[trigger] floating@.contains_key(k) implies floating@[k].window.0
            == k && floating@[k].viewport.rect.size.valid() by {
            assert(ids@.to_set().contains(k));
            let x = choose|x: int| 0 <= x < ids@.len() && ids@[x] == k;
            assert(floating@[ids@[x]].window.0 == ids@[x]);
        }
    }
    true
}

fn is_coherent(ws: &Workspace) -> (r: bool)
    ensures
        r == coherent(ws@),
{
    if !tiled_is_coherent(&ws.tiled) || !floating_is_coherent(&ws.floating) {
        return false;
    }
    match ws.focused_window {
        Some(window) => {
            if !ws.contains_window(window) {
                return false;
            }
        },
        None => {},
    }
    let mut i: usize = 0;
    while i < ws.focus_history.len()
        invariant
            i <= ws.focus_history@.len(),
            forall|k: int| 0 <= k < i ==> ws@.has(#[trigger] ws@.focus_history[k]),
            forall|a: int, b: int|
                0 <= a < b < i ==> ws@.focus_history[a] != ws@.focus_history[b],
        decreases ws.focus_history@.len() - i,
    {
        let window: WindowId = ws.focus_history[i];
        assert(ws@.focus_history[i as int] == window);
        if !ws.contains_window(window) {
            return false;
        }
        let mut j: usize = 0;
        while j < i
            invariant
                j <= i < ws.focus_history@.len(),
                window == ws@.focus_history[i as int],
                forall|k: int| 0 <= k < j ==> ws@.focus_history[k] != window,
            decreases i - j,
        {
            if ws.focus_history[j] == window {
                assert(ws@.focus_history[j as int] == ws@.focus_history[i as int]);
                return false;
            }
            j = j + 1;
        }
        i = i + 1;
    }
    true
}

fn list_windows(ws: &Workspace) -> (r: Vec<u64>)
    ensures
        r@ == windows_of(ws@),
{
    let mut list: Vec<u64> = ws.tiled.keys();
    let mut floating: Vec<u64> = ws.floating.keys();
    list.append(&mut floating);
    let ghost both = list@;
    match &ws.maximized {
        Some(maximized) => {
            list.push(maximized.window.0);
            assert(list@ =~= both + seq![maximized.window.0]);
        },
        None => {
            assert(list@ =~= both + Seq::<u64>::empty());
        },
    }
    let ghost three = list@;
    match &ws.fullscreen {
        Some(fullscreen) => {
            list.push(fullscreen.window.0);
            assert(list@ =~= three + seq![fullscreen.window.0]);
        },
        None => {
            assert(list@ =~= three + Seq::<u64>::empty());
        },
    }
    list
}

proof fn claim_fault_extends(
    owners: Map<u64, WorkspaceId>,
    list: Seq<u64>,
    n: int,
    m: int,
    id: WorkspaceId,
)
    requires
        0 <= n <= m,
        claim(owners, list, n, id) is Err,
    ensures
        claim(owners, list, m, id) == claim(owners, list, n, id),
    decreases m,
{
    if n < m {
        claim_fault_extends(owners, list, n, m - 1, id);
    }
}

proof fn claimed_fault_extends(all: Seq<workspace::WorkspaceView>, n: int, m: int)
    requires
        0 <= n <= m,
        claimed(all, n) is Err,
    ensures
        claimed(all, m) == claimed(all, n),
    decreases m,
{
    if n < m {
        claimed_fault_extends(all, n, m - 1);
    }
}

proof fn outputs_fault_extends(desktop: DesktopView, keys: Seq<u64>, n: int, m: int)
    requires
        0 <= n <= m,
        desktop.outputs_fault(keys, n) is Some,
    ensures
        desktop.outputs_fault(keys, m) == desktop.outputs_fault(keys, n),
    decreases m,
{
    if n < m {
        outputs_fault_extends(desktop, keys, n, m - 1);
    }
}

/// Adds the windows of a workspace to the owners.
fn claim_windows(owners: &mut IdMap<WorkspaceId>, list: &Vec<u64>, id: WorkspaceId) -> (r: Result<
    (),
    DesktopError,
>)
    ensures
        match claim(old(owners)@, list@, list@.len() as int, id) {
            Ok(map) => r is Ok && final(owners)@ == map,
            Err(fault) => r is Err && r->Err_0@ == fault,
        },
{
    let mut i: usize = 0;
    while i < list.len()
        invariant
            i <= list@.len(),
            claim(old(owners)@, list@, i as int, id) == Ok::<Map<u64, WorkspaceId>, DesktopFault>(
                owners@,
            ),
        decreases list@.len() - i,
    {
        let window: u64 = list[i];
        match owners.get(window) {
            Some(first) => {
                proof {
                    claim_fault_extends(
                        old(owners)@,
                        list@,
                        i + 1,
                        list@.len() as int,
                        id,
                    );
                }
                return Err(
                    DesktopError::DuplicateWindow {
                        window: WindowId(window),
                        first: *first,
                        second: id,
                    },
                );
            },
            None => {},
        }
        owners.insert(window, id);
        i = i + 1;
    }
    Ok(())
}

/// Checks a workspace of a list but for its windows.
fn check_identity(all: &Vec<&Workspace>, i: usize) -> (r: Result<(), DesktopError>)
    requires
        i < all@.len(),
    ensures
        match identity_fault(borrowed_views(all@), i as int) {
            Some(fault) => r is Err && r->Err_0@ == fault,
            None => r is Ok,
        },
{
    let ghost views = borrowed_views(all@);
    let ws: &Workspace = all[i];
    assert(views[i as int] == ws@);
    if !is_coherent(ws) {
        return Err(DesktopError::InvalidWorkspaceState(ws.id));
    }
    let mut j: usize = 0;
    while j < i
        invariant
            j <= i < all@.len(),
            views == borrowed_views(all@),
            views[i as int] == ws@,
            coherent(ws@),
            forall|k: int| 0 <= k < j ==> (#[trigger] views[k]).id != ws@.id,
        decreases i - j,
    {
        assert(views[j as int] == all@[j as int]@);
        if all[j].id == ws.id {
            return Err(DesktopError::UnknownWorkspace(ws.id));
        }
        j = j + 1;
    }
    match &ws.name {
        Some(name) => {
            let mut j: usize = 0;
            while j < i
                invariant
                    j <= i < all@.len(),
                    views == borrowed_views(all@),
                    views[i as int] == ws@,
                    coherent(ws@),
                    ws@.name == Some(name@),
                    forall|k: int| 0 <= k < i ==> (#[trigger] views[k]).id != ws@.id,
                    forall|k: int| 0 <= k < j ==> (#[trigger] views[k]).name != ws@.name,
                decreases i - j,
            {
                assert(views[j as int] == all@[j as int]@);
                let taken: bool = match &all[j].name {
                    Some(other) => same(other, name),
                    None => false,
                };
                if taken {
                    assert(views[j as int].name == ws@.name);
                    return Err(DesktopError::DuplicateWorkspaceName(name.clone()));
                }
                j = j + 1;
            }
        },
        None => {},
    }
    Ok(())
}

impl Desktop {
    /// Checks the output at a place of the list of keys.
    fn check_output(&self, keys: &Vec<u64>, i: usize) -> (r: Result<(), DesktopError>)
        requires
            i < keys@.len(),
            keys@.to_set() == self@.outputs.dom(),
        ensures
            match self@.output_fault(keys@, i as int) {
                Some(fault) => r is Err && r->Err_0@ == fault,
                None => r is Ok,
            },
    {
        proof {
            assert(keys@.to_set().contains(keys@[i as int]));
        }
        let set: &OutputWorkspaceSet = match self.outputs.get(keys[i]) {
            Some(set) => set,
            None => {
                return Ok(());
            },
        };
        match check_geometry(&set.output) {
            Ok(()) => {},
            Err(error) => {
                return Err(error);
            },
        }
        let mut j: usize = 0;
        while j < i
            invariant
                j <= i < keys@.len(),
                keys@.to_set() == self@.outputs.dom(),
                set@ == self@.outputs[keys@[i as int]],
                geometry_fault(set@.output) is None,
                forall|k: int|
                    0 <= k < j ==> (#[trigger] self@.outputs[keys@[k]]).output.stable_key
                        != set@.output.stable_key,
            decreases i - j,
        {
            proof {
                assert(keys@.to_set().contains(keys@[j as int]));
            }
            match self.outputs.get(keys[j]) {
                Some(other) => {
                    if same(&other.output.stable_key, &set.output.stable_key) {
                        return Err(
                            DesktopError::DuplicateOutputStableKey(set.output.stable_key.clone()),
                        );
                    }
                },
                None => {},
            }
            j = j + 1;
        }
        if set.output.id.0 as u64 != keys[i] || set.active >= set.workspaces.len() {
            return Err(DesktopError::UnknownOutput(OutputId(keys[i] as u32)));
        }
        let tail: usize = set.workspaces.len() - 1;
        assert(set@.workspaces.last() == set.workspaces@[tail as int]@);
        if set.workspaces[tail].has_windows_or_name() {
            return Err(DesktopError::UnknownOutput(OutputId(keys[i] as u32)));
        }
        Ok(())
    }

    /// Checks all invariants of the desktop.
    pub(crate) fn validate(&self) -> (r: Result<(), DesktopError>)
        ensures
            match self@.fault() {
                Some(fault) => r is Err && r->Err_0@ == fault,
                None => r is Ok,
            },
    {
        match self.primary_output {
            None => {
                if !self.outputs.is_empty() {
                    return Err(DesktopError::UnknownOutput(OutputId(u32::MAX)));
                }
            },
            Some(primary) => {
                if !self.outputs.contains_key(primary.0 as u64) {
                    return Err(DesktopError::UnknownOutput(primary));
                }
            },
        }
        let keys: Vec<u64> = self.outputs.keys();
        let mut n: usize = 0;
        while n < keys.len()
            invariant
                n <= keys@.len(),
                keys@ == self@.keys(),
                keys@.to_set() == self@.outputs.dom(),
                self@.primary_fault() is None,
                self@.outputs_fault(keys@, n as int) is None,
            decreases keys@.len() - n,
        {
            match self.check_output(&keys, n) {
                Ok(()) => {},
                Err(error) => {
                    proof {
                        outputs_fault_extends(self@, keys@, n + 1, keys@.len() as int);
                    }
                    return Err(error);
                },
            }
            n = n + 1;
        }
        let all: Vec<&Workspace> = self.workspaces();
        let mut owners: IdMap<WorkspaceId> = IdMap::new();
        let mut i: usize = 0;
        let ghost views = self@.all();
        while i < all.len()
            invariant
                i <= all@.len(),
                views == self@.all(),
                borrowed_views(all@) == views,
                self@.primary_fault() is None,
                self@.outputs_fault(self@.keys(), self@.keys().len() as int) is None,
                claimed(views, i as int) == Ok::<Map<u64, WorkspaceId>, DesktopFault>(owners@),
            decreases all@.len() - i,
        {
            assert(views.len() == all@.len());
            assert(views[i as int] == all@[i as int]@);
            match check_identity(&all, i) {
                Ok(()) => {},
                Err(error) => {
                    proof {
                        claimed_fault_extends(views, i + 1, views.len() as int);
                    }
                    return Err(error);
                },
            }
            let list: Vec<u64> = list_windows(all[i]);
            match claim_windows(&mut owners, &list, all[i].id) {
                Ok(()) => {},
                Err(error) => {
                    proof {
                        claimed_fault_extends(views, i + 1, views.len() as int);
                    }
                    return Err(error);
                },
            }
            i = i + 1;
        }
        assert(views.len() == all@.len());
        Ok(())
    }
}

} // verus!
