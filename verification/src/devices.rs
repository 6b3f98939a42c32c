//! Devices that come and go, their power, and the session that they are used in.

use crate::id_map::IdSet;
use crate::model::OutputId;
use crate::nested;
use crate::nested::earliest;
use crate::presentation;
use crate::presentation::{is_listed, NativeLoop, Surface, MAX_FRAMES_PER_BATCH};
use crate::ranking;
use crate::runtime;
use crate::runtime::{RenderRequest, RepaintReasons};
use vstd::prelude::*;

verus! {

impl Surface {
    /// An output that was just connected.
    pub open spec fn connected(device: u64, connector: u64, retrace: u64) -> Self {
        Surface {
            device,
            connector: Some(connector),
            retrace,
            pending: None,
            waiting_fence: None,
            exported_fence: None,
            requested_power_mode: None,
            committing_power_mode: None,
        }
    }
}

/// The scheduler with an output that is to be drawn whole.
pub open spec fn repainted(scheduler: runtime::SchedulerView, id: OutputId) -> runtime::SchedulerView {
    scheduler.added(id).requested(id, RepaintReasons(32), None)
}

/// The scheduler without the first `n` outputs of a list.
pub open spec fn unscheduled(
    scheduler: runtime::SchedulerView,
    list: Seq<OutputId>,
    n: int,
) -> runtime::SchedulerView
    decreases n,
{
    if n <= 0 {
        scheduler
    } else {
        unscheduled(scheduler, list, n - 1).removed(list[n - 1])
    }
}

impl presentation::NativeView {
    /// The loop when the first `n` of a list of power modes are wanted, and the outputs that are
    /// not there to have any.
    pub open spec fn power_wanted(self, requests: Seq<(OutputId, bool)>, n: int) -> (
        Self,
        Seq<OutputId>,
    )
        decreases n,
    {
        if n <= 0 {
            (self, Seq::empty())
        } else {
            let (before, unknown) = self.power_wanted(requests, n - 1);
            let (id, powered) = requests[n - 1];
            let k = id.0 as u64;
            if before.surfaces.contains_key(k) {
                (
                    before.with_surface(
                        k,
                        Surface { requested_power_mode: Some(powered), ..before.surfaces[k] },
                    ),
                    unknown,
                )
            } else {
                (before, unknown.push(id))
            }
        }
    }

    pub open spec fn usable(self, device: u64) -> bool {
        self.devices.contains_key(device) && self.devices[device]
    }

    /// The loop when the power modes that are wanted have been seen to, for the first `n` outputs
    /// of a list, and the outputs that are to be switched off. An output changes its power only
    /// while nothing is under way on it; it is switched on by the next frame.
    pub open spec fn power_applied(self, keys: Seq<u64>, n: int) -> (Self, Seq<OutputId>)
        decreases n,
    {
        if n <= 0 {
            (self, Seq::empty())
        } else {
            let (before, off) = self.power_applied(keys, n - 1);
            let k = keys[n - 1];
            let surface = before.surfaces[k];
            if !before.usable(surface.device) || !surface.idle() {
                (before, off)
            } else {
                match surface.requested_power_mode {
                    None => (before, off),
                    Some(true) => (
                        presentation::NativeView {
                            scheduler: repainted(before.scheduler, presentation::output(k)),
                            surfaces: before.surfaces.insert(
                                k,
                                Surface {
                                    requested_power_mode: None,
                                    committing_power_mode: Some(true),
                                    ..surface
                                },
                            ),
                            ..before
                        },
                        off,
                    ),
                    Some(false) => (
                        before.with_surface(
                            k,
                            Surface { requested_power_mode: None, ..surface },
                        ),
                        off.push(presentation::output(k)),
                    ),
                }
            }
        }
    }

    /// The loop when the session may not use its devices.
    pub open spec fn session_paused(self) -> Self {
        presentation::NativeView {
            scheduler: self.scheduler.pausing(),
            surfaces: self.surfaces.map_values(|surface: Surface| surface.paused()),
            devices: self.devices.map_values(|active: bool| false),
            session_active: false,
            ..self
        }
    }

    /// The loop when the session may use its devices again.
    pub open spec fn session_activated(self) -> Self {
        presentation::NativeView {
            scheduler: self.scheduler.resuming(),
            session_active: true,
            ..self
        }
    }

    /// The scheduler when a device may be used again, or not, for the first `n` outputs of a
    /// list: those that have power are drawn whole.
    pub open spec fn rescheduled(
        self,
        device: u64,
        usable: bool,
        powered: Seq<OutputId>,
        keys: Seq<u64>,
        n: int,
    ) -> runtime::SchedulerView
        decreases n,
    {
        if n <= 0 {
            self.scheduler
        } else {
            let before = self.rescheduled(device, usable, powered, keys, n - 1);
            let id = presentation::output(keys[n - 1]);
            if self.surfaces[keys[n - 1]].device != device {
                before
            } else if !usable {
                before.removed(id)
            } else if powered.contains(id) {
                repainted(before, id)
            } else {
                before
            }
        }
    }

    pub open spec fn device_activated(self, device: u64, usable: bool, powered: Seq<OutputId>) -> Self {
        presentation::NativeView {
            scheduler: self.rescheduled(
                device,
                usable,
                powered,
                self.keys(),
                self.keys().len() as int,
            ),
            devices: self.devices.insert(device, usable),
            ..self
        }
    }

    /// The outputs on the connectors of a device among the first `n` of a list.
    pub open spec fn outputs_of(self, device: u64, keys: Seq<u64>, n: int) -> Seq<OutputId>
        decreases n,
    {
        if n <= 0 {
            Seq::empty()
        } else if self.surfaces[keys[n - 1]].device == device
            && self.surfaces[keys[n - 1]].connector is Some {
            self.outputs_of(device, keys, n - 1).push(presentation::output(keys[n - 1]))
        } else {
            self.outputs_of(device, keys, n - 1)
        }
    }

    /// The outputs on the connectors of a device.
    pub open spec fn outputs_on(self, device: u64) -> Seq<OutputId> {
        self.outputs_of(device, self.keys(), self.keys().len() as int)
    }

    /// The loop without an output.
    pub open spec fn without_output(self, id: OutputId) -> Self {
        presentation::NativeView {
            scheduler: self.scheduler.removed(id),
            surfaces: self.surfaces.remove(id.0 as u64),
            ..self
        }
    }

    /// The loop with an output that nothing is drawn on any more and that is on no connector.
    pub open spec fn unconnected(self, id: OutputId) -> Self {
        let k = id.0 as u64;
        presentation::NativeView {
            scheduler: self.scheduler.removed(id),
            surfaces: if self.surfaces.contains_key(k) {
                self.surfaces.insert(k, Surface { connector: None, ..self.surfaces[k] })
            } else {
                self.surfaces
            },
            ..self
        }
    }

    /// The surfaces that are on other devices.
    pub open spec fn surfaces_off(self, device: u64) -> Map<u64, Surface> {
        Map::new(
            |k: u64| self.surfaces.contains_key(k) && self.surfaces[k].device != device,
            |k: u64| self.surfaces[k],
        )
    }

    /// The loop without a device and all that is on it.
    pub open spec fn without_device(self, device: u64) -> Self {
        presentation::NativeView {
            scheduler: unscheduled(
                self.scheduler,
                self.outputs_on(device),
                self.outputs_on(device).len() as int,
            ),
            surfaces: self.surfaces_off(device),
            devices: self.devices.remove(device),
            deferred: self.deferred.remove(device),
            ..self
        }
    }

    /// The loop with an output more, which is drawn whole.
    pub open spec fn with_output(self, id: OutputId, surface: Surface) -> Self {
        presentation::NativeView {
            scheduler: repainted(self.scheduler, id),
            surfaces: self.surfaces.insert(id.0 as u64, surface),
            ..self
        }
    }

    /// The first of the first `n` outputs of a list that is on a connector.
    pub open spec fn connected_among(
        self,
        device: u64,
        connector: u64,
        keys: Seq<u64>,
        n: int,
    ) -> Option<OutputId>
        decreases n,
    {
        if n <= 0 {
            None
        } else {
            match self.connected_among(device, connector, keys, n - 1) {
                Some(id) => Some(id),
                None => if self.surfaces[keys[n - 1]].device == device
                    && self.surfaces[keys[n - 1]].connector == Some(connector) {
                    Some(presentation::output(keys[n - 1]))
                } else {
                    None
                },
            }
        }
    }

    /// The scheduler when a frame has been asked for on the first `n` outputs of a list.
    pub open spec fn all_requested(
        self,
        reason: RepaintReasons,
        keys: Seq<u64>,
        n: int,
    ) -> runtime::SchedulerView
        decreases n,
    {
        if n <= 0 {
            self.scheduler
        } else {
            self.all_requested(reason, keys, n - 1).requested(
                presentation::output(keys[n - 1]),
                reason,
                None,
            )
        }
    }

    /// When the frames without changes count as shown.
    pub open spec fn software_deadlines(self) -> Seq<Option<u64>> {
        Seq::new(
            self.keys().len(),
            |i: int|
                match self.surfaces[self.keys()[i]].pending {
                    Some(frame) => frame.deadline,
                    None => None,
                },
        )
    }

    /// When the fences are to be looked at.
    pub open spec fn fence_deadlines(self, keys: Seq<u64>, n: int) -> Seq<Option<u64>>
        decreases n,
    {
        if n <= 0 {
            Seq::empty()
        } else {
            let surface = self.surfaces[keys[n - 1]];
            self.fence_deadlines(keys, n - 1).push(
                match surface.waiting_fence {
                    Some(fence) => Some(fence.deadline),
                    None => None,
                },
            ).push(
                match surface.exported_fence {
                    Some(fence) => Some(fence.deadline),
                    None => None,
                },
            )
        }
    }

    /// The requests of a list that are for outputs which are there, and the scheduler without the
    /// others.
    pub open spec fn routed(
        self,
        scheduler: runtime::SchedulerView,
        requests: Seq<RenderRequest>,
        n: int,
    ) -> (runtime::SchedulerView, Seq<RenderRequest>)
        decreases n,
    {
        if n <= 0 {
            (scheduler, Seq::empty())
        } else {
            let (before, list) = self.routed(scheduler, requests, n - 1);
            if self.surfaces.contains_key(requests[n - 1].output.0 as u64) {
                (before, list.push(requests[n - 1]))
            } else {
                (before.removed(requests[n - 1].output), list)
            }
        }
    }

    /// The loop when the frames that are due have been begun, and what is to be drawn.
    pub open spec fn rendering(self, now: u64) -> (Self, Seq<RenderRequest>) {
        let (scheduler, requests) = self.scheduler.begun(now, MAX_FRAMES_PER_BATCH);
        let (kept, list) = self.routed(scheduler, requests, requests.len() as int);
        (presentation::NativeView { scheduler: kept, ..self }, list)
    }
}

/// What leaves the schedule does not rest on what follows in a list.
proof fn scheduled_alike(
    scheduler: runtime::SchedulerView,
    list: Seq<OutputId>,
    more: Seq<OutputId>,
    n: int,
)
    requires
        0 <= n <= list.len() <= more.len(),
        forall|i: int| 0 <= i < list.len() ==> list[i] == more[i],
    ensures
        unscheduled(scheduler, list, n) == unscheduled(scheduler, more, n),
    decreases n,
{
    if n > 0 {
        scheduled_alike(scheduler, list, more, n - 1);
    }
}

impl NativeLoop {
    fn repaint(&mut self, id: OutputId)
        ensures
            final(self)@ == (presentation::NativeView {
                scheduler: repainted(old(self)@.scheduler, id),
                ..old(self)@
            }),
    {
        self.scheduler.add_output(id);
        self.scheduler.request(id, RepaintReasons::full_repaint());
    }

    /// Takes in which power modes are wanted. Gives the outputs that are not there.
    pub fn want_power(&mut self, requests: &Vec<(OutputId, bool)>) -> (r: Vec<OutputId>)
        ensures
            (final(self)@, r@) == old(self)@.power_wanted(requests@, requests@.len() as int),
    {
        let mut unknown: Vec<OutputId> = Vec::new();
        let mut i: usize = 0;
        assert(unknown@ =~= Seq::empty());
        while i < requests.len()
            invariant
                i <= requests@.len(),
                (self@, unknown@) == old(self)@.power_wanted(requests@, i as int),
            decreases requests@.len() - i,
        {
            let (id, powered): (OutputId, bool) = requests[i];
            match self.surface(id.0 as u64) {
                Some(surface) => {
                    let mut surface: Surface = surface;
                    surface.requested_power_mode = Some(powered);
                    self.set_surface(id.0 as u64, surface);
                },
                None => unknown.push(id),
            }
            i = i + 1;
        }
        unknown
    }

    fn is_usable(&self, device: u64) -> (r: bool)
        ensures
            r == self@.usable(device),
    {
        match self.devices.get(device) {
            Some(active) => *active,
            None => false,
        }
    }

    /// Sees to the power modes that are wanted. Gives the outputs that are to be switched off.
    pub fn apply_output_power_requests(&mut self) -> (r: Vec<OutputId>)
        ensures
            (final(self)@, r@) == old(self)@.power_applied(
                old(self)@.keys(),
                old(self)@.keys().len() as int,
            ),
    {
        let keys: Vec<u64> = self.surfaces.keys();
        let ghost start = self@;
        let mut off: Vec<OutputId> = Vec::new();
        let mut i: usize = 0;
        assert(off@ =~= Seq::empty());
        while i < keys.len()
            invariant
                i <= keys@.len(),
                keys@ == start.keys(),
                keys@.to_set() == start.surfaces.dom(),
                (self@, off@) == start.power_applied(keys@, i as int),
                self@.surfaces.dom() == start.surfaces.dom(),
            decreases keys@.len() - i,
        {
            let k: u64 = keys[i];
            assert(keys@.to_set().contains(k));
            assert(self@.surfaces.contains_key(k));
            let ghost before = self@;
            if let Some(surface) = self.surface(k) {
                let mut surface: Surface = surface;
                let idle: bool = surface.pending.is_none() && surface.waiting_fence.is_none()
                    && surface.exported_fence.is_none() && surface.committing_power_mode.is_none();
                if self.is_usable(surface.device) && idle {
                    if let Some(powered) = surface.requested_power_mode {
                        surface.requested_power_mode = None;
                        if powered {
                            surface.committing_power_mode = Some(true);
                            self.set_surface(k, surface);
                            self.repaint(OutputId(k as u32));
                        } else {
                            self.set_surface(k, surface);
                            off.push(OutputId(k as u32));
                        }
                    }
                }
            }
            assert(self@.surfaces.dom() =~= before.surfaces.dom());
            i = i + 1;
        }
        off
    }

    /// Takes in that an output has been switched off.
    pub fn switched_off(&mut self, id: OutputId)
        ensures
            final(self)@ == (presentation::NativeView {
                scheduler: old(self)@.scheduler.removed(id),
                ..old(self)@
            }),
    {
        self.scheduler.remove_output(id);
    }

    /// Takes in that the session may not use its devices.
    pub fn pause_session(&mut self)
        ensures
            final(self)@ == old(self)@.session_paused(),
    {
        self.session_active = false;
        self.scheduler.pause();
        let ghost start = self@;
        let devices: Vec<u64> = self.devices.keys();
        let mut i: usize = 0;
        while i < devices.len()
            invariant
                i <= devices@.len(),
                devices@.to_set() == start.devices.dom(),
                self@ == (presentation::NativeView { devices: self@.devices, ..start }),
                self@.devices.dom() == start.devices.dom(),
                forall|j: int| 0 <= j < i ==> !self@.devices[#[trigger] devices@[j]],
            decreases devices@.len() - i,
        {
            let ghost before = self@.devices;
            assert(devices@.to_set().contains(devices@[i as int]));
            self.devices.insert(devices[i], false);
            assert(self@.devices.dom() =~= before.dom());
            i = i + 1;
        }
        assert(self@.devices =~= old(self)@.session_paused().devices) by {
            assert forall|k: u64| start.devices.contains_key(k) implies !self@.devices[k] by {
                assert(devices@.to_set().contains(k));
                let j = devices@.index_of(k);
                assert(devices@[j] == k);
            }
        }
        let ghost middle = self@;
        let keys: Vec<u64> = self.surfaces.keys();
        let mut n: usize = 0;
        while n < keys.len()
            invariant
                n <= keys@.len(),
                keys@.to_set() == middle.surfaces.dom(),
                keys@.no_duplicates(),
                self@ == (presentation::NativeView { surfaces: self@.surfaces, ..middle }),
                self@.surfaces.dom() == middle.surfaces.dom(),
                forall|j: int|
                    0 <= j < n ==> self@.surfaces[#[trigger] keys@[j]]
                        == middle.surfaces[keys@[j]].paused(),
                forall|j: int|
                    n <= j < keys@.len() ==> self@.surfaces[#[trigger] keys@[j]]
                        == middle.surfaces[keys@[j]],
            decreases keys@.len() - n,
        {
            let k: u64 = keys[n];
            assert(keys@.to_set().contains(k));
            let ghost before = self@.surfaces;
            if let Some(surface) = self.surface(k) {
                let mut surface: Surface = surface;
                if let Some(powered) = surface.committing_power_mode {
                    surface.requested_power_mode = Some(powered);
                }
                surface.committing_power_mode = None;
                surface.pending = None;
                surface.waiting_fence = None;
                surface.exported_fence = None;
                self.set_surface(k, surface);
            }
            assert(self@.surfaces.dom() =~= before.dom());
            n = n + 1;
        }
        assert(self@.surfaces =~= old(self)@.session_paused().surfaces) by {
            assert forall|k: u64| middle.surfaces.contains_key(k) implies self@.surfaces[k]
                == middle.surfaces[k].paused() by {
                assert(keys@.to_set().contains(k));
                let j = keys@.index_of(k);
                assert(keys@[j] == k);
            }
        }
    }

    /// Takes in that the session may use its devices again.
    pub fn activate_session(&mut self)
        ensures
            final(self)@ == old(self)@.session_activated(),
    {
        self.session_active = true;
        self.scheduler.resume();
    }

    /// Takes in whether a device works again; `powered` lists the outputs that have power.
    pub fn activate_device(&mut self, device: u64, usable: bool, powered: &Vec<OutputId>)
        ensures
            final(self)@ == old(self)@.device_activated(device, usable, powered@),
    {
        let keys: Vec<u64> = self.surfaces.keys();
        let ghost start = self@;
        let mut i: usize = 0;
        while i < keys.len()
            invariant
                i <= keys@.len(),
                keys@ == start.keys(),
                keys@.to_set() == start.surfaces.dom(),
                self@ == (presentation::NativeView {
                    scheduler: start.rescheduled(device, usable, powered@, keys@, i as int),
                    ..start
                }),
            decreases keys@.len() - i,
        {
            let k: u64 = keys[i];
            assert(keys@.to_set().contains(k));
            let id: OutputId = OutputId(k as u32);
            if let Some(surface) = self.surface(k) {
                if surface.device == device {
                    if !usable {
                        self.scheduler.remove_output(id);
                    } else if is_listed(powered, id) {
                        self.repaint(id);
                    }
                }
            }
            i = i + 1;
        }
        self.devices.insert(device, usable);
    }

    /// Takes in a device, unless it is there already.
    pub fn add_device(&mut self, device: u64) -> (r: bool)
        ensures
            r == !old(self)@.devices.contains_key(device),
            final(self)@ == if r {
                presentation::NativeView {
                    devices: old(self)@.devices.insert(device, true),
                    ..old(self)@
                }
            } else {
                old(self)@
            },
    {
        if self.devices.contains_key(device) {
            return false;
        }
        self.devices.insert(device, true);
        true
    }

    /// Takes in a device that has come. Says whether it is to be set up now: not while the session
    /// is paused, nor when it is there already.
    pub fn device_appeared(&mut self, device: u64) -> (r: bool)
        ensures
            r == (old(self)@.session_active && !old(self)@.devices.contains_key(device)),
            final(self)@ == if old(self)@.session_active {
                old(self)@
            } else {
                presentation::NativeView {
                    deferred: old(self)@.deferred.insert(device),
                    ..old(self)@
                }
            },
    {
        if !self.session_active {
            self.deferred.insert(device);
            return false;
        }
        !self.devices.contains_key(device)
    }

    /// The devices that came while the session was paused, to be set up now.
    pub fn take_deferred(&mut self) -> (r: Vec<u64>)
        ensures
            r@ == ranking::ascending(old(self)@.deferred),
            final(self)@ == (presentation::NativeView { deferred: Set::empty(), ..old(self)@ }),
    {
        let ids: Vec<u64> = self.deferred.ids();
        self.deferred = IdSet::new();
        ids
    }

    /// Takes in an output that was connected.
    pub fn add_output(&mut self, id: OutputId, device: u64, connector: u64, retrace: u64)
        ensures
            final(self)@ == old(self)@.with_output(
                id,
                Surface::connected(device, connector, retrace),
            ),
    {
        self.set_surface(
            id.0 as u64,
            Surface {
                device,
                connector: Some(connector),
                retrace,
                pending: None,
                waiting_fence: None,
                exported_fence: None,
                requested_power_mode: None,
                committing_power_mode: None,
            },
        );
        self.repaint(id);
    }

    pub fn remove_output(&mut self, id: OutputId)
        ensures
            final(self)@ == old(self)@.without_output(id),
    {
        self.scheduler.remove_output(id);
        self.surfaces.remove(id.0 as u64);
    }

    /// The output on a connector.
    pub fn find_connector(&self, device: u64, connector: u64) -> (r: Option<OutputId>)
        ensures
            r == self@.connected_among(
                device,
                connector,
                self@.keys(),
                self@.keys().len() as int,
            ),
    {
        let keys: Vec<u64> = self.surfaces.keys();
        let mut found: Option<OutputId> = None;
        let mut i: usize = 0;
        while i < keys.len()
            invariant
                i <= keys@.len(),
                keys@ == self@.keys(),
                keys@.to_set() == self@.surfaces.dom(),
                found == self@.connected_among(device, connector, keys@, i as int),
            decreases keys@.len() - i,
        {
            assert(keys@.to_set().contains(keys@[i as int]));
            if let Some(surface) = self.surface(keys[i]) {
                let plugged: bool = match surface.connector {
                    Some(other) => other == connector,
                    None => false,
                };
                if found.is_none() && surface.device == device && plugged {
                    found = Some(OutputId(keys[i] as u32));
                }
            }
            i = i + 1;
        }
        found
    }

    /// Takes an output off its connector; nothing is drawn on it any more.
    pub(crate) fn unconnect(&mut self, id: OutputId)
        ensures
            final(self)@ == old(self)@.unconnected(id),
    {
        self.scheduler.remove_output(id);
        if let Some(surface) = self.surface(id.0 as u64) {
            let mut surface: Surface = surface;
            surface.connector = None;
            self.set_surface(id.0 as u64, surface);
        }
    }

    /// Takes in that a device has gone. Gives the outputs that were on its connectors.
    pub fn remove_device(&mut self, device: u64) -> (r: Vec<OutputId>)
        ensures
            r@ == old(self)@.outputs_on(device),
            final(self)@ == old(self)@.without_device(device),
    {
        let keys: Vec<u64> = self.surfaces.keys();
        let ghost start = self@;
        let mut list: Vec<OutputId> = Vec::new();
        let mut i: usize = 0;
        assert(list@ =~= Seq::empty());
        while i < keys.len()
            invariant
                i <= keys@.len(),
                keys@ == start.keys(),
                keys@.to_set() == start.surfaces.dom(),
                keys@.no_duplicates(),
                list@ == start.outputs_of(device, keys@, i as int),
                self@ == (presentation::NativeView {
                    scheduler: self@.scheduler,
                    surfaces: self@.surfaces,
                    ..start
                }),
                self@.scheduler == unscheduled(start.scheduler, list@, list@.len() as int),
                forall|k: u64| #[trigger]
                    self@.surfaces.contains_key(k) <==> start.surfaces.contains_key(k) && !(
                    keys@.take(i as int).contains(k) && start.surfaces[k].device == device),
                forall|k: u64| #[trigger]
                    self@.surfaces.contains_key(k) ==> self@.surfaces[k] == start.surfaces[k],
            decreases keys@.len() - i,
        {
            let k: u64 = keys[i];
            let ghost before = self@;
            let ghost listed = list@;
            assert(keys@.to_set().contains(k));
            assert(start.surfaces.contains_key(k));
            assert(!keys@.take(i as int).contains(k)) by {
                if keys@.take(i as int).contains(k) {
                    let j = keys@.take(i as int).index_of(k);
                    assert(keys@[j] == keys@[i as int]);
                }
            }
            assert(self@.surfaces.contains_key(k));
            if let Some(surface) = self.surface(k) {
                if surface.device == device {
                    let id: OutputId = OutputId(k as u32);
                    if surface.connector.is_some() {
                        self.scheduler.remove_output(id);
                        list.push(id);
                        proof {
                            scheduled_alike(start.scheduler, listed, list@, listed.len() as int);
                        }
                    }
                    self.surfaces.remove(k);
                }
            }
            i = i + 1;
            assert forall|x: u64| #[trigger]
                self@.surfaces.contains_key(x) <==> start.surfaces.contains_key(x) && !(
                keys@.take(i as int).contains(x) && start.surfaces[x].device == device) by {
                assert(keys@.take(i as int) =~= keys@.take(i - 1).push(k));
                assert(keys@.take(i as int).contains(x) <==> keys@.take(i - 1).contains(x) || x
                    == k) by {
                    if keys@.take(i - 1).contains(x) {
                        let j = keys@.take(i - 1).index_of(x);
                        assert(keys@.take(i as int)[j] == x);
                    }
                    if x == k {
                        assert(keys@.take(i as int)[i - 1] == x);
                    }
                }
                assert(before.surfaces.contains_key(x) || !before.surfaces.contains_key(x));
            }
        }
        self.devices.remove(device);
        self.deferred.remove(device);
        proof {
            assert(keys@.take(i as int) =~= keys@);
            assert forall|k: u64| self@.surfaces.contains_key(k) == start.surfaces_off(
                device,
            ).contains_key(k) by {
                assert(keys@.to_set().contains(k) == start.surfaces.contains_key(k));
                assert(keys@.contains(k) == keys@.to_set().contains(k));
            }
            assert(self@.surfaces =~= start.surfaces_off(device));
        }
        list
    }

    /// Asks for a frame on every output.
    pub fn request_all(&mut self, reason: RepaintReasons)
        ensures
            final(self)@ == (presentation::NativeView {
                scheduler: old(self)@.all_requested(
                    reason,
                    old(self)@.keys(),
                    old(self)@.keys().len() as int,
                ),
                ..old(self)@
            }),
    {
        let keys: Vec<u64> = self.surfaces.keys();
        let ghost start = self@;
        let mut i: usize = 0;
        while i < keys.len()
            invariant
                i <= keys@.len(),
                keys@ == start.keys(),
                self@ == (presentation::NativeView {
                    scheduler: start.all_requested(reason, keys@, i as int),
                    ..start
                }),
            decreases keys@.len() - i,
        {
            self.scheduler.request(OutputId(keys[i] as u32), reason);
            i = i + 1;
        }
    }

    /// When the next frame without changes counts as shown.
    pub fn next_software_presentation(&self) -> (r: Option<u64>)
        ensures
            r == nested::soonest(self@.software_deadlines()),
    {
        let keys: Vec<u64> = self.surfaces.keys();
        let ghost goal = self@.software_deadlines();
        let mut times: Vec<Option<u64>> = Vec::new();
        let mut i: usize = 0;
        while i < keys.len()
            invariant
                i <= keys@.len(),
                keys@ == self@.keys(),
                keys@.to_set() == self@.surfaces.dom(),
                goal == self@.software_deadlines(),
                times@ == goal.take(i as int),
            decreases keys@.len() - i,
        {
            assert(keys@.to_set().contains(keys@[i as int]));
            let time: Option<u64> = match self.surface(keys[i]) {
                Some(surface) => match surface.pending {
                    Some(frame) => frame.deadline,
                    None => None,
                },
                None => None,
            };
            times.push(time);
            i = i + 1;
            assert(times@ =~= goal.take(i as int));
        }
        assert(goal.take(i as int) =~= goal);
        earliest(times.as_slice())
    }

    /// When the next fence is to be looked at.
    pub fn next_fence_check(&self) -> (r: Option<u64>)
        ensures
            r == nested::soonest(
                self@.fence_deadlines(self@.keys(), self@.keys().len() as int),
            ),
    {
        let keys: Vec<u64> = self.surfaces.keys();
        let mut times: Vec<Option<u64>> = Vec::new();
        let mut i: usize = 0;
        assert(times@ =~= Seq::empty());
        while i < keys.len()
            invariant
                i <= keys@.len(),
                keys@ == self@.keys(),
                keys@.to_set() == self@.surfaces.dom(),
                times@ == self@.fence_deadlines(keys@, i as int),
            decreases keys@.len() - i,
        {
            assert(keys@.to_set().contains(keys@[i as int]));
            if let Some(surface) = self.surface(keys[i]) {
                times.push(
                    match surface.waiting_fence {
                        Some(fence) => Some(fence.deadline),
                        None => None,
                    },
                );
                times.push(
                    match surface.exported_fence {
                        Some(fence) => Some(fence.deadline),
                        None => None,
                    },
                );
            }
            i = i + 1;
        }
        earliest(times.as_slice())
    }

    /// Begins the frames that are due. Gives what is to be drawn.
    pub fn render_all(&mut self, now: u64) -> (r: Vec<RenderRequest>)
        ensures
            (final(self)@, r@) == old(self)@.rendering(now),
    {
        let ghost start = self@;
        let requests: Vec<RenderRequest> = self.scheduler.begin_ready(now, MAX_FRAMES_PER_BATCH);
        let ghost begun = self@.scheduler;
        let mut list: Vec<RenderRequest> = Vec::new();
        let mut i: usize = 0;
        assert(list@ =~= Seq::empty());
        while i < requests.len()
            invariant
                i <= requests@.len(),
                (self@.scheduler, list@) == start.routed(begun, requests@, i as int),
                self@ == (presentation::NativeView { scheduler: self@.scheduler, ..start }),
            decreases requests@.len() - i,
        {
            if self.surfaces.contains_key(requests[i].output.0 as u64) {
                list.push(requests[i]);
            } else {
                self.scheduler.remove_output(requests[i].output);
            }
            i = i + 1;
        }
        list
    }

    /// Begins to shut down: nothing more is drawn, and what waits for clients has some time to
    /// reach them.
    pub fn begin_shutdown(&mut self, now: u64)
        ensures
            final(self)@ == match old(self)@.shutdown_deadline {
                Some(_) => old(self)@,
                None => presentation::NativeView {
                    scheduler: old(self)@.scheduler.pausing(),
                    shutdown_deadline: Some(nested::later(now, nested::SHUTDOWN_GRACE)),
                    ..old(self)@
                },
            },
    {
        if self.shutdown_deadline.is_none() {
            self.shutdown_deadline = Some(now.saturating_add(nested::SHUTDOWN_GRACE));
            self.scheduler.pause();
        }
    }

    pub fn shutdown_complete(&self, pending: bool, now: u64) -> (r: bool)
        ensures
            r == nested::drained(self@.shutdown_deadline, pending, now),
    {
        match self.shutdown_deadline {
            Some(at) => !pending || at <= now,
            None => false,
        }
    }
}

} // verus!
