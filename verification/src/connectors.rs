//! Connectors that outputs are plugged into, and what the events of the native backend ask for.

use crate::desktop;
use crate::desktop::{Desktop, DesktopError};
use crate::geometry::Size;
use crate::model::OutputId;
use crate::native_policy;
use crate::native_policy::{
    mode_place, plan_outputs, ConnectorSnapshot, ModeCandidate, PlannedOutput,
};
use crate::nested;
use crate::nested::{earliest, wait_for};
use crate::outputs;
use crate::outputs::{Output, OutputTransform, Scale120};
use crate::presentation;
use crate::presentation::{NativeLoop, Prepared, Surface};
use crate::ranking;
use crate::text;
use crate::text::push_decimal;
use vstd::prelude::*;

verus! {

/// What a device says of a connector that something was plugged into.
#[derive(Debug)]
pub struct ConnectorReport {
    /// There is something to drive it with.
    pub driven: bool,
    pub interface: String,
    pub interface_id: u32,
    pub edid: Option<Vec<u8>>,
    pub modes: Vec<ModeCandidate>,
}

#[verifier::ext_equal]
pub struct ReportView {
    pub driven: bool,
    pub interface: Seq<char>,
    pub interface_id: u32,
    pub edid: Option<Seq<u8>>,
    pub modes: Seq<ModeCandidate>,
}

impl View for ConnectorReport {
    type V = ReportView;

    open spec fn view(&self) -> ReportView {
        ReportView {
            driven: self.driven,
            interface: self.interface@,
            interface_id: self.interface_id,
            edid: native_policy::edid_bytes(self.edid),
            modes: self.modes@,
        }
    }
}

/// An output that is to be set up on a connector.
#[derive(Debug)]
pub struct NewOutput {
    pub output: Output,
    /// The place of its mode among those of the connector.
    pub mode: usize,
    /// The name of the connector.
    pub name: String,
    /// The name of the connector that no other device has.
    pub alias: String,
}

#[verifier::ext_equal]
pub struct NewView {
    pub output: outputs::OutputView,
    pub mode: int,
    pub name: Seq<char>,
    pub alias: Seq<char>,
}

impl View for NewOutput {
    type V = NewView;

    open spec fn view(&self) -> NewView {
        NewView {
            output: self.output@,
            mode: self.mode as int,
            name: self.name@,
            alias: self.alias@,
        }
    }
}

/// Whether a mode stands first at a place.
pub open spec fn stands_first(modes: Seq<ModeCandidate>, mode: ModeCandidate, i: int) -> bool {
    &&& 0 <= i < modes.len()
    &&& modes[i] == mode
    &&& forall|j: int| 0 <= j < i ==> modes[j] != mode
}

impl ReportView {
    /// Whether an output can be set up on the connector.
    pub open spec fn usable(self) -> bool {
        self.driven && self.modes.len() > 0
    }

    pub open spec fn name(self) -> Seq<char> {
        self.interface + "-"@ + text::decimal(self.interface_id as int)
    }

    pub open spec fn alias(self, device: Seq<char>) -> Seq<char> {
        device + ":"@ + self.name()
    }

    pub open spec fn plan(self, device: Seq<char>) -> native_policy::PlannedView {
        native_policy::ConnectorView {
            connector: self.alias(device),
            edid: self.edid,
            modes: self.modes,
            non_desktop: false,
        }.planned()
    }

    /// The output that is set up on the connector of a device: in the mode that is selected, and
    /// under the key that its screen keeps wherever it is plugged in.
    pub open spec fn new_output(self, device: Seq<char>, id: OutputId) -> NewView {
        let plan = self.plan(device);
        let size = Size { width: plan.mode.width as i64, height: plan.mode.height as i64 };
        NewView {
            output: outputs::OutputView {
                id,
                stable_key: plan.stable_key,
                physical_size: size,
                logical_size: size,
                native_scale: Scale120(120),
                transform: OutputTransform::Normal,
            },
            mode: choose|i: int| stands_first(self.modes, plan.mode, i),
            name: self.name(),
            alias: self.alias(device),
        }
    }
}

/// The desktop without an output, where it can be without it.
pub open spec fn let_go(d: desktop::DesktopView, id: OutputId) -> desktop::DesktopView {
    match d.disconnected(id) {
        Ok(after) => after,
        Err(_) => d,
    }
}

/// The desktop without the first `n` outputs of a list.
pub open spec fn let_all_go(d: desktop::DesktopView, list: Seq<OutputId>, n: int) -> desktop::DesktopView
    decreases n,
{
    if n <= 0 {
        d
    } else {
        let_go(let_all_go(d, list, n - 1), list[n - 1])
    }
}

fn name_of(report: &ConnectorReport) -> (r: String)
    ensures
        r@ == report@.name(),
{
    let mut name: String = report.interface.clone();
    name.push('-');
    push_decimal(&mut name, report.interface_id as u64);
    assert(name@ =~= report@.name()) by {
        reveal_strlit("-");
    }
    name
}

fn alias_of(device: &String, name: &String) -> (r: String)
    ensures
        r@ == device@ + ":"@ + name@,
{
    let mut alias: String = device.clone();
    alias.push(':');
    alias.append(name.as_str());
    assert(alias@ =~= device@ + ":"@ + name@) by {
        reveal_strlit(":");
    }
    alias
}

fn plan_of(report: &ConnectorReport, device: &String) -> (r: PlannedOutput)
    requires
        report@.usable(),
    ensures
        r@ == report@.plan(device@),
        report@.modes.contains(r.mode),
{
    let edid: Option<Vec<u8>> = match &report.edid {
        Some(edid) => {
            let copy: Vec<u8> = edid.clone();
            assert(copy@ =~= edid@);
            Some(copy)
        },
        None => None,
    };
    let modes: Vec<ModeCandidate> = report.modes.clone();
    assert(modes@ =~= report.modes@);
    let snapshot = ConnectorSnapshot {
        connector: alias_of(device, &name_of(report)),
        edid,
        modes,
        non_desktop: false,
    };
    let ghost seen = snapshot@;
    let mut list: Vec<ConnectorSnapshot> = Vec::new();
    list.push(snapshot);
    proof {
        let views = native_policy::connector_views(list@);
        assert(views =~= seq![seen]);
        assert(views.drop_last() =~= Seq::empty());
        assert(native_policy::plan(views.drop_last()) =~= Seq::empty());
        assert(native_policy::plan(views) =~= seq![seen.planned()]);
    }
    let mut planned: Vec<PlannedOutput> = plan_outputs(&list);
    proof {
        assert(native_policy::planned_views(planned@).len() == 1);
        assert(native_policy::planned_views(planned@)[0] == seen.planned());
        let i = native_policy::selection_exists(seen.modes);
        assert(native_policy::is_selected(seen.modes, i));
    }
    planned.swap_remove(0)
}

impl presentation::NativeView {
    /// The loop when an output has been planned for a connector.
    pub open spec fn numbered(self) -> Self {
        presentation::NativeView {
            next_output_id: (self.next_output_id + 1) as u32,
            ..self
        }
    }

    /// What comes of a report on a connector: the loop and the desktop after it, and the output
    /// that is to be set up, unless none can be or the desktop does not take it.
    pub open spec fn plugged_in(
        self,
        d: desktop::DesktopView,
        device: Seq<char>,
        report: ReportView,
    ) -> (Self, desktop::DesktopView, Result<Option<NewView>, desktop::DesktopFault>) {
        if !report.usable() {
            (self, d, Ok(None))
        } else {
            let planned = report.new_output(device, OutputId(self.next_output_id));
            match d.connected(planned.output) {
                Ok(after) => (self.numbered(), after, Ok(Some(planned))),
                Err(fault) => (self.numbered(), d, Err(fault)),
            }
        }
    }

    /// What comes of the attempt to set up an output that the desktop has taken. It gives how
    /// long a frame is shown, or has failed, and the output is taken back.
    pub open spec fn set_up(
        self,
        d: desktop::DesktopView,
        id: OutputId,
        device: u64,
        connector: u64,
        retrace: Option<u64>,
    ) -> (Self, desktop::DesktopView) {
        match retrace {
            Some(retrace) => (
                self.with_output(id, Surface::connected(device, connector, retrace)),
                d,
            ),
            None => (self, let_go(d, id)),
        }
    }

    /// What comes of pulling the plug of a connector. Where nothing drives the connector, what is
    /// under way on the output stays with the device.
    pub open spec fn unplugged(
        self,
        d: desktop::DesktopView,
        device: u64,
        connector: u64,
        driven: bool,
    ) -> (Self, desktop::DesktopView, Option<OutputId>) {
        match self.connected_among(device, connector, self.keys(), self.keys().len() as int) {
            Some(id) => (
                if driven {
                    self.without_output(id)
                } else {
                    self.unconnected(id)
                },
                let_go(d, id),
                Some(id),
            ),
            None => (self, d, None),
        }
    }
}

impl NativeLoop {
    /// Takes in a report on a connector that something was plugged into. Gives the output that is
    /// to be set up, if any.
    pub fn connector_connected(
        &mut self,
        desktop: &mut Desktop,
        device: &String,
        report: &ConnectorReport,
    ) -> (r: Result<Option<NewOutput>, DesktopError>)
        requires
            old(self)@.next_output_id < u32::MAX,
            old(desktop)@.anchored(),
        ensures
            ({
                let (after, left, outcome) = old(self)@.plugged_in(
                    old(desktop)@,
                    device@,
                    report@,
                );
                &&& final(self)@ == after
                &&& final(desktop)@ == left
                &&& match outcome {
                    Ok(Some(planned)) => r is Ok && r->Ok_0 is Some && (r->Ok_0->0)@ == planned,
                    Ok(None) => r is Ok && r->Ok_0 is None,
                    Err(fault) => r is Err && r->Err_0@ == fault,
                }
            }),
    {
        if !report.driven || report.modes.len() == 0 {
            return Ok(None);
        }
        let name: String = name_of(report);
        let plan: PlannedOutput = plan_of(report, device);
        let mode: usize = match mode_place(report.modes.as_slice(), plan.mode) {
            Some(mode) => mode,
            None => {
                assert(false);
                0
            },
        };
        proof {
            let chosen = choose|i: int| stands_first(report@.modes, plan.mode, i);
            assert(stands_first(report@.modes, plan.mode, mode as int));
            if chosen < mode {
                assert(report@.modes[chosen] == plan.mode);
            } else if mode < chosen {
                assert(report@.modes[mode as int] == plan.mode);
            }
        }
        let size: Size = Size { width: plan.mode.width as i64, height: plan.mode.height as i64 };
        let output: Output = Output::new(OutputId(self.next_output_id), plan.stable_key, size);
        self.next_output_id = self.next_output_id + 1;
        match desktop.connect_output(output.clone()) {
            Ok(_) => Ok(Some(NewOutput { output, mode, name, alias: plan.connector })),
            Err(error) => Err(error),
        }
    }

    /// Takes in whether an output that the desktop has taken could be set up.
    pub fn output_initialized(
        &mut self,
        desktop: &mut Desktop,
        id: OutputId,
        device: u64,
        connector: u64,
        retrace: Option<u64>,
    )
        requires
            old(desktop)@.anchored(),
        ensures
            (final(self)@, final(desktop)@) == old(self)@.set_up(
                old(desktop)@,
                id,
                device,
                connector,
                retrace,
            ),
    {
        match retrace {
            Some(retrace) => {
                self.add_output(id, device, connector, retrace);
            },
            None => {
                let _ = desktop.disconnect_output(id);
            },
        }
    }

    /// Takes in that the plug of a connector was pulled. Gives the output that went with it.
    pub fn connector_disconnected(
        &mut self,
        desktop: &mut Desktop,
        device: u64,
        connector: u64,
        driven: bool,
    ) -> (r: Option<OutputId>)
        requires
            old(desktop)@.anchored(),
        ensures
            (final(self)@, final(desktop)@, r) == old(self)@.unplugged(
                old(desktop)@,
                device,
                connector,
                driven,
            ),
    {
        let found: Option<OutputId> = self.find_connector(device, connector);
        if let Some(id) = found {
            let _ = desktop.disconnect_output(id);
            if driven {
                self.remove_output(id);
            } else {
                self.unconnect(id);
            }
        }
        found
    }

    /// Takes in that a device has gone. Gives the outputs that went with it.
    pub fn device_removed(&mut self, desktop: &mut Desktop, device: u64) -> (r: Vec<OutputId>)
        requires
            old(desktop)@.anchored(),
        ensures
            r@ == old(self)@.outputs_on(device),
            final(self)@ == old(self)@.without_device(device),
            final(desktop)@ == let_all_go(old(desktop)@, r@, r@.len() as int),
    {
        let list: Vec<OutputId> = self.remove_device(device);
        let ghost start = desktop@;
        let mut i: usize = 0;
        while i < list.len()
            invariant
                i <= list@.len(),
                desktop@.anchored(),
                desktop@ == let_all_go(start, list@, i as int),
            decreases list@.len() - i,
        {
            let _ = desktop.disconnect_output(list[i]);
            i = i + 1;
        }
        list
    }
}

/// An event of the native backend, without what only its source can make use of.
#[derive(Clone, Copy, Debug, Eq, PartialEq, Structural)]
pub enum NativeEvent {
    Input,
    PauseSession,
    ActivateSession,
    DeviceAdded(u64),
    DeviceChanged(u64),
    DeviceRemoved(u64),
    /// The hardware has shown a frame on an output.
    Shown(OutputId),
    DeviceFailed(u64),
    /// The drawing of a frame is done.
    FenceReady(Prepared),
    WaylandClient,
    WaylandReady,
    IpcReady,
    ConfigChanged,
    InputServiceExited,
}

/// What is to be done about an event.
#[derive(Debug)]
pub enum Step {
    Nothing,
    HandleInput,
    SuspendInput,
    /// Take up the session again: activate these devices, then set up those that came meanwhile.
    ResumeInput { devices: Vec<u64>, deferred: Vec<u64> },
    SetUpDevice(u64),
    ScanConnectors(u64),
    /// A device has gone, and these outputs with it.
    ForgetDevice { device: u64, outputs: Vec<OutputId> },
    /// Ask the hardware which frame it has shown.
    RetireFrame(OutputId),
    QueueFrame(Prepared),
    AcceptClient,
    DispatchClients,
    DispatchIpc,
    ReadConfig,
    RestartInputService,
}

pub enum StepView {
    Nothing,
    HandleInput,
    SuspendInput,
    ResumeInput { devices: Seq<u64>, deferred: Seq<u64> },
    SetUpDevice(u64),
    ScanConnectors(u64),
    ForgetDevice { device: u64, outputs: Seq<OutputId> },
    RetireFrame(OutputId),
    QueueFrame(Prepared),
    AcceptClient,
    DispatchClients,
    DispatchIpc,
    ReadConfig,
    RestartInputService,
}

impl View for Step {
    type V = StepView;

    open spec fn view(&self) -> StepView {
        match *self {
            Step::Nothing => StepView::Nothing,
            Step::HandleInput => StepView::HandleInput,
            Step::SuspendInput => StepView::SuspendInput,
            Step::ResumeInput { devices, deferred } => StepView::ResumeInput {
                devices: devices@,
                deferred: deferred@,
            },
            Step::SetUpDevice(device) => StepView::SetUpDevice(device),
            Step::ScanConnectors(device) => StepView::ScanConnectors(device),
            Step::ForgetDevice { device, outputs } => StepView::ForgetDevice {
                device,
                outputs: outputs@,
            },
            Step::RetireFrame(output) => StepView::RetireFrame(output),
            Step::QueueFrame(frame) => StepView::QueueFrame(frame),
            Step::AcceptClient => StepView::AcceptClient,
            Step::DispatchClients => StepView::DispatchClients,
            Step::DispatchIpc => StepView::DispatchIpc,
            Step::ReadConfig => StepView::ReadConfig,
            Step::RestartInputService => StepView::RestartInputService,
        }
    }
}

impl NativeEvent {
    /// Whether what is shown may be different after the event.
    pub open spec fn changes_the_scene(self) -> bool {
        self is Input || self is WaylandClient || self is WaylandReady || self is IpcReady
    }
}

impl presentation::NativeView {
    /// The loop and the desktop after an event, and what is to be done about it.
    pub open spec fn stepped(self, d: desktop::DesktopView, event: NativeEvent, now: u64) -> (
        Self,
        desktop::DesktopView,
        StepView,
    ) {
        match event {
            NativeEvent::Input => (self, d, StepView::HandleInput),
            NativeEvent::PauseSession => (self.session_paused(), d, StepView::SuspendInput),
            NativeEvent::ActivateSession => (
                presentation::NativeView { deferred: Set::empty(), ..self.session_activated() },
                d,
                StepView::ResumeInput {
                    devices: ranking::ascending(self.devices.dom()),
                    deferred: ranking::ascending(self.deferred),
                },
            ),
            NativeEvent::DeviceAdded(device) => if !self.session_active {
                (
                    presentation::NativeView { deferred: self.deferred.insert(device), ..self },
                    d,
                    StepView::Nothing,
                )
            } else if self.devices.contains_key(device) {
                (self, d, StepView::Nothing)
            } else {
                (self, d, StepView::SetUpDevice(device))
            },
            NativeEvent::DeviceChanged(device) => if self.session_active
                && self.devices.contains_key(device) {
                (self, d, StepView::ScanConnectors(device))
            } else {
                (self, d, StepView::Nothing)
            },
            NativeEvent::DeviceRemoved(device) => {
                let outputs = self.outputs_on(device);
                (
                    self.without_device(device),
                    let_all_go(d, outputs, outputs.len() as int),
                    StepView::ForgetDevice { device, outputs },
                )
            },
            NativeEvent::Shown(output) => (self, d, StepView::RetireFrame(output)),
            NativeEvent::DeviceFailed(device) => (
                self.device_failed(device, self.keys(), self.keys().len() as int, now),
                d,
                StepView::Nothing,
            ),
            NativeEvent::FenceReady(frame) => {
                let (after, wanted) = self.prepared(frame.output.0 as u64, frame.frame_id);
                (
                    after,
                    d,
                    if wanted {
                        StepView::QueueFrame(frame)
                    } else {
                        StepView::Nothing
                    },
                )
            },
            NativeEvent::WaylandClient => (self, d, StepView::AcceptClient),
            NativeEvent::WaylandReady => (self, d, StepView::DispatchClients),
            NativeEvent::IpcReady => (self, d, StepView::DispatchIpc),
            NativeEvent::ConfigChanged => (self, d, StepView::ReadConfig),
            NativeEvent::InputServiceExited => (self, d, StepView::RestartInputService),
        }
    }

    /// When something must be done next. The input service is left alone while the session is
    /// locked.
    pub open spec fn soonest_deadline(
        self,
        ipc: Option<u64>,
        timer: Option<u64>,
        input_service: Option<u64>,
        locked: bool,
    ) -> Option<u64> {
        nested::soonest(
            seq![
                ipc,
                timer,
                self.scheduler.earliest(),
                nested::soonest(self.software_deadlines()),
                nested::soonest(self.fence_deadlines(self.keys(), self.keys().len() as int)),
                self.shutdown_deadline,
                if locked {
                    None
                } else {
                    input_service
                },
            ],
        )
    }
}

impl NativeLoop {
    /// Takes in an event. Gives what is to be done about it, and whether what is shown may be
    /// different after that.
    pub fn process_event(&mut self, desktop: &mut Desktop, event: NativeEvent, now: u64) -> (r: (
        Step,
        bool,
    ))
        requires
            old(desktop)@.anchored(),
        ensures
            (final(self)@, final(desktop)@, r.0@) == old(self)@.stepped(
                old(desktop)@,
                event,
                now,
            ),
            r.1 == event.changes_the_scene(),
    {
        match event {
            NativeEvent::Input => (Step::HandleInput, true),
            NativeEvent::PauseSession => {
                self.pause_session();
                (Step::SuspendInput, false)
            },
            NativeEvent::ActivateSession => {
                let devices: Vec<u64> = self.devices.keys();
                self.activate_session();
                let deferred: Vec<u64> = self.take_deferred();
                (Step::ResumeInput { devices, deferred }, false)
            },
            NativeEvent::DeviceAdded(device) => {
                if self.device_appeared(device) {
                    (Step::SetUpDevice(device), false)
                } else {
                    (Step::Nothing, false)
                }
            },
            NativeEvent::DeviceChanged(device) => {
                if self.session_active && self.devices.contains_key(device) {
                    (Step::ScanConnectors(device), false)
                } else {
                    (Step::Nothing, false)
                }
            },
            NativeEvent::DeviceRemoved(device) => {
                let outputs: Vec<OutputId> = self.device_removed(desktop, device);
                (Step::ForgetDevice { device, outputs }, false)
            },
            NativeEvent::Shown(output) => (Step::RetireFrame(output), false),
            NativeEvent::DeviceFailed(device) => {
                self.fail_device_frames(device, now);
                (Step::Nothing, false)
            },
            NativeEvent::FenceReady(frame) => {
                if self.prepare_frame(frame.output, frame.frame_id) {
                    (Step::QueueFrame(frame), false)
                } else {
                    (Step::Nothing, false)
                }
            },
            NativeEvent::WaylandClient => (Step::AcceptClient, true),
            NativeEvent::WaylandReady => (Step::DispatchClients, true),
            NativeEvent::IpcReady => (Step::DispatchIpc, true),
            NativeEvent::ConfigChanged => (Step::ReadConfig, false),
            NativeEvent::InputServiceExited => (Step::RestartInputService, false),
        }
    }

    /// How long to wait for events: not at all while some wait or a frame may begin, otherwise
    /// until something must be done.
    pub fn next_wait(
        &self,
        busy: bool,
        ipc: Option<u64>,
        timer: Option<u64>,
        input_service: Option<u64>,
        locked: bool,
        now: u64,
    ) -> (r: Option<u64>)
        ensures
            r == nested::patience(
                busy || exists|i: int| self@.scheduler.eligible(now, i),
                self@.soonest_deadline(ipc, timer, input_service, locked),
                now,
            ),
    {
        let times: [Option<u64>; 7] = [
            ipc,
            timer,
            self.scheduler.earliest_deadline(),
            self.next_software_presentation(),
            self.next_fence_check(),
            self.shutdown_deadline,
            if locked {
                None
            } else {
                input_service
            },
        ];
        let deadline: Option<u64> = earliest(&times);
        wait_for(busy || self.scheduler.has_ready_at(now), deadline, now)
    }
}

} // verus!
