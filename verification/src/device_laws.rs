//! What becomes of outputs when their devices come, go and fail.

use crate::connectors;
use crate::connectors::NativeEvent;
use crate::desktop;
use crate::devices;
use crate::model::OutputId;
use crate::native_policy;
use crate::presentation;
use crate::presentation::{Retired, Surface};
use crate::ranking;
use crate::runtime;
use crate::runtime::RepaintReasons;
use vstd::prelude::*;

verus! {

/// Whether an output is to be drawn whole.
pub open spec fn drawn_whole(scheduler: runtime::SchedulerView, k: u64) -> bool {
    scheduler.outputs.contains_key(k) && scheduler.outputs[k].reasons.with(
        scheduler.outputs[k].dirty_after_present,
    ).has(RepaintReasons(32))
}

proof fn repainting_draws_whole(scheduler: runtime::SchedulerView, k: u64, other: u64)
    requires
        k <= u32::MAX,
    ensures
        drawn_whole(devices::repainted(scheduler, presentation::output(k)), k),
        other != k ==> {
            let after = devices::repainted(scheduler, presentation::output(k));
            &&& after.outputs.contains_key(other) == scheduler.outputs.contains_key(other)
            &&& after.outputs[other] == scheduler.outputs[other]
        },
{
    let added = scheduler.added(presentation::output(k));
    let a = added.outputs[k].reasons.0;
    let b = added.outputs[k].dirty_after_present.0;
    assert(((a | 32u8) | b) & 32u8 == 32u8) by (bit_vector);
    assert((a | (b | 32u8)) & 32u8 == 32u8) by (bit_vector);
}

/// A device that may be used again has those of its outputs that have power drawn whole; one that
/// may not has none of its outputs drawn. The outputs of other devices are left alone.
pub proof fn activated_devices_are_drawn(
    state: presentation::NativeView,
    device: u64,
    usable: bool,
    powered: Seq<OutputId>,
    keys: Seq<u64>,
    n: int,
    i: int,
)
    requires
        0 <= n <= keys.len(),
        0 <= i < keys.len(),
        keys.no_duplicates(),
        forall|j: int| 0 <= j < keys.len() ==> #[trigger] keys[j] <= u32::MAX,
    ensures
        ({
            let after = state.rescheduled(device, usable, powered, keys, n);
            let k = keys[i];
            let mine = i < n && state.surfaces[k].device == device;
            let lit = powered.contains(OutputId(k as u32));
            &&& !mine || (usable && !lit) ==> after.outputs.contains_key(k)
                == state.scheduler.outputs.contains_key(k) && after.outputs[k]
                == state.scheduler.outputs[k]
            &&& mine && !usable ==> !after.outputs.contains_key(k)
            &&& mine && usable && lit ==> drawn_whole(after, k)
        }),
    decreases n,
{
    if n > 0 {
        activated_devices_are_drawn(state, device, usable, powered, keys, n - 1, i);
        let before = state.rescheduled(device, usable, powered, keys, n - 1);
        let last = keys[n - 1];
        repainting_draws_whole(before, last, keys[i]);
        if i != n - 1 {
            assert(keys[i] != last);
        }
    }
}

/// An output that is given power is drawn whole.
pub proof fn powered_outputs_are_drawn(
    state: presentation::NativeView,
    keys: Seq<u64>,
    n: int,
    i: int,
)
    requires
        0 <= i < n <= keys.len(),
        keys.no_duplicates(),
        forall|j: int| 0 <= j < keys.len() ==> #[trigger] keys[j] <= u32::MAX,
        state.surfaces[keys[i]].requested_power_mode == Some(true),
        state.devices.contains_key(state.surfaces[keys[i]].device),
        state.devices[state.surfaces[keys[i]].device],
        state.surfaces[keys[i]].idle(),
    ensures
        drawn_whole(state.power_applied(keys, n).0.scheduler, keys[i]),
    decreases n,
{
    surfaces_behind_stay(state, keys, n - 1);
    let before = state.power_applied(keys, n - 1).0;
    repainting_draws_whole(before.scheduler, keys[n - 1], keys[i]);
    if i < n - 1 {
        powered_outputs_are_drawn(state, keys, n - 1, i);
        assert(keys[i] != keys[n - 1]);
    } else {
        assert(before.surfaces[keys[i]] == state.surfaces[keys[i]]);
    }
}

proof fn surfaces_behind_stay(state: presentation::NativeView, keys: Seq<u64>, n: int)
    requires
        n <= keys.len(),
        keys.no_duplicates(),
    ensures
        state.power_applied(keys, n).0.devices == state.devices,
        forall|m: int|
            0 <= m < keys.len() && n <= m ==> state.power_applied(keys, n).0.surfaces[
                #[trigger] keys[m]
            ] == state.surfaces[keys[m]],
    decreases n,
{
    if n > 0 {
        surfaces_behind_stay(state, keys, n - 1);
        assert forall|m: int| 0 <= m < keys.len() && n <= m implies state.power_applied(
            keys,
            n,
        ).0.surfaces[#[trigger] keys[m]] == state.surfaces[keys[m]] by {
            assert(keys[m] != keys[n - 1]);
        }
    }
}

/// When a device fails, what is under way on other devices goes on.
pub proof fn other_devices_go_on(
    state: presentation::NativeView,
    device: u64,
    keys: Seq<u64>,
    n: int,
    now: u64,
    k: u64,
)
    requires
        n <= keys.len(),
        state.surfaces.contains_key(k),
        state.surfaces[k].device != device,
        forall|j: int| 0 <= j < keys.len() ==> #[trigger] keys[j] <= u32::MAX,
        k <= u32::MAX,
    ensures
        state.device_failed(device, keys, n, now).surfaces[k] == state.surfaces[k],
        state.device_failed(device, keys, n, now).scheduler.outputs[k]
            == state.scheduler.outputs[k],
    decreases n,
{
    if n > 0 {
        other_devices_go_on(state, device, keys, n - 1, now, k);
    }
}

/// A frame that was not shown is asked for again after the time that a frame is shown; a fence
/// that is not reached is looked at after twice the time, or after that of a frame.
pub proof fn failed_frames_are_drawn_a_frame_later(
    state: presentation::NativeView,
    k: u64,
    now: u64,
    delay: u64,
    retrace: u64,
)
    requires
        state.surfaces.contains_key(k),
        state.surfaces[k].pending is Some,
        now + state.surfaces[k].retrace <= u64::MAX,
    ensures
        ({
            let (after, shown) = state.retired(k, Retired::Failed, now);
            &&& shown is None
            &&& after.surfaces[k].pending is None
            &&& after.scheduler == state.scheduler.failed(
                presentation::output(k),
                state.surfaces[k].pending->0.frame_id,
                Some((now + state.surfaces[k].retrace) as u64),
            ).0
        }),
        2 * delay < retrace ==> presentation::backed_off(delay, retrace) == 2 * delay,
        2 * delay >= retrace ==> presentation::backed_off(delay, retrace) == retrace,
{
}

/// A frame without changes counts as shown when its time has come, and only then; one that was
/// handed to the hardware counts as shown when the hardware says so.
pub proof fn unchanged_frames_count_as_shown(
    state: presentation::NativeView,
    keys: Seq<u64>,
    n: int,
    now: u64,
    i: int,
)
    requires
        0 <= n <= keys.len(),
        0 <= i < keys.len(),
        keys.no_duplicates(),
    ensures
        ({
            let after = state.software_shown(keys, n, now).0;
            let frame = state.surfaces[keys[i]].pending;
            let over = i < n && frame is Some && !frame->0.queued && frame->0.deadline is Some
                && frame->0.deadline->0 <= now;
            &&& over ==> after.surfaces[keys[i]].pending is None
            &&& !over ==> after.surfaces[keys[i]] == state.surfaces[keys[i]]
        }),
    decreases n,
{
    if n > 0 {
        unchanged_frames_count_as_shown(state, keys, n - 1, now, i);
        unchanged_frames_count_as_shown(state, keys, n - 1, now, n - 1);
        if i != n - 1 {
            assert(keys[i] != keys[n - 1]);
        }
    }
}

/// The outputs on a device are those that are on a connector of it.
pub proof fn outputs_are_on_their_devices(
    state: presentation::NativeView,
    device: u64,
    keys: Seq<u64>,
    n: int,
    i: int,
)
    requires
        0 <= n <= keys.len(),
        0 <= i < keys.len(),
        keys.no_duplicates(),
        forall|j: int| 0 <= j < keys.len() ==> #[trigger] keys[j] <= u32::MAX,
    ensures
        state.outputs_of(device, keys, n).contains(OutputId(keys[i] as u32)) <==> i < n
            && state.surfaces[keys[i]].device == device && state.surfaces[keys[i]].connector is Some,
    decreases n,
{
    if n > 0 {
        outputs_are_on_their_devices(state, device, keys, n - 1, i);
        let before = state.outputs_of(device, keys, n - 1);
        let after = state.outputs_of(device, keys, n);
        let id = OutputId(keys[i] as u32);
        if i != n - 1 {
            assert(keys[i] != keys[n - 1]);
        }
        if before.contains(id) {
            let j = before.index_of(id);
            assert(after[j] == id);
        }
        if after.contains(id) {
            let j = after.index_of(id);
            if j < before.len() {
                assert(before[j] == id);
            }
        }
        if after.len() > before.len() {
            assert(after[before.len() as int] == presentation::output(keys[n - 1]));
        }
    }
}

/// Devices that come while the session is elsewhere wait, and are set up when it is back, with
/// those that it has. A device that is known is not set up again, and only one that is known is
/// looked at when it changes.
pub proof fn devices_wait_for_the_session(
    state: presentation::NativeView,
    d: desktop::DesktopView,
    device: u64,
    now: u64,
)
    requires
        state.devices.dom().finite(),
        state.deferred.finite(),
    ensures
        ({
            let (after, _, step) = state.stepped(d, NativeEvent::DeviceAdded(device), now);
            &&& !state.session_active ==> after.deferred.contains(device) && step is Nothing
                && after.devices == state.devices
            &&& state.session_active ==> after == state
            &&& state.session_active && state.devices.contains_key(device) ==> step is Nothing
            &&& state.session_active && !state.devices.contains_key(device) ==> step
                == connectors::StepView::SetUpDevice(device)
        }),
        ({
            let (after, _, step) = state.stepped(d, NativeEvent::ActivateSession, now);
            &&& after.session_active && after.deferred == Set::<u64>::empty()
            &&& step is ResumeInput
            &&& forall|k: u64| #[trigger]
                step->ResumeInput_devices.contains(k) <==> state.devices.contains_key(k)
            &&& forall|k: u64| #[trigger]
                step->deferred.contains(k) <==> state.deferred.contains(k)
            &&& after.surfaces == state.surfaces
        }),
        ({
            let (after, _, step) = state.stepped(d, NativeEvent::DeviceChanged(device), now);
            &&& after == state
            &&& step == (if state.session_active && state.devices.contains_key(device) {
                connectors::StepView::ScanConnectors(device)
            } else {
                connectors::StepView::Nothing
            })
        }),
        ({
            let (after, _, step) = state.stepped(d, NativeEvent::DeviceRemoved(device), now);
            &&& !after.devices.contains_key(device) && !after.deferred.contains(device)
            &&& step is ForgetDevice
        }),
        ({
            let (after, _, step) = state.stepped(d, NativeEvent::PauseSession, now);
            &&& !after.session_active
            &&& step is SuspendInput
        }),
{
    ranking::ranking_ranks(state.devices.dom(), |id: u64| 0);
    ranking::ranking_ranks(state.deferred, |id: u64| 0);
    let known = ranking::ascending(state.devices.dom());
    let waiting = ranking::ascending(state.deferred);
    assert forall|k: u64| #[trigger] known.contains(k) <==> state.devices.contains_key(k) by {
        assert(known.to_set().contains(k) <==> known.contains(k));
    }
    assert forall|k: u64| #[trigger] waiting.contains(k) <==> state.deferred.contains(k) by {
        assert(waiting.to_set().contains(k) <==> waiting.contains(k));
    }
}

/// An output that cannot be set up is taken back from the desktop where that can be done; one that
/// can be is on its connector.
pub proof fn outputs_that_fail_are_taken_back(
    state: presentation::NativeView,
    d: desktop::DesktopView,
    id: OutputId,
    device: u64,
    connector: u64,
    retrace: u64,
)
    ensures
        ({
            let (after, left) = state.set_up(d, id, device, connector, None);
            &&& after == state
            &&& d.disconnected(id) matches Ok(without) ==> left == without
            &&& d.disconnected(id) is Err ==> left == d
        }),
        ({
            let (after, left) = state.set_up(d, id, device, connector, Some(retrace));
            &&& left == d
            &&& after.surfaces.contains_key(id.0 as u64)
            &&& after.surfaces[id.0 as u64] == Surface::connected(device, connector, retrace)
            &&& drawn_whole(after.scheduler, id.0 as u64)
        }),
{
    repainting_draws_whole(state.scheduler, id.0 as u64, id.0 as u64);
}

/// A monitor is set up in the mode that is selected, as large as the mode is, and not scaled or
/// turned.
pub proof fn monitors_are_as_large_as_their_modes(
    report: connectors::ReportView,
    device: Seq<char>,
    id: OutputId,
)
    requires
        report.modes.len() > 0,
    ensures
        ({
            let planned = report.new_output(device, id);
            let mode = report.modes[planned.mode];
            &&& 0 <= planned.mode < report.modes.len()
            &&& exists|i: int| #[trigger]
                native_policy::is_selected(report.modes, i) && report.modes[i] == mode
            &&& planned.output.id == id
            &&& planned.output.physical_size.width == mode.width
                && planned.output.physical_size.height == mode.height
            &&& planned.output.logical_size == planned.output.physical_size
            &&& planned.output.stable_key == native_policy::stable_key(report.edid, planned.alias)
            &&& planned.alias == device + ":"@ + planned.name
        }),
{
    let at = native_policy::selection_exists(report.modes);
    assert(native_policy::is_selected(report.modes, at));
    let i = choose|i: int| native_policy::is_selected(report.modes, i);
    let mode = report.plan(device).mode;
    assert(report.modes[i] == mode);
    let first = first_place(report.modes, i);
    assert(connectors::stands_first(report.modes, mode, first));
    let chosen = choose|c: int| connectors::stands_first(report.modes, mode, c);
    assert(connectors::stands_first(report.modes, mode, chosen));
}

proof fn first_place(modes: Seq<native_policy::ModeCandidate>, at: int) -> (first: int)
    requires
        0 <= at < modes.len(),
    ensures
        connectors::stands_first(modes, modes[at], first),
    decreases at,
{
    if connectors::stands_first(modes, modes[at], at) {
        at
    } else {
        let j = choose|j: int| 0 <= j < at && modes[j] == modes[at];
        first_place(modes, j)
    }
}

/// A connector that is driven and has a mode gets an output with the next number, which is used up
/// even where the desktop does not take the output. Any other connector changes nothing.
pub proof fn plugs_get_numbered_outputs(
    state: presentation::NativeView,
    d: desktop::DesktopView,
    device: Seq<char>,
    report: connectors::ReportView,
)
    requires
        state.next_output_id < u32::MAX,
    ensures
        ({
            let (after, left, outcome) = state.plugged_in(d, device, report);
            let number = OutputId(state.next_output_id);
            &&& !report.driven || report.modes.len() == 0 ==> after == state && left == d
                && outcome == Ok::<Option<connectors::NewView>, desktop::DesktopFault>(None)
            &&& report.driven && report.modes.len() > 0 ==> after.next_output_id
                == state.next_output_id + 1 && after.surfaces == state.surfaces && after.scheduler
                == state.scheduler
            &&& outcome matches Ok(Some(planned)) ==> planned.output.id == number && d.connected(
                planned.output,
            ) == Ok::<desktop::DesktopView, desktop::DesktopFault>(left)
            &&& outcome matches Err(fault) ==> left == d
        }),
{
}

/// A frame that the hardware took is waited for, as it was drawn; one that it did not take is drawn
/// again after the time that a frame is shown.
pub proof fn handed_frames_are_waited_for(
    state: presentation::NativeView,
    frame: presentation::Prepared,
    now: u64,
)
    requires
        state.surfaces.contains_key(frame.output.0 as u64),
        now + state.surfaces[frame.output.0 as u64].retrace <= u64::MAX,
    ensures
        ({
            let k = frame.output.0 as u64;
            let taken = state.handed_over(frame, true, now);
            let refused = state.handed_over(frame, false, now);
            &&& taken.scheduler == state.scheduler
            &&& taken.surfaces[k].pending matches Some(pending) && pending.frame_id
                == frame.frame_id && pending.queued && pending.deadline is None
                && pending.lock_generation == frame.lock_generation && pending.power_mode
                == frame.power_mode
            &&& refused.surfaces == state.surfaces
            &&& refused.scheduler == state.scheduler.failed(
                frame.output,
                frame.frame_id,
                Some((now + state.surfaces[k].retrace) as u64),
            ).0
        }),
{
}

} // verus!
